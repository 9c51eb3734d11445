//! What is known of a top-level window, and whether it may be managed.

use vstd::prelude::*;

use crate::geometry::{MonitorInfo, Rect, WindowHandle};
use crate::text::{blank, is_blank, same_text};

verus! {

/// The style bits of a window.
#[derive(Debug, Clone, Copy, PartialEq, Eq, Structural)]
pub struct WindowStyles {
    pub style: u32,
    pub extended_style: u32,
}

/// A top-level window as it was found.
#[derive(Debug, Clone, PartialEq, Eq)]
pub struct WindowInfo {
    pub handle: WindowHandle,
    pub title: String,
    pub class_name: String,
    pub process_id: u32,
    pub executable_path: Option<String>,
    pub is_visible: bool,
    pub is_minimized: bool,
    pub is_dwm_cloaked: bool,
    pub has_owner: bool,
    pub is_tool_window: bool,
    pub styles: WindowStyles,
    pub rect: Rect,
}

/// Whether a window may be managed, or why not.
#[derive(Debug, Clone, Copy, PartialEq, Eq)]
pub enum Manageability {
    Manageable,
    Unmanageable(&'static str),
}

impl Manageability {
    /// Why the window may not be managed.
    pub open spec fn reason(self) -> Option<Seq<char>> {
        match self {
            Manageability::Manageable => None,
            Manageability::Unmanageable(reason) => Some(reason@),
        }
    }

    /// Whether the window may be managed.
    pub fn is_manageable(self) -> (r: bool)
        ensures
            r == (self.reason() is None),
    {
        matches!(self, Manageability::Manageable)
    }
}

/// Whether a window class belongs to the desktop shell.
pub open spec fn shell_class(class_name: Seq<char>) -> bool {
    ||| class_name == "Progman"@
    ||| class_name == "WorkerW"@
    ||| class_name == "Shell_TrayWnd"@
    ||| class_name == "Shell_SecondaryTrayWnd"@
    ||| class_name == "Button"@
    ||| class_name == "DV2ControlHost"@
    ||| class_name == "MsgrIMEWindowClass"@
    ||| class_name == "IME"@
}

/// Whether a window class belongs to the desktop shell.
pub fn is_shell_class(class_name: &str) -> (r: bool)
    ensures
        r == shell_class(class_name@),
{
    same_text(class_name, "Progman") || same_text(class_name, "WorkerW") || same_text(
        class_name,
        "Shell_TrayWnd",
    ) || same_text(class_name, "Shell_SecondaryTrayWnd") || same_text(class_name, "Button")
        || same_text(class_name, "DV2ControlHost") || same_text(class_name, "MsgrIMEWindowClass")
        || same_text(class_name, "IME")
}

impl WindowInfo {
    /// Why the window may not be managed, visible or not.
    pub open spec fn refusal_when_hidden(self) -> Option<Seq<char>> {
        if self.is_minimized {
            Some("minimized"@)
        } else if self.is_dwm_cloaked {
            Some("DWM cloaked"@)
        } else if is_blank(self.title@) {
            Some("empty title"@)
        } else if is_blank(self.class_name@) {
            Some("empty class name"@)
        } else if self.has_owner {
            Some("owned window"@)
        } else if self.is_tool_window {
            Some("tool window"@)
        } else if self.rect.covers_nothing() {
            Some("empty rectangle"@)
        } else if shell_class(self.class_name@) {
            Some("shell window class"@)
        } else {
            None
        }
    }

    /// Why the window may not be managed.
    pub open spec fn refusal(self) -> Option<Seq<char>> {
        if !self.is_visible {
            Some("not visible"@)
        } else {
            self.refusal_when_hidden()
        }
    }

    /// Explains whether a discovered top-level window is safe to manage.
    ///
    /// The filter is conservative: it skips shell, owned, invisible, cloaked, tool, minimized and
    /// placeholder windows rather than treat desktop infrastructure as an application.
    pub fn manageable_reason(&self) -> (r: Manageability)
        ensures
            r.reason() == self.refusal(),
    {
        if !self.is_visible {
            return Manageability::Unmanageable("not visible");
        }
        self.manageable_reason_after_visibility_check()
    }

    /// Whether the window may be managed.
    pub fn is_manageable(&self) -> (r: bool)
        ensures
            r == (self.refusal() is None),
    {
        self.manageable_reason().is_manageable()
    }

    /// Like `manageable_reason`, but a window that a workspace switch has hidden is not refused for
    /// being invisible.
    pub fn workspace_manageable_reason(&self) -> (r: Manageability)
        ensures
            r.reason() == self.refusal_when_hidden(),
    {
        if self.is_visible {
            return self.manageable_reason();
        }
        self.manageable_reason_after_visibility_check()
    }

    /// Whether the window may be managed, visible or not.
    pub fn is_workspace_manageable(&self) -> (r: bool)
        ensures
            r == (self.refusal_when_hidden() is None),
    {
        self.workspace_manageable_reason().is_manageable()
    }

    /// The checks that follow the one for visibility.
    pub fn manageable_reason_after_visibility_check(&self) -> (r: Manageability)
        ensures
            r.reason() == self.refusal_when_hidden(),
    {
        if self.is_minimized {
            return Manageability::Unmanageable("minimized");
        }
        if self.is_dwm_cloaked {
            return Manageability::Unmanageable("DWM cloaked");
        }
        if blank(&self.title) {
            return Manageability::Unmanageable("empty title");
        }
        if blank(&self.class_name) {
            return Manageability::Unmanageable("empty class name");
        }
        if self.has_owner {
            return Manageability::Unmanageable("owned window");
        }
        if self.is_tool_window {
            return Manageability::Unmanageable("tool window");
        }
        if self.rect.is_empty() {
            return Manageability::Unmanageable("empty rectangle");
        }
        if is_shell_class(&self.class_name) {
            return Manageability::Unmanageable("shell window class");
        }
        Manageability::Manageable
    }
}

/// The windows that may be managed, in their order.
pub fn manageable_windows(windows: &[WindowInfo]) -> (r: Vec<&WindowInfo>)
    ensures
        r@.unref() == windows@.filter(|window: WindowInfo| window.refusal() is None),
{
    let ghost keep = |window: WindowInfo| window.refusal() is None;
    let mut kept: Vec<&WindowInfo> = Vec::new();
    let mut index: usize = 0;
    proof {
        assert(windows@.take(0) =~= Seq::empty());
        reveal(Seq::filter);
        assert(kept@.unref() =~= Seq::empty());
    }
    while index < windows.len()
        invariant
            index <= windows.len(),
            keep == (|window: WindowInfo| window.refusal() is None),
            kept@.unref() == windows@.take(index as int).filter(keep),
        decreases windows.len() - index,
    {
        let ghost before = kept@;
        proof {
            assert(windows@.take(index + 1) =~= windows@.take(index as int).push(
                windows@[index as int],
            ));
            windows@.take(index as int).lemma_filter_push(windows@[index as int], keep);
        }
        if windows[index].is_manageable() {
            kept.push(&windows[index]);
            proof {
                assert(kept@.unref() =~= before.unref().push(windows@[index as int]));
            }
        }
        index = index + 1;
    }
    proof {
        assert(windows@.take(index as int) =~= windows@);
    }
    kept
}

/// Whether the middle of the window is on the monitor.
pub open spec fn centered_in(window: WindowInfo, monitor: MonitorInfo) -> bool {
    monitor.rect.covers(window.rect.middle().x as int, window.rect.middle().y as int)
}

/// The windows whose middle is on the monitor, in their order.
pub fn windows_in_monitor<'a>(windows: &'a [WindowInfo], monitor: &MonitorInfo) -> (r: Vec<
    &'a WindowInfo,
>)
    ensures
        r@.unref() == windows@.filter(|window: WindowInfo| centered_in(window, *monitor)),
{
    let ghost keep = |window: WindowInfo| centered_in(window, *monitor);
    let mut kept: Vec<&WindowInfo> = Vec::new();
    let mut index: usize = 0;
    proof {
        assert(windows@.take(0) =~= Seq::empty());
        reveal(Seq::filter);
        assert(kept@.unref() =~= Seq::empty());
    }
    while index < windows.len()
        invariant
            index <= windows.len(),
            keep == (|window: WindowInfo| centered_in(window, *monitor)),
            kept@.unref() == windows@.take(index as int).filter(keep),
        decreases windows.len() - index,
    {
        let ghost before = kept@;
        proof {
            assert(windows@.take(index + 1) =~= windows@.take(index as int).push(
                windows@[index as int],
            ));
            windows@.take(index as int).lemma_filter_push(windows@[index as int], keep);
        }
        if monitor.rect.contains(windows[index].rect.center()) {
            kept.push(&windows[index]);
            proof {
                assert(kept@.unref() =~= before.unref().push(windows@[index as int]));
            }
        }
        index = index + 1;
    }
    proof {
        assert(windows@.take(index as int) =~= windows@);
    }
    kept
}

/// A window that may be managed may be managed on a workspace too; what is refused there is refused
/// everywhere.
pub proof fn managed_windows_are_managed_on_workspaces(window: WindowInfo)
    ensures
        window.refusal() is None ==> window.refusal_when_hidden() is None,
        window.refusal_when_hidden() is Some ==> window.refusal() is Some,
        window.is_visible ==> window.refusal() == window.refusal_when_hidden(),
{
}

} // verus!
