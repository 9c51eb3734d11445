//! What changed between two looks at the windows.

use vstd::prelude::*;

use crate::daemon_state::{limit_of, DaemonState, DaemonView};
use crate::geometry::{MonitorInfo, WindowHandle};
use crate::handles::{handles_of, lemma_filter_ends, lemma_filter_step, ordered_handles};
use crate::monitors::{monitor_for_rect, monitor_of_rect};
use crate::rules::text_view;
use crate::size::WindowSizeConstraints;
use crate::sorted_map::SortedMap;
use crate::text::same_text;
use crate::window::WindowInfo;

verus! {

/// What changed between two looks at the windows: which are new, which are gone, how many changed, how
/// many are on another monitor, and whether the focus moved.
#[derive(Debug, Clone, PartialEq, Eq)]
pub struct SnapshotDiff {
    pub added: Vec<WindowHandle>,
    pub removed: Vec<WindowHandle>,
    pub changed: usize,
    pub moved_between_monitors: usize,
    pub foreground_changed: bool,
}

impl Default for SnapshotDiff {
    fn default() -> (r: Self)
        ensures
            r.added@.len() == 0,
            r.removed@.len() == 0,
            r.changed == 0,
            r.moved_between_monitors == 0,
            !r.foreground_changed,
    {
        SnapshotDiff {
            added: Vec::new(),
            removed: Vec::new(),
            changed: 0,
            moved_between_monitors: 0,
            foreground_changed: false,
        }
    }
}

/// Whether two looks at a window found the same.
pub open spec fn same_look(a: WindowInfo, b: WindowInfo) -> bool {
    &&& a.handle == b.handle
    &&& a.title@ == b.title@
    &&& a.class_name@ == b.class_name@
    &&& a.process_id == b.process_id
    &&& text_view(a.executable_path) == text_view(b.executable_path)
    &&& a.is_visible == b.is_visible
    &&& a.is_minimized == b.is_minimized
    &&& a.is_dwm_cloaked == b.is_dwm_cloaked
    &&& a.has_owner == b.has_owner
    &&& a.is_tool_window == b.is_tool_window
    &&& a.styles == b.styles
    &&& a.rect == b.rect
}

/// Whether two looks at a window found the same.
pub fn is_same_look(a: &WindowInfo, b: &WindowInfo) -> (r: bool)
    ensures
        r == same_look(*a, *b),
{
    let same_path: bool = match (&a.executable_path, &b.executable_path) {
        (Some(first), Some(second)) => same_text(first, second),
        (None, None) => true,
        _ => false,
    };
    a.handle == b.handle && same_text(&a.title, &b.title) && same_text(&a.class_name, &b.class_name)
        && a.process_id == b.process_id && same_path && a.is_visible == b.is_visible
        && a.is_minimized == b.is_minimized && a.is_dwm_cloaked == b.is_dwm_cloaked && a.has_owner
        == b.has_owner && a.is_tool_window == b.is_tool_window && a.styles == b.styles && a.rect
        == b.rect
}

/// The windows that are not among others.
pub open spec fn is_new_to(before: Map<u64, WindowInfo>) -> spec_fn(WindowHandle) -> bool {
    |window: WindowHandle| !before.contains_key(window.0)
}

fn new_windows(before: &SortedMap<WindowInfo>, after: &SortedMap<WindowInfo>) -> (r: Vec<WindowHandle>)
    requires
        before.wf(),
        after.wf(),
    ensures
        r@ == ordered_handles(after@).filter(is_new_to(before@)),
{
    let handles: Vec<WindowHandle> = handles_of(after);
    let ghost keep = is_new_to(before@);
    let mut kept: Vec<WindowHandle> = Vec::new();
    let mut index: usize = 0;
    proof {
        lemma_filter_ends(handles@, keep);
    }
    while index < handles.len()
        invariant
            index <= handles.len(),
            before.wf(),
            keep == is_new_to(before@),
            kept@ == handles@.take(index as int).filter(keep),
        decreases handles.len() - index,
    {
        proof {
            lemma_filter_step(handles@, index as int, keep);
        }
        if !before.contains_key(handles[index].0) {
            kept.push(handles[index]);
        }
        index = index + 1;
    }
    proof {
        lemma_filter_ends(handles@, keep);
    }
    kept
}

fn stated_limit(limits: &SortedMap<WindowSizeConstraints>, window: WindowHandle) -> (r: WindowSizeConstraints)
    requires
        limits.wf(),
    ensures
        r == limit_of(limits@, window),
{
    match limits.get(window.0) {
        Some(limit) => *limit,
        None => WindowSizeConstraints::none(),
    }
}

impl DaemonView {
    /// The windows that were there and have changed.
    pub open spec fn has_changed(self, refreshed: DaemonView) -> spec_fn(WindowHandle) -> bool {
        |window: WindowHandle|
            self.windows.contains_key(window.0) && !(same_look(
                self.windows[window.0],
                refreshed.windows[window.0],
            ) && limit_of(self.size_constraints, window) == limit_of(
                refreshed.size_constraints,
                window,
            ))
    }

    /// The windows that were there and are on another monitor.
    pub open spec fn has_changed_monitor(self, refreshed: DaemonView, monitors: Seq<MonitorInfo>) -> spec_fn(
        WindowHandle,
    ) -> bool {
        |window: WindowHandle|
            {
                let old_monitor = monitor_of_rect(self.windows[window.0].rect, monitors);
                let new_monitor = monitor_of_rect(refreshed.windows[window.0].rect, monitors);
                &&& self.windows.contains_key(window.0)
                &&& old_monitor is Some
                &&& new_monitor is Some
                &&& old_monitor != new_monitor
            }
    }

    /// What changed up to a later look at the windows.
    pub open spec fn is_diff(self, refreshed: DaemonView, monitors: Seq<MonitorInfo>, diff: SnapshotDiff) -> bool {
        let windows = ordered_handles(refreshed.windows);
        &&& diff.added@ == windows.filter(is_new_to(self.windows))
        &&& diff.removed@ == ordered_handles(self.windows).filter(is_new_to(refreshed.windows))
        &&& diff.changed == windows.filter(self.has_changed(refreshed)).len()
        &&& diff.moved_between_monitors == windows.filter(
            self.has_changed_monitor(refreshed, monitors),
        ).len()
        &&& diff.foreground_changed == (self.foreground != refreshed.foreground)
    }
}

impl DaemonState {
    fn changed_windows(&self, refreshed: &DaemonState, handles: &[WindowHandle]) -> (r: usize)
        requires
            self.wf(),
            refreshed.wf(),
            forall|i: int|
                0 <= i < handles@.len() ==> refreshed@.windows.contains_key(
                    (#[trigger] handles@[i]).0,
                ),
        ensures
            r == handles@.filter(self@.has_changed(refreshed@)).len(),
    {
        let ghost keep = self@.has_changed(refreshed@);
        let mut count: usize = 0;
        let mut index: usize = 0;
        proof {
            lemma_filter_ends(handles@, keep);
        }
        while index < handles.len()
            invariant
                index <= handles.len(),
                self.wf(),
                refreshed.wf(),
                forall|i: int|
                    0 <= i < handles@.len() ==> refreshed@.windows.contains_key(
                        (#[trigger] handles@[i]).0,
                    ),
                keep == self@.has_changed(refreshed@),
                count == handles@.take(index as int).filter(keep).len(),
                count <= index,
            decreases handles.len() - index,
        {
            let handle: WindowHandle = handles[index];
            proof {
                lemma_filter_step(handles@, index as int, keep);
            }
            if let Some(old_info) = self.windows.get(handle.0) {
                if let Some(new_info) = refreshed.windows.get(handle.0) {
                    let same_limit: bool = stated_limit(&self.size_constraints, handle)
                        == stated_limit(&refreshed.size_constraints, handle);
                    if !(is_same_look(old_info, new_info) && same_limit) {
                        count = count + 1;
                    }
                }
            }
            index = index + 1;
        }
        proof {
            lemma_filter_ends(handles@, keep);
        }
        count
    }

    fn moved_windows_count(
        &self,
        refreshed: &DaemonState,
        handles: &[WindowHandle],
        monitors: &[MonitorInfo],
    ) -> (r: usize)
        requires
            self.wf(),
            refreshed.wf(),
            forall|i: int|
                0 <= i < handles@.len() ==> refreshed@.windows.contains_key(
                    (#[trigger] handles@[i]).0,
                ),
        ensures
            r == handles@.filter(self@.has_changed_monitor(refreshed@, monitors@)).len(),
    {
        let ghost keep = self@.has_changed_monitor(refreshed@, monitors@);
        let mut count: usize = 0;
        let mut index: usize = 0;
        proof {
            lemma_filter_ends(handles@, keep);
        }
        while index < handles.len()
            invariant
                index <= handles.len(),
                self.wf(),
                refreshed.wf(),
                forall|i: int|
                    0 <= i < handles@.len() ==> refreshed@.windows.contains_key(
                        (#[trigger] handles@[i]).0,
                    ),
                keep == self@.has_changed_monitor(refreshed@, monitors@),
                count == handles@.take(index as int).filter(keep).len(),
                count <= index,
            decreases handles.len() - index,
        {
            let handle: WindowHandle = handles[index];
            proof {
                lemma_filter_step(handles@, index as int, keep);
            }
            if let Some(old_info) = self.windows.get(handle.0) {
                if let Some(new_info) = refreshed.windows.get(handle.0) {
                    let moved: bool = match (
                        monitor_for_rect(old_info.rect, monitors),
                        monitor_for_rect(new_info.rect, monitors),
                    ) {
                        (Some(old_monitor), Some(new_monitor)) => old_monitor != new_monitor,
                        _ => false,
                    };
                    if moved {
                        count = count + 1;
                    }
                }
            }
            index = index + 1;
        }
        proof {
            lemma_filter_ends(handles@, keep);
        }
        count
    }

    /// What changed up to a later look at the windows.
    pub fn diff(&self, refreshed: &DaemonState, monitors: &[MonitorInfo]) -> (r: SnapshotDiff)
        requires
            self.wf(),
            refreshed.wf(),
        ensures
            self@.is_diff(refreshed@, monitors@, r),
    {
        let handles: Vec<WindowHandle> = handles_of(&refreshed.windows);
        SnapshotDiff {
            added: new_windows(&self.windows, &refreshed.windows),
            removed: new_windows(&refreshed.windows, &self.windows),
            changed: self.changed_windows(refreshed, &handles),
            moved_between_monitors: self.moved_windows_count(refreshed, &handles, monitors),
            foreground_changed: self.foreground != refreshed.foreground,
        }
    }
}

/// Two looks that found the same differ in nothing.
pub proof fn same_windows_differ_in_nothing(state: DaemonView, monitors: Seq<MonitorInfo>)
    ensures
        ordered_handles(state.windows).filter(state.has_changed(state)).len() == 0,
        ordered_handles(state.windows).filter(state.has_changed_monitor(state, monitors)).len() == 0,
{
    lemma_filter_none(ordered_handles(state.windows), state.has_changed(state));
    lemma_filter_none(ordered_handles(state.windows), state.has_changed_monitor(state, monitors));
}

proof fn lemma_filter_none(windows: Seq<WindowHandle>, keep: spec_fn(WindowHandle) -> bool)
    requires
        forall|window: WindowHandle| !#[trigger] keep(window),
    ensures
        windows.filter(keep).len() == 0,
    decreases windows.len(),
{
    reveal(Seq::filter);
    if windows.len() > 0 {
        lemma_filter_none(windows.drop_last(), keep);
    }
}

} // verus!
