//! Which windows are managed, and what a window that is skipped is told.

use vstd::prelude::*;

use crate::text::{is_blank, is_space};
use crate::window::WindowInfo;

verus! {

/// White space is what Unicode lists as such, by number.
pub proof fn white_space_is_what_unicode_lists(c: char)
    ensures
        is_space(c) <==> seq![
            9u32,
            10,
            11,
            12,
            13,
            32,
            133,
            160,
            5760,
            8192,
            8193,
            8194,
            8195,
            8196,
            8197,
            8198,
            8199,
            8200,
            8201,
            8202,
            8232,
            8233,
            8239,
            8287,
            12288,
        ].contains(c as u32),
{
    let listed = seq![
        9u32,
        10,
        11,
        12,
        13,
        32,
        133,
        160,
        5760,
        8192,
        8193,
        8194,
        8195,
        8196,
        8197,
        8198,
        8199,
        8200,
        8201,
        8202,
        8232,
        8233,
        8239,
        8287,
        12288,
    ];
    let n = c as u32;
    if is_space(c) {
        if n <= 13 {
            assert(listed[n - 9] == n);
        } else if n == 32 {
            assert(listed[5] == n);
        } else if n == 133 {
            assert(listed[6] == n);
        } else if n == 160 {
            assert(listed[7] == n);
        } else if n == 5760 {
            assert(listed[8] == n);
        } else if n <= 8202 {
            assert(listed[n - 8192 + 9] == n);
        } else if n == 8232 {
            assert(listed[20] == n);
        } else if n == 8233 {
            assert(listed[21] == n);
        } else if n == 8239 {
            assert(listed[22] == n);
        } else if n == 8287 {
            assert(listed[23] == n);
        } else {
            assert(listed[24] == n);
        }
    }
}

/// A window is skipped exactly if it is minimized, cloaked, has nothing but white space for a title or a
/// class, has an owner, is a tool window, covers nothing, or belongs to the desktop; and, where it has
/// to be seen, if it is not visible.
pub proof fn only_plain_application_windows_are_managed(window: WindowInfo)
    ensures
        window.refusal_when_hidden() is Some <==> {
            ||| window.is_minimized
            ||| window.is_dwm_cloaked
            ||| forall|i: int| 0 <= i < window.title@.len() ==> is_space(#[trigger] window.title@[i])
            ||| forall|i: int|
                0 <= i < window.class_name@.len() ==> is_space(#[trigger] window.class_name@[i])
            ||| window.has_owner
            ||| window.is_tool_window
            ||| window.rect.right <= window.rect.left
            ||| window.rect.bottom <= window.rect.top
            ||| seq![
                "Progman"@,
                "WorkerW"@,
                "Shell_TrayWnd"@,
                "Shell_SecondaryTrayWnd"@,
                "Button"@,
                "DV2ControlHost"@,
                "MsgrIMEWindowClass"@,
                "IME"@,
            ].contains(window.class_name@)
        },
        window.refusal() is Some <==> !window.is_visible || window.refusal_when_hidden() is Some,
{
    let listed = seq![
        "Progman"@,
        "WorkerW"@,
        "Shell_TrayWnd"@,
        "Shell_SecondaryTrayWnd"@,
        "Button"@,
        "DV2ControlHost"@,
        "MsgrIMEWindowClass"@,
        "IME"@,
    ];
    assert(listed[0] == "Progman"@ && listed[1] == "WorkerW"@ && listed[2] == "Shell_TrayWnd"@);
    assert(listed[3] == "Shell_SecondaryTrayWnd"@ && listed[4] == "Button"@);
    assert(listed[5] == "DV2ControlHost"@ && listed[6] == "MsgrIMEWindowClass"@ && listed[7] == "IME"@);
}

/// What a window that is skipped is told is the first of these that is true of it: that it is not
/// visible, minimized, cloaked, without a title, without a class, owned, a tool window, without area, or
/// of the desktop.
pub proof fn skipped_window_is_told_what_is_true_of_it(window: WindowInfo)
    ensures
        ({
            let told = window.refusal();
            let seen = window.is_visible && !window.is_minimized && !window.is_dwm_cloaked;
            let named = seen && !is_blank(window.title@) && !is_blank(window.class_name@);
            let own = named && !window.has_owner && !window.is_tool_window;
            &&& !window.is_visible ==> told == Some("not visible"@)
            &&& window.is_visible ==> told == window.refusal_when_hidden()
            &&& window.is_visible && window.is_minimized ==> told == Some("minimized"@)
            &&& window.is_visible && !window.is_minimized && window.is_dwm_cloaked ==> told == Some(
                "DWM cloaked"@,
            )
            &&& seen && is_blank(window.title@) ==> told == Some("empty title"@)
            &&& seen && !is_blank(window.title@) && is_blank(window.class_name@) ==> told == Some(
                "empty class name"@,
            )
            &&& named && window.has_owner ==> told == Some("owned window"@)
            &&& named && !window.has_owner && window.is_tool_window ==> told == Some("tool window"@)
            &&& own && window.rect.covers_nothing() ==> told == Some("empty rectangle"@)
            &&& own && !window.rect.covers_nothing() ==> told is None || told == Some("shell window class"@)
        }),
{
    only_plain_application_windows_are_managed(window);
}

} // verus!
