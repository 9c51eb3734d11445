//! Dragging windows with the mouse while modifier keys are held.

use vstd::prelude::*;

use crate::geometry::{Point, Rect, WindowHandle};
use crate::text::same_text;

verus! {

/// What a drag of a window reports.
#[derive(Debug, Clone, Copy, PartialEq, Eq, Structural)]
pub enum MouseDragEventKind {
    Started,
    Moved,
    Ended,
    TitlebarStarted,
    TitlebarMoved,
    TitlebarEnded,
}

/// A report of a drag: the window and where the cursor is.
#[derive(Debug, Clone, Copy, PartialEq, Eq, Structural)]
pub struct MouseDragEvent {
    pub kind: MouseDragEventKind,
    pub window: WindowHandle,
    pub cursor: Point,
}

pub const WM_MOUSEMOVE: u32 = 0x0200;

pub const WM_LBUTTONDOWN: u32 = 0x0201;

pub const WM_LBUTTONUP: u32 = 0x0202;

/// How long to wait between two reports of a move, in microseconds.
pub const MODIFIER_DRAG_MOVE_INTERVAL_MICROS: u64 = 16_000;

/// A drag under way: its window, where the cursor was last, when a move was last reported, and
/// whether one was.
#[derive(Debug, Clone, Copy, PartialEq, Eq, Structural)]
pub struct ActiveMouseDrag {
    pub window: WindowHandle,
    pub last_cursor: Point,
    pub last_sent_move_at: u64,
    pub sent_move: bool,
}

/// A mouse message, with what the desktop says at that moment: the time in microseconds, whether
/// input hooks are paused, whether the drag modifiers are held, and the window under the cursor that
/// may be dragged.
#[derive(Debug, Clone, Copy, PartialEq, Eq, Structural)]
pub struct MouseInput {
    pub message: u32,
    pub cursor: Point,
    pub now: u64,
    pub paused: bool,
    pub modifiers_held: bool,
    pub target: Option<WindowHandle>,
}

/// What becomes of a mouse message: whether it is kept from the application, and what is reported.
#[derive(Debug, Clone, Copy, PartialEq, Eq, Structural)]
pub struct MouseOutcome {
    pub swallow: bool,
    pub report: Option<MouseDragEvent>,
}

/// Whether a move may be reported: the first one, or one that comes long enough after the last.
pub open spec fn move_is_due(drag: ActiveMouseDrag, now: u64) -> bool {
    !drag.sent_move || now - drag.last_sent_move_at >= MODIFIER_DRAG_MOVE_INTERVAL_MICROS
}

/// The drag after a mouse message.
pub open spec fn drag_after(drag: Option<ActiveMouseDrag>, input: MouseInput) -> Option<
    ActiveMouseDrag,
> {
    if input.paused {
        drag
    } else if input.message == WM_LBUTTONDOWN {
        match (input.modifiers_held, input.target) {
            (true, Some(window)) => Some(
                ActiveMouseDrag {
                    window,
                    last_cursor: input.cursor,
                    last_sent_move_at: input.now,
                    sent_move: false,
                },
            ),
            _ => drag,
        }
    } else if input.message == WM_MOUSEMOVE {
        match drag {
            Some(active) => Some(
                ActiveMouseDrag {
                    last_cursor: input.cursor,
                    last_sent_move_at: if move_is_due(active, input.now) {
                        input.now
                    } else {
                        active.last_sent_move_at
                    },
                    sent_move: true,
                    ..active
                },
            ),
            None => None,
        }
    } else if input.message == WM_LBUTTONUP {
        None
    } else {
        drag
    }
}

/// What a mouse message reports.
pub open spec fn drag_report(drag: Option<ActiveMouseDrag>, input: MouseInput) -> Option<
    MouseDragEvent,
> {
    if input.paused {
        None
    } else if input.message == WM_LBUTTONDOWN {
        match (input.modifiers_held, input.target) {
            (true, Some(window)) => Some(
                MouseDragEvent {
                    kind: MouseDragEventKind::Started,
                    window,
                    cursor: input.cursor,
                },
            ),
            _ => None,
        }
    } else if input.message == WM_MOUSEMOVE {
        match drag {
            Some(active) => if move_is_due(active, input.now) {
                Some(
                    MouseDragEvent {
                        kind: MouseDragEventKind::Moved,
                        window: active.window,
                        cursor: input.cursor,
                    },
                )
            } else {
                None
            },
            None => None,
        }
    } else if input.message == WM_LBUTTONUP {
        match drag {
            Some(active) => Some(
                MouseDragEvent {
                    kind: MouseDragEventKind::Ended,
                    window: active.window,
                    cursor: active.last_cursor,
                },
            ),
            None => None,
        }
    } else {
        None
    }
}

/// Whether a mouse message is kept from the application: one that starts, continues or ends a drag.
pub open spec fn drag_swallows(drag: Option<ActiveMouseDrag>, input: MouseInput) -> bool {
    &&& !input.paused
    &&& {
        ||| input.message == WM_LBUTTONDOWN && input.modifiers_held && input.target is Some
        ||| (input.message == WM_MOUSEMOVE || input.message == WM_LBUTTONUP) && drag is Some
    }
}

/// Handles a mouse message.
pub fn handle_mouse_message(drag: &mut Option<ActiveMouseDrag>, input: MouseInput) -> (r: MouseOutcome)
    ensures
        *final(drag) == drag_after(*old(drag), input),
        r.report == drag_report(*old(drag), input),
        r.swallow == drag_swallows(*old(drag), input),
{
    let passed: MouseOutcome = MouseOutcome { swallow: false, report: None };
    if input.paused {
        return passed;
    }
    if input.message == WM_LBUTTONDOWN {
        if !input.modifiers_held {
            return passed;
        }
        match input.target {
            None => passed,
            Some(window) => {
                *drag =
                Some(
                    ActiveMouseDrag {
                        window,
                        last_cursor: input.cursor,
                        last_sent_move_at: input.now,
                        sent_move: false,
                    },
                );
                MouseOutcome {
                    swallow: true,
                    report: Some(
                        MouseDragEvent {
                            kind: MouseDragEventKind::Started,
                            window,
                            cursor: input.cursor,
                        },
                    ),
                }
            },
        }
    } else if input.message == WM_MOUSEMOVE {
        match *drag {
            None => passed,
            Some(active) => {
                let due: bool = !active.sent_move || (input.now >= active.last_sent_move_at
                    && input.now - active.last_sent_move_at >= MODIFIER_DRAG_MOVE_INTERVAL_MICROS);
                *drag =
                Some(
                    ActiveMouseDrag {
                        window: active.window,
                        last_cursor: input.cursor,
                        last_sent_move_at: if due {
                            input.now
                        } else {
                            active.last_sent_move_at
                        },
                        sent_move: true,
                    },
                );
                MouseOutcome {
                    swallow: true,
                    report: if due {
                        Some(
                            MouseDragEvent {
                                kind: MouseDragEventKind::Moved,
                                window: active.window,
                                cursor: input.cursor,
                            },
                        )
                    } else {
                        None
                    },
                }
            },
        }
    } else if input.message == WM_LBUTTONUP {
        match *drag {
            None => passed,
            Some(active) => {
                *drag = None;
                MouseOutcome {
                    swallow: true,
                    report: Some(
                        MouseDragEvent {
                            kind: MouseDragEventKind::Ended,
                            window: active.window,
                            cursor: active.last_cursor,
                        },
                    ),
                }
            },
        }
    } else {
        passed
    }
}

/// A drag reports one window from its start to its end, and ends where the cursor was last.
pub proof fn drag_keeps_its_window(drag: ActiveMouseDrag, input: MouseInput)
    requires
        !input.paused,
        input.message == WM_MOUSEMOVE || input.message == WM_LBUTTONUP,
    ensures
        drag_report(Some(drag), input) matches Some(event) ==> event.window == drag.window,
        input.message == WM_MOUSEMOVE ==> {
            &&& drag_after(Some(drag), input) is Some
            &&& drag_after(Some(drag), input).unwrap().window == drag.window
            &&& drag_after(Some(drag), input).unwrap().last_cursor == input.cursor
        },
        input.message == WM_LBUTTONUP ==> drag_after(Some(drag), input) is None && drag_report(
            Some(drag),
            input,
        ) == Some(
            MouseDragEvent {
                kind: MouseDragEventKind::Ended,
                window: drag.window,
                cursor: drag.last_cursor,
            },
        ),
{
}

/// Whether windows of the class are part of the desktop itself.
pub open spec fn desktop_class(class_name: Seq<char>) -> bool {
    class_name == "Progman"@ || class_name == "WorkerW"@ || class_name == "Shell_TrayWnd"@
        || class_name == "NotifyIconOverflowWindow"@
}

/// Whether a window may be dragged with the modifiers: it is visible and not cloaked, its rectangle,
/// where known, is not empty, and its class, where known, is not one of the desktop's own.
pub fn is_modifier_drag_candidate(
    visible: bool,
    cloaked: bool,
    rect: Option<Rect>,
    class_name: Option<&str>,
) -> (r: bool)
    ensures
        r == (visible && !cloaked && (rect matches Some(rect) ==> !rect.covers_nothing()) && (
        class_name matches Some(name) ==> !desktop_class(name@))),
{
    if !visible {
        return false;
    }
    if cloaked {
        return false;
    }
    if let Some(rect) = rect {
        if rect.is_empty() {
            return false;
        }
    }
    match class_name {
        Some(name) => !(same_text(name, "Progman") || same_text(name, "WorkerW") || same_text(
            name,
            "Shell_TrayWnd",
        ) || same_text(name, "NotifyIconOverflowWindow")),
        None => true,
    }
}

} // verus!
