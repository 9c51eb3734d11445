//! Placing native windows so that what is seen of them takes a given rectangle.

use vstd::prelude::*;

use crate::geometry::{MonitorInfo, Rect};
use crate::monitors::{fills_some_monitor, rect_fills_some_monitor};
use crate::num::{clamp_i32, sat_add, sat_sub};

verus! {

/// How often a placement is corrected.
pub const GEOMETRY_CORRECTION_PASSES: usize = 3;

/// How far a window may stay behind the edges of a monitor and still fill it, in pixels.
pub const FULLSCREEN_TOLERANCE_PX: i32 = 4;

/// Style bits of a window with a caption.
pub const WS_CAPTION: u32 = 0x00C0_0000;

/// Extended style bit of a tool window.
pub const WS_EX_TOOLWINDOW: u32 = 0x80;

/// Style bit of a window with a sizing border.
pub const WS_THICKFRAME: u32 = 0x0004_0000;

/// The outer rectangle that shows the desired rectangle, for a window whose invisible margins are as
/// they are now.
pub open spec fn outer_for(outer: Rect, visible: Rect, desired: Rect) -> Rect {
    Rect {
        left: clamp_i32(desired.left - clamp_i32(visible.left - outer.left)) as i32,
        top: clamp_i32(desired.top - clamp_i32(visible.top - outer.top)) as i32,
        right: clamp_i32(desired.right + clamp_i32(outer.right - visible.right)) as i32,
        bottom: clamp_i32(desired.bottom + clamp_i32(outer.bottom - visible.bottom)) as i32,
    }
}

/// The outer rectangle that shows the desired rectangle.
pub fn outer_rect_for_desired_visible_rect(outer: Rect, visible: Rect, desired: Rect) -> (r: Rect)
    ensures
        r == outer_for(outer, visible, desired),
{
    let left_margin: i32 = sat_sub(visible.left, outer.left);
    let top_margin: i32 = sat_sub(visible.top, outer.top);
    let right_margin: i32 = sat_sub(outer.right, visible.right);
    let bottom_margin: i32 = sat_sub(outer.bottom, visible.bottom);
    Rect {
        left: sat_sub(desired.left, left_margin),
        top: sat_sub(desired.top, top_margin),
        right: sat_add(desired.right, right_margin),
        bottom: sat_add(desired.bottom, bottom_margin),
    }
}

/// The target moved at each edge by as much as that edge missed what was desired.
pub open spec fn corrected(target: Rect, desired: Rect, actual: Rect) -> Rect {
    Rect {
        left: clamp_i32(target.left + clamp_i32(desired.left - actual.left)) as i32,
        top: clamp_i32(target.top + clamp_i32(desired.top - actual.top)) as i32,
        right: clamp_i32(target.right + clamp_i32(desired.right - actual.right)) as i32,
        bottom: clamp_i32(target.bottom + clamp_i32(desired.bottom - actual.bottom)) as i32,
    }
}

/// What to do after a placement was tried: nothing if it cannot be seen or is as desired, or if the
/// passes are used up; else the next target.
pub fn next_placement(pass: usize, target: Rect, desired: Rect, actual: Option<Rect>) -> (r: Option<
    Rect,
>)
    ensures
        r == match actual {
            Some(actual) => if actual == desired || pass + 1 >= GEOMETRY_CORRECTION_PASSES {
                None
            } else {
                Some(corrected(target, desired, actual))
            },
            None => None,
        },
{
    match actual {
        None => None,
        Some(actual) => {
            if actual == desired {
                return None;
            }
            if pass >= GEOMETRY_CORRECTION_PASSES - 1 {
                return None;
            }
            Some(
                Rect {
                    left: sat_add(target.left, sat_sub(desired.left, actual.left)),
                    top: sat_add(target.top, sat_sub(desired.top, actual.top)),
                    right: sat_add(target.right, sat_sub(desired.right, actual.right)),
                    bottom: sat_add(target.bottom, sat_sub(desired.bottom, actual.bottom)),
                },
            )
        },
    }
}

/// Whether a window placed at `outer` shows `visible` when its margins are those of another placement.
pub open spec fn same_margins(outer: Rect, visible: Rect, other_outer: Rect, other_visible: Rect) -> bool {
    &&& visible.left - outer.left == other_visible.left - other_outer.left
    &&& visible.top - outer.top == other_visible.top - other_outer.top
    &&& outer.right - visible.right == other_outer.right - other_visible.right
    &&& outer.bottom - visible.bottom == other_outer.bottom - other_visible.bottom
}

/// Whether no edge comes near the end of the coordinates.
pub open spec fn far_from_the_ends(rect: Rect) -> bool {
    &&& -0x1000_0000 <= rect.left <= 0x1000_0000
    &&& -0x1000_0000 <= rect.top <= 0x1000_0000
    &&& -0x1000_0000 <= rect.right <= 0x1000_0000
    &&& -0x1000_0000 <= rect.bottom <= 0x1000_0000
}

/// A window that keeps its margins shows the desired rectangle once it is placed at the outer one,
/// and if its margins turn out otherwise, once the placement is corrected.
pub proof fn placement_shows_the_desired_rect(
    outer: Rect,
    visible: Rect,
    desired: Rect,
    target: Rect,
    actual: Rect,
    shown: Rect,
)
    requires
        far_from_the_ends(outer),
        far_from_the_ends(visible),
        far_from_the_ends(desired),
        far_from_the_ends(target),
        far_from_the_ends(actual),
    ensures
        same_margins(outer_for(outer, visible, desired), shown, outer, visible) ==> shown == desired,
        same_margins(corrected(target, desired, actual), shown, target, actual) ==> shown == desired,
{
}

/// Whether a window has neither a caption nor a sizing border.
pub open spec fn borderless(style: u32) -> bool {
    style & 0x00C4_0000u32 == 0
}

/// Whether a window has neither a caption nor a sizing border.
pub fn window_style_is_borderless(style: u32) -> (r: bool)
    ensures
        r == borderless(style),
{
    proof {
        assert(0x00C0_0000u32 | 0x0004_0000u32 == 0x00C4_0000u32) by (bit_vector);
    }
    style & (WS_CAPTION | WS_THICKFRAME) == 0
}

/// Whether a rectangle fills a monitor or its work area.
pub fn rect_covers_any_monitor(rect: Rect, monitors: &[MonitorInfo]) -> (r: bool)
    ensures
        r == fills_some_monitor(rect, monitors@, FULLSCREEN_TOLERANCE_PX as int),
{
    rect_fills_some_monitor(rect, monitors, FULLSCREEN_TOLERANCE_PX)
}

/// Whether a window counts as fullscreen where keys are intercepted: it fills a monitor or its work area,
/// as far as it could be read where it is, and has neither a caption nor a sizing border.
pub fn fills_monitor_without_frame(rect: Option<Rect>, monitors: &[MonitorInfo], style: u32) -> (r: bool)
    ensures
        r == (borderless(style) && (rect matches Some(rect) && fills_some_monitor(
            rect,
            monitors@,
            FULLSCREEN_TOLERANCE_PX as int,
        ))),
{
    match rect {
        Some(rect) => rect_covers_any_monitor(rect, monitors) && window_style_is_borderless(style),
        None => false,
    }
}

/// Whether an extended style is that of a tool window.
pub fn extended_style_is_tool_window(extended_style: u32) -> (r: bool)
    ensures
        r == (extended_style & 0x80u32 != 0),
{
    extended_style & WS_EX_TOOLWINDOW != 0
}

} // verus!
