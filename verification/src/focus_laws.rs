//! Where the focus goes on the screen, and what is exchanged with what.

use vstd::prelude::*;

use crate::commands::{DaemonCommand, FocusDirection};
use crate::daemon_focus::{focus_key, lemma_filter_members, shorter};
use crate::daemon_focus_laws::focus_goes_to_the_nearest_window;
use crate::daemon_state::DaemonView;
use crate::daemon_workspace::PlanView;
use crate::geometry::{MonitorInfo, Point, Rect, WindowHandle};
use crate::handles::lemma_position_is;
use crate::layout::WindowParticipation;

verus! {

/// The middle of a rectangle that has an extent lies inside it, as far from its near edge as from its far
/// edge, or one pixel nearer to the near one.
pub proof fn middle_is_halfway(rect: Rect)
    requires
        0 <= rect.right - rect.left <= i32::MAX,
        0 <= rect.bottom - rect.top <= i32::MAX,
    ensures
        0 <= (rect.right - rect.middle().x) - (rect.middle().x - rect.left) <= 1,
        0 <= (rect.bottom - rect.middle().y) - (rect.middle().y - rect.top) <= 1,
{
}

/// The first of the nearest windows in a direction.
proof fn lemma_first_of_the_nearest(
    state: DaemonView,
    windows: Seq<WindowHandle>,
    current: WindowHandle,
    direction: FocusDirection,
) -> (at: int)
    ensures
        state.nearest_in_direction(windows, current, direction) matches Some(found) ==> {
            &&& 0 <= at < windows.len()
            &&& windows[at] == found
            &&& forall|i: int|
                0 <= i < at && #[trigger] windows[i] != current && state.lies_at(
                    windows[i],
                    current,
                    direction,
                ) is Some ==> shorter(
                    state.lies_at(found, current, direction).unwrap(),
                    state.lies_at(windows[i], current, direction).unwrap(),
                )
        },
    decreases windows.len(),
{
    if windows.len() > 0 {
        let rest = windows.drop_last();
        let before = lemma_first_of_the_nearest(state, rest, current, direction);
        focus_goes_to_the_nearest_window(state, rest, current, direction);
        assert forall|i: int| 0 <= i < rest.len() implies #[trigger] windows[i] == rest[i] by {}
        if state.nearest_in_direction(rest, current, direction) is Some
            && state.nearest_in_direction(rest, current, direction)
            == state.nearest_in_direction(windows, current, direction) {
            before
        } else {
            windows.len() - 1
        }
    } else {
        0
    }
}

/// How far the middle of a rectangle lies from that of another one in a direction.
pub open spec fn ahead(here: Rect, there: Rect, direction: FocusDirection) -> int {
    match direction {
        FocusDirection::Left => (here.left + here.right) / 2 - (there.left + there.right) / 2,
        FocusDirection::Right => (there.left + there.right) / 2 - (here.left + here.right) / 2,
        FocusDirection::Up => (here.top + here.bottom) / 2 - (there.top + there.bottom) / 2,
        FocusDirection::Down => (there.top + there.bottom) / 2 - (here.top + here.bottom) / 2,
    }
}

/// How far the middle of a rectangle lies to either side of that of another one, seen in a direction.
pub open spec fn aside(here: Rect, there: Rect, direction: FocusDirection) -> int {
    let offset = match direction {
        FocusDirection::Left | FocusDirection::Right => (here.top + here.bottom) / 2 - (there.top
            + there.bottom) / 2,
        FocusDirection::Up | FocusDirection::Down => (here.left + here.right) / 2 - (there.left
            + there.right) / 2,
    };
    if offset >= 0 {
        offset
    } else {
        -offset
    }
}

proof fn lemma_lies_at(here: Rect, there: Rect, direction: FocusDirection)
    requires
        0 <= here.right - here.left <= i32::MAX,
        0 <= here.bottom - here.top <= i32::MAX,
        0 <= there.right - there.left <= i32::MAX,
        0 <= there.bottom - there.top <= i32::MAX,
    ensures
        focus_key(direction, here.middle(), there.middle()) == (if ahead(here, there, direction) > 0 {
            Some((ahead(here, there, direction), aside(here, there, direction)))
        } else {
            None
        }),
{
    middle_is_halfway(here);
    middle_is_halfway(there);
}

/// Where some other window that can have the focus has its middle to the left of that of the current one,
/// the command to focus left goes to a window whose middle is to the left too; likewise to the right,
/// above and below. No other such window is nearer in that direction, none that is as near is less far
/// to the side, and none that is as near in both comes earlier in the order of the tiles. The command
/// does nothing else but to note where the focus is.
///
/// The current window is the foreground window, or the first that can have the focus where that one
/// cannot.
#[verifier::rlimit(50)]
pub proof fn focus_goes_where_it_is_sent(
    state: DaemonView,
    direction: FocusDirection,
    monitors: Seq<MonitorInfo>,
    cursor: Option<Point>,
    current: WindowHandle,
    other: int,
)
    requires
        state.foreground == Some(current) && state.manageable(current, monitors) || (
        state.foreground is None || !state.manageable(state.foreground.unwrap(), monitors))
            && state.focusable(monitors).len() > 0 && current == state.focusable(monitors)[0],
        forall|key: u64| #[trigger]
            state.windows.contains_key(key) ==> state.windows[key].rect.right
                - state.windows[key].rect.left <= i32::MAX && state.windows[key].rect.bottom
                - state.windows[key].rect.top <= i32::MAX,
        0 <= other < state.focusable(monitors).len(),
        state.focusable(monitors)[other] != current,
        ahead(
            state.windows[current.0].rect,
            state.windows[state.focusable(monitors)[other].0].rect,
            direction,
        ) > 0,
    ensures
        ({
            let (after, plan) = state.commanded(DaemonCommand::Focus(direction), monitors, cursor);
            let windows = state.focusable(monitors);
            let here = state.windows[current.0].rect;
            &&& exists|at: int|
                0 <= at < windows.len() && plan.focus == Some(#[trigger] windows[at]) && windows[at]
                    != current && ahead(here, state.windows[windows[at].0].rect, direction) > 0 && (
                forall|i: int|
                    0 <= i < windows.len() && #[trigger] windows[i] != current && ahead(
                        here,
                        state.windows[windows[i].0].rect,
                        direction,
                    ) > 0 ==> {
                        let best = state.windows[windows[at].0].rect;
                        let rect = state.windows[windows[i].0].rect;
                        ||| ahead(here, best, direction) < ahead(here, rect, direction)
                        ||| ahead(here, best, direction) == ahead(here, rect, direction) && aside(
                            here,
                            best,
                            direction,
                        ) < aside(here, rect, direction)
                        ||| ahead(here, best, direction) == ahead(here, rect, direction) && aside(
                            here,
                            best,
                            direction,
                        ) == aside(here, rect, direction) && i >= at
                    })
            &&& after.foreground == plan.focus
            &&& after.windows == state.windows && after.tile_order == state.tile_order
            &&& plan == (PlanView { focus: plan.focus, ..PlanView::nothing() })
        }),
{
    let windows = state.focusable(monitors);
    let here = state.windows[current.0].rect;
    lemma_filter_members(state.tile_order, state.is_manageable(monitors));
    assert(state.focus_origin(monitors) == Some(current));
    assert(state.manageable(current, monitors));
    focus_goes_to_the_nearest_window(state, windows, current, direction);
    let at = lemma_first_of_the_nearest(state, windows, current, direction);
    assert forall|i: int| 0 <= i < windows.len() implies {
        let there = state.windows[(#[trigger] windows[i]).0].rect;
        state.lies_at(windows[i], current, direction) == (if ahead(here, there, direction) > 0 {
            Some((ahead(here, there, direction), aside(here, there, direction)))
        } else {
            None
        })
    } by {
        assert(state.manageable(windows[i], monitors));
        lemma_lies_at(here, state.windows[windows[i].0].rect, direction);
    }
    assert(state.lies_at(windows[other], current, direction) is Some);
    assert(state.nearest_in_direction(windows, current, direction) == Some(windows[at]));
}

/// Where no other window lies in the direction, the focus goes on in the order of the tiles, to the right
/// and down to the next window and to the left and up to the one before, and from one end to the other.
#[verifier::rlimit(50)]
pub proof fn focus_goes_round_where_nothing_lies_ahead(
    state: DaemonView,
    direction: FocusDirection,
    monitors: Seq<MonitorInfo>,
    cursor: Option<Point>,
    current: WindowHandle,
    at: int,
)
    requires
        state.foreground == Some(current),
        state.manageable(current, monitors),
        0 <= at < state.focusable(monitors).len(),
        state.focusable(monitors)[at] == current,
        forall|i: int| 0 <= i < at ==> #[trigger] state.focusable(monitors)[i] != current,
        forall|i: int|
            0 <= i < state.focusable(monitors).len() && #[trigger] state.focusable(monitors)[i]
                != current ==> {
                let here = state.windows[current.0].rect.middle();
                let there = state.windows[state.focusable(monitors)[i].0].rect.middle();
                match direction {
                    FocusDirection::Left => there.x >= here.x,
                    FocusDirection::Right => there.x <= here.x,
                    FocusDirection::Up => there.y >= here.y,
                    FocusDirection::Down => there.y <= here.y,
                }
            },
    ensures
        ({
            let windows = state.focusable(monitors);
            let focus = state.commanded(DaemonCommand::Focus(direction), monitors, cursor).1.focus;
            match direction {
                FocusDirection::Right | FocusDirection::Down => focus == Some(
                    windows[if at + 1 < windows.len() {
                        at + 1
                    } else {
                        0
                    }],
                ),
                FocusDirection::Left | FocusDirection::Up => focus == Some(
                    windows[if at > 0 {
                        at - 1
                    } else {
                        windows.len() - 1
                    }],
                ),
            }
        }),
{
    let windows = state.focusable(monitors);
    focus_goes_to_the_nearest_window(state, windows, current, direction);
    lemma_position_is(windows, current, at);
    if let Some(found) = state.nearest_in_direction(windows, current, direction) {
        let place = windows.index_of(found);
        assert(windows[place] == found);
    }
}

/// A command to swap the foreground window does what a command to place the windows anew would do if the
/// window and the one that the focus would go to had changed places in the order of the tiles.
pub proof fn swapping_exchanges_two_windows(
    state: DaemonView,
    direction: FocusDirection,
    monitors: Seq<MonitorInfo>,
    cursor: Option<Point>,
    current: int,
    target: int,
)
    requires
        state.foreground is Some,
        state.manageable(state.foreground.unwrap(), monitors),
        state.tile_order.no_duplicates(),
        0 <= current < state.tile_order.len(),
        0 <= target < state.tile_order.len(),
        Some(state.tile_order[current]) == state.foreground,
        Some(state.tile_order[target]) == state.commanded(
            DaemonCommand::Focus(direction),
            monitors,
            cursor,
        ).1.focus,
    ensures
        ({
            let exchanged = Seq::new(
                state.tile_order.len(),
                |i: int|
                    state.tile_order[if i == current {
                        target
                    } else if i == target {
                        current
                    } else {
                        i
                    }],
            );
            state.commanded(DaemonCommand::Swap(direction), monitors, cursor) == (DaemonView {
                tile_order: exchanged,
                ..state
            }).commanded(DaemonCommand::Retile, monitors, cursor)
        }),
{
    let exchanged = Seq::new(
        state.tile_order.len(),
        |i: int|
            state.tile_order[if i == current {
                target
            } else if i == target {
                current
            } else {
                i
            }],
    );
    lemma_position_is(state.tile_order, state.tile_order[current], current);
    lemma_position_is(state.tile_order, state.tile_order[target], target);
    assert(state.swapped(direction, monitors).tile_order =~= exchanged);
}

/// Where the foreground window cannot be managed, a command to swap it or to float it does what a command
/// to place the windows anew does.
pub proof fn nothing_else_is_swapped_or_floated(
    state: DaemonView,
    direction: FocusDirection,
    monitors: Seq<MonitorInfo>,
    cursor: Option<Point>,
)
    requires
        state.foreground is None || !state.manageable(state.foreground.unwrap(), monitors),
    ensures
        state.commanded(DaemonCommand::Swap(direction), monitors, cursor) == state.commanded(
            DaemonCommand::Retile,
            monitors,
            cursor,
        ),
        state.commanded(DaemonCommand::ToggleFloat, monitors, cursor) == state.commanded(
            DaemonCommand::Retile,
            monitors,
            cursor,
        ),
{
}

/// A command to float the foreground window floats it if it is tiled, and tiles it if it floats, for good
/// or for a while; where it was is remembered, that it was floated for want of room is forgotten, and
/// the windows are placed anew.
pub proof fn floating_is_switched(
    state: DaemonView,
    monitors: Seq<MonitorInfo>,
    cursor: Option<Point>,
    current: WindowHandle,
)
    requires
        state.foreground == Some(current),
        state.manageable(current, monitors),
    ensures
        ({
            let tiled = !state.participation.contains_key(current.0)
                || state.participation[current.0] == WindowParticipation::Tiled;
            state.commanded(DaemonCommand::ToggleFloat, monitors, cursor) == (DaemonView {
                participation: if tiled {
                    state.participation.insert(current.0, WindowParticipation::Floating)
                } else {
                    state.participation.remove(current.0)
                },
                previous_rects: state.previous_rects.insert(
                    current.0,
                    state.windows[current.0].rect,
                ),
                promoted: state.promoted.remove(current.0),
                ..state
            }).commanded(DaemonCommand::Retile, monitors, cursor)
        }),
{
}

} // verus!
