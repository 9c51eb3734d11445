//! What holds of the focus, whatever the windows.

use vstd::prelude::*;

use crate::commands::{CycleDirection, FocusDirection, MonitorSelector};
use crate::daemon_focus::{
    beside_workspace, focus_key, id_position, is_next_workspace, is_previous_workspace,
    lemma_filter_members, shorter,
};
use crate::daemon_state::DaemonView;
use crate::geometry::{MonitorId, MonitorInfo, WindowHandle};
use crate::handles::lemma_position;
use crate::monitors::{arranged, arranged_monitors_are_in_order, known_monitor, monitor_ids};
use crate::workspace::WorkspaceId;

verus! {

impl DaemonView {
    /// How far a window lies from another one in a direction.
    pub open spec fn lies_at(
        self,
        window: WindowHandle,
        current: WindowHandle,
        direction: FocusDirection,
    ) -> Option<(int, int)> {
        focus_key(
            direction,
            self.windows[current.0].rect.middle(),
            self.windows[window.0].rect.middle(),
        )
    }
}

/// The window that the focus goes to in a direction lies there and is another one, and none of the
/// others is nearer; if no window is found, none of the others lies there.
pub proof fn focus_goes_to_the_nearest_window(
    state: DaemonView,
    windows: Seq<WindowHandle>,
    current: WindowHandle,
    direction: FocusDirection,
)
    ensures
        match state.nearest_in_direction(windows, current, direction) {
            Some(found) => {
                &&& windows.contains(found)
                &&& found != current
                &&& state.lies_at(found, current, direction) is Some
                &&& forall|i: int|
                    0 <= i < windows.len() && #[trigger] windows[i] != current && state.lies_at(
                        windows[i],
                        current,
                        direction,
                    ) is Some ==> !shorter(
                        state.lies_at(windows[i], current, direction).unwrap(),
                        state.lies_at(found, current, direction).unwrap(),
                    )
            },
            None => forall|i: int|
                0 <= i < windows.len() && #[trigger] windows[i] != current ==> state.lies_at(
                    windows[i],
                    current,
                    direction,
                ) is None,
        },
    decreases windows.len(),
{
    if windows.len() > 0 {
        let rest = windows.drop_last();
        focus_goes_to_the_nearest_window(state, rest, current, direction);
        assert(windows[windows.len() - 1] == windows.last());
        assert forall|i: int| 0 <= i < rest.len() implies #[trigger] windows[i] == rest[i] by {}
        if let Some(found) = state.nearest_in_direction(rest, current, direction) {
            let at = rest.index_of(found);
            assert(windows[at] == found);
        }
    }
}

/// The focus goes to a window that may be managed and is in the order of the tiles, and to some window
/// as soon as there is one.
pub proof fn focus_stays_on_managed_windows(
    state: DaemonView,
    direction: FocusDirection,
    monitors: Seq<MonitorInfo>,
)
    ensures
        state.focus_goes_to(direction, monitors) matches Some(window) ==> state.manageable(
            window,
            monitors,
        ) && state.tile_order.contains(window),
        state.focusable(monitors).len() > 0 ==> state.focus_goes_to(direction, monitors) is Some,
{
    let windows = state.focusable(monitors);
    lemma_filter_members(state.tile_order, state.is_manageable(monitors));
    if let Some(current) = state.focus_origin(monitors) {
        focus_goes_to_the_nearest_window(state, windows, current, direction);
        if let Some(found) = state.nearest_in_direction(windows, current, direction) {
            let at = windows.index_of(found);
            assert(windows[at] == found);
        }
        lemma_position(windows, current, 0);
    }
}

proof fn lemma_id_position(ids: Seq<MonitorId>, id: MonitorId)
    ensures
        id_position(ids, id) matches Some(at) ==> 0 <= at < ids.len(),
    decreases ids.len(),
{
    if ids.len() > 0 {
        lemma_id_position(ids.drop_last(), id);
    }
}

/// A monitor that a selector means is one of the monitors.
pub proof fn selected_monitor_is_known(
    state: DaemonView,
    selector: MonitorSelector,
    monitors: Seq<MonitorInfo>,
)
    ensures
        state.selected(selector, monitors) matches Some(monitor) ==> known_monitor(monitors, monitor),
{
    let standing = arranged(monitors);
    let ids = monitor_ids(standing);
    arranged_monitors_are_in_order(monitors);
    if let Some(monitor) = state.command_monitor(monitors) {
        lemma_id_position(ids, monitor);
    }
    if let Some(monitor) = state.selected(selector, monitors) {
        assert(ids.contains(monitor));
        let at = ids.index_of(monitor);
        standing.to_multiset_ensures();
        monitors.to_multiset_ensures();
        assert(standing.contains(standing[at]));
        assert(standing.to_multiset().contains(standing[at]));
        assert(monitors.to_multiset().contains(standing[at]));
        assert(monitors.contains(standing[at]));
        let place = monitors.index_of(standing[at]);
        assert(monitors[place].id == monitor);
    }
}

proof fn lemma_least_from(numbers: Set<u16>, low: int)
    requires
        0 <= low,
        exists|n: u16| #[trigger] numbers.contains(n) && n >= low,
    ensures
        exists|least: u16|
            numbers.contains(least) && least >= low && forall|n: u16| #[trigger]
                numbers.contains(n) && n >= low ==> least <= n,
    decreases 0x1_0000 - low,
{
    let witness = choose|n: u16| #[trigger] numbers.contains(n) && n >= low;
    if numbers.contains(low as u16) && low <= u16::MAX {
        let least = low as u16;
        assert(numbers.contains(least) && least >= low && forall|n: u16| #[trigger]
            numbers.contains(n) && n >= low ==> least <= n);
    } else {
        assert(witness > low);
        lemma_least_from(numbers, low + 1);
        let least = choose|least: u16|
            numbers.contains(least) && least >= low + 1 && forall|n: u16| #[trigger]
                numbers.contains(n) && n >= low + 1 ==> least <= n;
        assert forall|n: u16| #[trigger] numbers.contains(n) && n >= low implies least <= n by {
            if n == low {
                assert(n == low as u16);
            }
        }
    }
}

proof fn lemma_greatest_to(numbers: Set<u16>, high: int)
    requires
        high <= u16::MAX,
        exists|n: u16| #[trigger] numbers.contains(n) && n <= high,
    ensures
        exists|greatest: u16|
            numbers.contains(greatest) && greatest <= high && forall|n: u16| #[trigger]
                numbers.contains(n) && n <= high ==> greatest >= n,
    decreases high,
{
    let witness = choose|n: u16| #[trigger] numbers.contains(n) && n <= high;
    if numbers.contains(high as u16) && high >= 0 {
        let greatest = high as u16;
        assert(numbers.contains(greatest) && greatest <= high && forall|n: u16| #[trigger]
            numbers.contains(n) && n <= high ==> greatest >= n);
    } else {
        assert(witness < high);
        lemma_greatest_to(numbers, high - 1);
        let greatest = choose|greatest: u16|
            numbers.contains(greatest) && greatest <= high - 1 && forall|n: u16| #[trigger]
                numbers.contains(n) && n <= high - 1 ==> greatest >= n;
        assert forall|n: u16| #[trigger] numbers.contains(n) && n <= high implies greatest >= n by {
            if n == high {
                assert(n == high as u16);
            }
        }
    }
}

pub proof fn lemma_next(numbers: Set<u16>, active: u16) -> (next: u16)
    requires
        numbers.contains(active),
    ensures
        is_next_workspace(numbers, active, next),
        beside_workspace(numbers, WorkspaceId(active), CycleDirection::Next) == WorkspaceId(next),
{
    if exists|n: u16| #[trigger] numbers.contains(n) && n > active {
        let above = choose|n: u16| #[trigger] numbers.contains(n) && n > active;
        assert(numbers.contains(above) && above >= active + 1);
        lemma_least_from(numbers, active + 1);
        let next = choose|least: u16|
            numbers.contains(least) && least >= active + 1 && forall|n: u16| #[trigger]
                numbers.contains(n) && n >= active + 1 ==> least <= n;
        assert(is_next_workspace(numbers, active, next));
        let chosen = choose|next: u16| #[trigger] is_next_workspace(numbers, active, next);
        assert(chosen == next);
        next
    } else {
        assert(numbers.contains(active) && active >= 0);
        lemma_least_from(numbers, 0);
        let next = choose|least: u16|
            numbers.contains(least) && least >= 0 && forall|n: u16| #[trigger]
                numbers.contains(n) && n >= 0 ==> least <= n;
        assert(is_next_workspace(numbers, active, next));
        let chosen = choose|next: u16| #[trigger] is_next_workspace(numbers, active, next);
        assert(chosen == next);
        next
    }
}

pub proof fn lemma_previous(numbers: Set<u16>, active: u16) -> (previous: u16)
    requires
        numbers.contains(active),
    ensures
        is_previous_workspace(numbers, active, previous),
        beside_workspace(numbers, WorkspaceId(active), CycleDirection::Prev) == WorkspaceId(previous),
{
    if exists|n: u16| #[trigger] numbers.contains(n) && n < active {
        let below = choose|n: u16| #[trigger] numbers.contains(n) && n < active;
        assert(numbers.contains(below) && below <= active - 1);
        lemma_greatest_to(numbers, active - 1);
        let previous = choose|greatest: u16|
            numbers.contains(greatest) && greatest <= active - 1 && forall|n: u16| #[trigger]
                numbers.contains(n) && n <= active - 1 ==> greatest >= n;
        assert(is_previous_workspace(numbers, active, previous));
        let chosen = choose|previous: u16| #[trigger]
            is_previous_workspace(numbers, active, previous);
        assert(chosen == previous);
        previous
    } else {
        assert(numbers.contains(active) && active <= u16::MAX);
        lemma_greatest_to(numbers, u16::MAX as int);
        let previous = choose|greatest: u16|
            numbers.contains(greatest) && greatest <= u16::MAX && forall|n: u16| #[trigger]
                numbers.contains(n) && n <= u16::MAX ==> greatest >= n;
        assert(is_previous_workspace(numbers, active, previous));
        let chosen = choose|previous: u16| #[trigger]
            is_previous_workspace(numbers, active, previous);
        assert(chosen == previous);
        previous
    }
}

/// The workspace before or after one is a workspace, and going on and back, or back and on, ends where
/// it began.
pub proof fn workspaces_stand_in_a_circle(numbers: Set<u16>, active: WorkspaceId)
    requires
        numbers.contains(active.0),
    ensures
        ({
            let next = beside_workspace(numbers, active, CycleDirection::Next);
            let previous = beside_workspace(numbers, active, CycleDirection::Prev);
            &&& numbers.contains(next.0)
            &&& numbers.contains(previous.0)
            &&& beside_workspace(numbers, next, CycleDirection::Prev) == active
            &&& beside_workspace(numbers, previous, CycleDirection::Next) == active
        }),
{
    let next = lemma_next(numbers, active.0);
    let back = lemma_previous(numbers, next);
    assert(is_previous_workspace(numbers, next, active.0));
    assert(back == active.0);
    let previous = lemma_previous(numbers, active.0);
    let on = lemma_next(numbers, previous);
    assert(is_next_workspace(numbers, previous, active.0));
    assert(on == active.0);
}

} // verus!
