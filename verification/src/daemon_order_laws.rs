//! What holds of the order of the tiles while windows come, are picked up and are let go.

use vstd::prelude::*;

use crate::daemon_drag::{lemma_ended_order, DragReading};
use crate::daemon_state::{DaemonState, DaemonView};
use crate::daemon_sync::{lemma_sync_keeps_windows, lemma_synced_keeps, lemma_windows_synced_keeps};
use crate::events::{WindowEvent, WindowEventKind};
use crate::geometry::{MonitorInfo, Point, WindowHandle};
use crate::handles::{
    lemma_filter_holds, lemma_ordered_handles, lemma_without, ordered_handles,
    realigned_list_holds_all,
};

verus! {

impl DaemonView {
    /// Whether every window that is arranged is in the order of the tiles: those on a workspace, those
    /// that float, and those that gave way to others.
    pub open spec fn orders_what_it_arranges(self) -> bool {
        &&& forall|key: u64| #[trigger]
            self.placed().contains(key) ==> self.tile_order.contains(WindowHandle(key))
        &&& forall|key: u64| #[trigger]
            self.participation.contains_key(key) ==> self.tile_order.contains(WindowHandle(key))
        &&& forall|key: u64| #[trigger]
            self.promoted.contains_key(key) ==> self.tile_order.contains(WindowHandle(key))
    }

    /// Whether every window that may be arranged is on a workspace.
    pub open spec fn has_arranged_all(self, monitors: Seq<MonitorInfo>) -> bool {
        forall|key: u64| #[trigger]
            self.windows.contains_key(key) && self.managed(self.windows[key]) && !self.fullscreen(
                self.windows[key],
                monitors,
            ) ==> self.workspaces.windows.contains_key(key)
    }
}

proof fn lemma_one_synced(state: DaemonView, window: WindowHandle, monitors: Seq<MonitorInfo>)
    requires
        state.windows.contains_key(window.0),
    ensures
        ({
            let after = state.with_window_synced(window, monitors);
            let info = state.windows[window.0];
            let may = state.managed(info) && !state.fullscreen(info, monitors);
            &&& forall|key: u64| #[trigger]
                after.workspaces.windows.contains_key(key) <==> state.workspaces.windows.contains_key(key)
                    || (key == window.0 && may)
            &&& !may || state.workspaces.windows.contains_key(window.0) ==> after.participation
                == state.participation && after.promoted == state.promoted
        }),
{
}

/// Bringing windows in line puts those that may be arranged on workspaces, and takes none off; where
/// they are there already, nothing else begins to float.
proof fn lemma_all_synced(state: DaemonView, windows: Seq<WindowHandle>, monitors: Seq<MonitorInfo>)
    requires
        forall|i: int| 0 <= i < windows.len() ==> state.windows.contains_key((#[trigger] windows[i]).0),
    ensures
        ({
            let after = state.with_windows_synced(windows, monitors);
            &&& forall|key: u64| #[trigger]
                after.workspaces.windows.contains_key(key) <==> state.workspaces.windows.contains_key(key)
                    || (windows.contains(WindowHandle(key)) && state.managed(state.windows[key])
                    && !state.fullscreen(state.windows[key], monitors))
            &&& state.has_arranged_all(monitors) ==> after.participation == state.participation
                && after.promoted == state.promoted
        }),
    decreases windows.len(),
{
    if windows.len() > 0 {
        let rest = windows.drop_last();
        let last = windows.last();
        let before = state.with_windows_synced(rest, monitors);
        assert forall|i: int| 0 <= i < rest.len() implies state.windows.contains_key(
            (#[trigger] rest[i]).0,
        ) by {
            assert(rest[i] == windows[i]);
        }
        lemma_all_synced(state, rest, monitors);
        lemma_windows_synced_keeps(state, rest, monitors);
        assert(state.windows.contains_key(windows[windows.len() - 1].0));
        lemma_one_synced(before, last, monitors);
        lemma_sync_keeps_windows(before, last, monitors);
        let after = state.with_windows_synced(windows, monitors);
        assert forall|key: u64| #[trigger]
            after.workspaces.windows.contains_key(key) <==> state.workspaces.windows.contains_key(key)
                || (windows.contains(WindowHandle(key)) && state.managed(state.windows[key])
                && !state.fullscreen(state.windows[key], monitors)) by {
            assert(windows =~= rest.push(last));
            crate::handles::lemma_contains_push(rest, last);
            assert(before.workspaces.windows.contains_key(key)
                <==> state.workspaces.windows.contains_key(key) || (rest.contains(WindowHandle(key))
                && state.managed(state.windows[key]) && !state.fullscreen(
                state.windows[key],
                monitors,
            )));
            assert(last == WindowHandle(last.0));
        }
    }
}

/// Bringing the workspaces in line puts every window that may be arranged on a workspace; where they
/// are there already, no window is put on a workspace, and none begins to float.
proof fn lemma_synced_arranges_all(state: DaemonView, handles: Seq<WindowHandle>, monitors: Seq<MonitorInfo>)
    requires
        handles == ordered_handles(state.windows),
        forall|w: WindowHandle| #[trigger] handles.contains(w) <==> state.windows.contains_key(w.0),
    ensures
        ({
            let after = state.synced(monitors);
            &&& after.has_arranged_all(monitors)
            &&& state.has_arranged_all(monitors) ==> {
                &&& after.participation == state.participation
                &&& after.promoted == state.promoted
                &&& forall|key: u64| #[trigger]
                    after.workspaces.windows.contains_key(key)
                        ==> state.workspaces.windows.contains_key(key)
            }
        }),
{
    let first = state.with_monitors_synced(monitors);
    let after = state.synced(monitors);
    assert forall|i: int| 0 <= i < handles.len() implies first.windows.contains_key(
        (#[trigger] handles[i]).0,
    ) by {
        assert(handles.contains(handles[i]));
    }
    lemma_all_synced(first, handles, monitors);
    lemma_synced_keeps(state, monitors);
    assert forall|key: u64| #[trigger]
        after.windows.contains_key(key) && after.managed(after.windows[key]) && !after.fullscreen(
            after.windows[key],
            monitors,
        ) implies after.workspaces.windows.contains_key(key) by {
        assert(handles.contains(WindowHandle(key)) <==> state.windows.contains_key(key));
    }
    if state.has_arranged_all(monitors) {
        assert(first.has_arranged_all(monitors)) by {
            assert forall|key: u64| #[trigger]
                first.windows.contains_key(key) && first.managed(first.windows[key])
                    && !first.fullscreen(
                    first.windows[key],
                    monitors,
                ) implies first.workspaces.windows.contains_key(key) by {
                assert(state.windows.contains_key(key));
            }
        }
        assert forall|key: u64| #[trigger] after.workspaces.windows.contains_key(key) implies
            state.workspaces.windows.contains_key(key) by {
            if handles.contains(WindowHandle(key)) {
                assert(state.windows.contains_key(key));
            }
        }
    }
}

/// A fresh state that takes the place of another has every window that it arranges in the order of the
/// tiles, also after game mode was looked at and the dragged window followed the cursor.
pub proof fn refreshed_state_orders_what_it_arranges(
    before: DaemonView,
    refreshed: DaemonState,
    monitors: Seq<MonitorInfo>,
    cursor: Option<Point>,
)
    requires
        refreshed.wf(),
    ensures
        before.refreshed_for_events(refreshed@, monitors, cursor).orders_what_it_arranges(),
{
    let renewed = DaemonView {
        workspaces: before.workspaces.with_count(refreshed@.config.workspace_count),
        ..refreshed@
    };
    let moved = refreshed@.with_workspaces_of(before, monitors);
    let adopted = before.adopting(refreshed@, monitors);
    let handles = ordered_handles(refreshed@.windows);
    lemma_ordered_handles(&refreshed.windows);
    lemma_synced_arranges_all(renewed, handles, monitors);
    lemma_synced_keeps(renewed, monitors);
    assert forall|key: u64| #[trigger] moved.placed().contains(key) implies adopted.tile_order.contains(
        WindowHandle(key),
    ) by {
        let window = WindowHandle(key);
        assert(handles.contains(window));
        lemma_filter_holds(handles, moved.is_placed(), window);
        realigned_list_holds_all(before.tile_order, moved.placed_handles(), window);
    }
    assert(adopted.has_arranged_all(monitors)) by {
        assert forall|key: u64| #[trigger]
            adopted.windows.contains_key(key) && adopted.managed(adopted.windows[key])
                && !adopted.fullscreen(
                adopted.windows[key],
                monitors,
            ) implies adopted.workspaces.windows.contains_key(key) by {
            assert(moved.windows.contains_key(key));
        }
    }
    lemma_synced_arranges_all(adopted, handles, monitors);
    lemma_synced_keeps(adopted, monitors);
    let noted = adopted.with_game_mode(monitors);
    assert forall|key: u64| #[trigger] noted.placed().contains(key) implies noted.tile_order.contains(
        WindowHandle(key),
    ) by {
        assert(noted.workspaces.windows.contains_key(key));
        assert(moved.placed().contains(key));
    }
    assert forall|key: u64| #[trigger] noted.participation.contains_key(key) implies
        noted.tile_order.contains(WindowHandle(key)) by {
        assert(moved.placed().contains(key));
    }
    assert forall|key: u64| #[trigger] noted.promoted.contains_key(key) implies
        noted.tile_order.contains(WindowHandle(key)) by {
        assert(moved.placed().contains(key));
    }
    let followed = noted.with_drag_followed(cursor, monitors);
    assert forall|key: u64| #[trigger] followed.placed().contains(key) implies
        followed.tile_order.contains(WindowHandle(key)) by {
        assert(noted.placed().contains(key));
    }
}

/// Where every window that is arranged is in the order of the tiles, this stays so when a window is
/// picked up, and the order stays as it is.
pub proof fn picking_up_orders_what_is_arranged(
    state: DaemonView,
    window: WindowHandle,
    reading: DragReading,
    monitors: Seq<MonitorInfo>,
)
    requires
        state.orders_what_it_arranges(),
    ensures
        state.movesize_started(window, reading, monitors).0.orders_what_it_arranges(),
        state.movesize_started(window, reading, monitors).0.tile_order == state.tile_order,
{
    let picked = state.picked_up(window, reading, monitors);
    let after = state.movesize_started(window, reading, monitors).0;
    assert forall|key: u64| #[trigger] picked.placed().contains(key) implies state.placed().contains(
        key,
    ) by {}
    if picked.floats_for_a_while(window, monitors) {
        assert(picked.placed().contains(window.0));
        assert(window == WindowHandle(window.0));
    }
    assert forall|key: u64| #[trigger] after.placed().contains(key) implies after.tile_order.contains(
        WindowHandle(key),
    ) by {
        assert(picked.placed().contains(key));
    }
}

/// Where every window that is arranged is in the order of the tiles, this stays so when a window is let
/// go, and the order does not grow.
pub proof fn letting_go_orders_what_is_arranged(
    state: DaemonView,
    window: WindowHandle,
    monitors: Seq<MonitorInfo>,
)
    requires
        state.orders_what_it_arranges(),
    ensures
        ({
            let after = state.movesize_ended(window, monitors, None).0;
            &&& after.orders_what_it_arranges()
            &&& after.tile_order.len() <= state.tile_order.len()
        }),
        state.tile_order.len() <= i32::MAX ==> state.can_let_go(window),
{
    let after = state.movesize_ended(window, monitors, None).0;
    lemma_ended_order(state, window, monitors, None);
    lemma_without(state.tile_order, window);
    assert(window == WindowHandle(window.0));
    assert forall|key: u64| #[trigger] after.placed().contains(key) implies after.tile_order.contains(
        WindowHandle(key),
    ) by {
        assert(state.placed().contains(key));
    }
}

/// Where every window that is arranged is in the order of the tiles, events do not make the order
/// longer.
pub proof fn events_do_not_lengthen_the_order(
    state: DaemonView,
    batch: Seq<WindowEvent>,
    readings: Seq<DragReading>,
    monitors: Seq<MonitorInfo>,
)
    requires
        state.orders_what_it_arranges(),
    ensures
        state.with_movesizes(batch, readings, monitors).0.orders_what_it_arranges(),
        state.with_movesizes(batch, readings, monitors).0.tile_order.len() <= state.tile_order.len(),
    decreases batch.len(),
{
    if batch.len() > 0 {
        let before = state.with_movesizes(batch.drop_last(), readings, monitors).0;
        let event = batch.last();
        events_do_not_lengthen_the_order(state, batch.drop_last(), readings, monitors);
        if event.kind == WindowEventKind::MoveSizeStart {
            picking_up_orders_what_is_arranged(
                before,
                event.window,
                readings[batch.len() - 1],
                monitors,
            );
        } else if event.kind == WindowEventKind::MoveSizeEnd {
            letting_go_orders_what_is_arranged(before, event.window, monitors);
        }
    }
}

} // verus!
