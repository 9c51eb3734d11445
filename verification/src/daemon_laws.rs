//! What holds of the daemon's state as a whole: what commands keep, what a change of workspaces may
//! hide, and what survives when the state is renewed.

use vstd::prelude::*;

use crate::commands::{DaemonCommand, MonitorSelector};
use crate::daemon_drop::{place_among, place_behind};
use crate::daemon_focus_laws::selected_monitor_is_known;
use crate::daemon_state::{DaemonState, DaemonView};
use crate::daemon_sync::{lemma_synced_keeps, lemma_windows_synced_keeps};
use crate::daemon_tiling_laws::lemma_tiling_keeps;
use crate::geometry::{MonitorId, MonitorInfo, Point, WindowHandle};
use crate::handles::{
    lemma_filter_holds, lemma_ordered_handles, lemma_position, lemma_without, ordered_handles,
    other_than, without,
};
use crate::layout_laws::lemma_filter;
use crate::runtime_config::RuntimeConfig;
use crate::size::WindowSizeConstraints;
use crate::sorted_map::SortedMap;
use crate::window::WindowInfo;
use crate::workspace::WorkspaceId;

verus! {

/// Whether two states know the same windows, with the same limits, settings and game.
pub open spec fn same_windows(a: DaemonView, b: DaemonView) -> bool {
    &&& a.windows == b.windows
    &&& a.size_constraints == b.size_constraints
    &&& a.learned == b.learned
    &&& a.config == b.config
    &&& a.game_mode == b.game_mode
}

/// Bringing the workspaces in line with the windows keeps the windows, their order and the focus.
pub proof fn syncing_keeps_the_windows(state: DaemonView, monitors: Seq<MonitorInfo>)
    ensures
        same_windows(state, state.synced(monitors)),
        state.synced(monitors).tile_order == state.tile_order,
        state.synced(monitors).foreground == state.foreground,
{
    lemma_synced_keeps(state, monitors);
}

proof fn lemma_retiled_keeps(state: DaemonView, monitors: Seq<MonitorInfo>, cursor: Option<Point>)
    ensures
        same_windows(state, state.retiled(monitors, cursor)),
        state.retiled(monitors, cursor).tile_order == state.tile_order,
        state.retiled(monitors, cursor).workspaces == state.workspaces,
        state.retiled(monitors, cursor).foreground == state.foreground,
{
    lemma_tiling_keeps(state, monitors, monitors, cursor);
}

proof fn lemma_windows_on_keep(
    state: DaemonView,
    windows: Seq<WindowHandle>,
    target: MonitorId,
)
    ensures
        same_windows(state, state.with_windows_on(windows, target)),
        state.with_windows_on(windows, target).tile_order == state.tile_order,
        state.with_windows_on(windows, target).workspaces == state.workspaces,
    decreases windows.len(),
{
    if windows.len() > 0 {
        lemma_windows_on_keep(state, windows.drop_last(), target);
    }
}

proof fn lemma_switching_keeps(
    state: DaemonView,
    workspace: WorkspaceId,
    monitors: Seq<MonitorInfo>,
    cursor: Option<Point>,
)
    ensures
        same_windows(state, state.switching(workspace, monitors, cursor).0),
        state.switching(workspace, monitors, cursor).0.tile_order == state.tile_order,
{
    reveal(DaemonView::switching);
    syncing_keeps_the_windows(state, monitors);
    let after = state.after_switch(workspace, monitors);
    let focus = if state.moved_along(workspace, monitors) is Some {
        state.moved_along(workspace, monitors)
    } else {
        after.candidate_on_focused(monitors)
    };
    lemma_retiled_keeps(DaemonView { foreground: focus, ..after }, monitors, cursor);
}

proof fn lemma_moving_keeps(
    state: DaemonView,
    workspace: WorkspaceId,
    follow: bool,
    monitors: Seq<MonitorInfo>,
    cursor: Option<Point>,
)
    ensures
        same_windows(state, state.moving_focused(workspace, follow, monitors, cursor).0),
        state.moving_focused(workspace, follow, monitors, cursor).0.tile_order == state.tile_order,
        state.movable_foreground(monitors) matches Some(window) ==> state.synced(
            monitors,
        ).workspaces.windows.contains_key(window.0) ==> state.moving_focused(
            workspace,
            follow,
            monitors,
            cursor,
        ).0.workspaces.windows[window.0].workspace == workspace,
{
    reveal(DaemonView::moving_focused);
    syncing_keeps_the_windows(state, monitors);
    match state.movable_foreground(monitors) {
        None => {},
        Some(current) => {
            let noted = state.synced(monitors).with_rect_noted(current);
            let monitor = noted.owner_or_command_monitor(current, monitors);
            let moved = noted.with_window_on(current, workspace);
            let followed = DaemonView {
                foreground: Some(current),
                ..moved.with_workspace_shown(monitor, workspace)
            };
            lemma_retiled_keeps(followed, monitors, cursor);
            let focus = match monitor {
                Some(monitor) => moved.candidate_on(monitor, monitors),
                None => None,
            };
            lemma_retiled_keeps(DaemonView { foreground: focus, ..moved }, monitors, cursor);
        },
    }
}

proof fn lemma_sending_keeps(
    state: DaemonView,
    workspace: WorkspaceId,
    selector: MonitorSelector,
    monitors: Seq<MonitorInfo>,
    cursor: Option<Point>,
)
    ensures
        same_windows(state, state.sending(workspace, selector, monitors, cursor).0),
        state.sending(workspace, selector, monitors, cursor).0.tile_order == state.tile_order,
        state.selected(selector, monitors) matches Some(target) ==> state.sending(
            workspace,
            selector,
            monitors,
            cursor,
        ).0.workspaces.active_on(target) == workspace,
{
    reveal(DaemonView::sending);
    match state.selected(selector, monitors) {
        None => {},
        Some(target) => {
            let windows = ordered_handles(state.workspaces.windows).filter(
                state.is_sent(workspace, monitors),
            );
            lemma_windows_on_keep(state, windows, target);
            let after = state.with_windows_on(windows, target).with_workspace_shown(
                Some(target),
                workspace,
            );
            let focus = after.candidate_on(target, monitors);
            lemma_retiled_keeps(DaemonView { foreground: focus, ..after }, monitors, cursor);
        },
    }
}

proof fn lemma_moving_to_monitor_keeps(
    state: DaemonView,
    selector: MonitorSelector,
    monitors: Seq<MonitorInfo>,
    cursor: Option<Point>,
)
    ensures
        same_windows(state, state.moving_to_monitor(selector, monitors, cursor).0),
        state.moving_to_monitor(selector, monitors, cursor).0.tile_order == state.tile_order,
{
    reveal(DaemonView::moving_to_monitor);
    match (state.movable_foreground(monitors), state.selected(selector, monitors)) {
        (Some(current), Some(target)) => {
            let workspace = state.workspaces.active_on(target);
            let moved = state.with_rect_noted(current).with_window_on(current, workspace);
            lemma_retiled_keeps(
                DaemonView {
                    overrides: moved.overrides.insert(current.0, target),
                    workspaces: moved.workspaces.focused_on(target),
                    foreground: Some(current),
                    ..moved
                },
                monitors,
                cursor,
            );
        },
        _ => {},
    }
}

/// A command neither adds nor forgets a window, and leaves the settings and what is known of sizes as
/// they are; only an exchange of windows changes the order of the tiles.
pub proof fn commands_keep_the_windows(
    state: DaemonView,
    command: DaemonCommand,
    monitors: Seq<MonitorInfo>,
    cursor: Option<Point>,
)
    ensures
        same_windows(state, state.commanded(command, monitors, cursor).0),
        !(command is Swap) ==> state.commanded(command, monitors, cursor).0.tile_order
            == state.tile_order,
{
    match command {
        DaemonCommand::Swap(direction) => {
            lemma_retiled_keeps(state.swapped(direction, monitors), monitors, cursor);
        },
        DaemonCommand::Retile => {
            lemma_retiled_keeps(state, monitors, cursor);
        },
        DaemonCommand::ToggleFloat => {
            lemma_retiled_keeps(state.float_toggled(monitors), monitors, cursor);
        },
        DaemonCommand::SwitchWorkspace(workspace) => {
            lemma_switching_keeps(state, workspace, monitors, cursor);
        },
        DaemonCommand::SwitchWorkspaceRelative(direction) => {
            let synced = state.synced(monitors);
            syncing_keeps_the_windows(state, monitors);
            lemma_switching_keeps(synced, synced.switch_target(direction, monitors), monitors, cursor);
        },
        DaemonCommand::MoveFocusedToWorkspace(workspace) => {
            lemma_moving_keeps(state, workspace, false, monitors, cursor);
        },
        DaemonCommand::MoveFocusedToWorkspaceAndFollow(workspace) => {
            lemma_moving_keeps(state, workspace, true, monitors, cursor);
        },
        DaemonCommand::MoveFocusedToMonitor(selector) => {
            lemma_moving_to_monitor_keeps(state, selector, monitors, cursor);
        },
        DaemonCommand::SendWorkspaceToMonitor { workspace, monitor } => {
            lemma_sending_keeps(state, workspace, monitor, monitors, cursor);
        },
        _ => {},
    }
}

/// The focused window that is moved to a workspace is on that workspace then, whether the focus follows
/// it or not.
pub proof fn moved_window_is_on_its_workspace(
    state: DaemonView,
    workspace: WorkspaceId,
    window: WindowHandle,
    monitors: Seq<MonitorInfo>,
    cursor: Option<Point>,
)
    requires
        state.movable_foreground(monitors) == Some(window),
        state.synced(monitors).workspaces.windows.contains_key(window.0),
    ensures
        state.commanded(
            DaemonCommand::MoveFocusedToWorkspace(workspace),
            monitors,
            cursor,
        ).0.workspaces.windows[window.0].workspace == workspace,
        state.commanded(
            DaemonCommand::MoveFocusedToWorkspaceAndFollow(workspace),
            monitors,
            cursor,
        ).0.workspaces.windows[window.0].workspace == workspace,
{
    lemma_moving_keeps(state, workspace, false, monitors, cursor);
    lemma_moving_keeps(state, workspace, true, monitors, cursor);
}

/// A workspace that is sent to a monitor is shown there then.
pub proof fn sent_workspace_is_shown_on_its_monitor(
    state: DaemonView,
    workspace: WorkspaceId,
    selector: MonitorSelector,
    target: MonitorId,
    monitors: Seq<MonitorInfo>,
    cursor: Option<Point>,
)
    requires
        state.selected(selector, monitors) == Some(target),
    ensures
        state.commanded(
            DaemonCommand::SendWorkspaceToMonitor { workspace, monitor: selector },
            monitors,
            cursor,
        ).0.workspaces.active_on(target) == workspace,
{
    lemma_sending_keeps(state, workspace, selector, monitors, cursor);
}

/// The focused window that is moved to a monitor belongs to that monitor then, is on the workspace that
/// the monitor shows, and keeps the focus.
pub proof fn window_moved_to_a_monitor_belongs_to_it(
    state: DaemonView,
    selector: MonitorSelector,
    target: MonitorId,
    window: WindowHandle,
    monitors: Seq<MonitorInfo>,
    cursor: Option<Point>,
)
    requires
        state.movable_foreground(monitors) == Some(window),
        state.selected(selector, monitors) == Some(target),
        state.workspaces.windows.contains_key(window.0),
    ensures
        ({
            let after = state.commanded(
                DaemonCommand::MoveFocusedToMonitor(selector),
                monitors,
                cursor,
            ).0;
            &&& after.owner(window, monitors) == Some(target)
            &&& after.workspaces.windows[window.0].workspace == after.workspaces.active_on(target)
            &&& after.workspaces.active_on(target) == state.workspaces.active_on(target)
            &&& after.workspaces.focused == Some(target)
            &&& after.foreground == Some(window)
        }),
{
    reveal(DaemonView::moving_to_monitor);
    let moved = state.with_rect_noted(window).with_window_on(window, state.workspaces.active_on(target));
    let focused = DaemonView {
        overrides: moved.overrides.insert(window.0, target),
        workspaces: moved.workspaces.focused_on(target),
        foreground: Some(window),
        ..moved
    };
    lemma_tiling_keeps(focused, monitors, monitors, cursor);
    selected_monitor_is_known(state, selector, monitors);
}

/// After a change of workspaces, the monitor on which it was made shows the workspace.
pub proof fn switched_workspace_is_shown(state: DaemonView, workspace: WorkspaceId, monitors: Seq<MonitorInfo>)
    ensures
        state.synced(monitors).switch_monitor(monitors) matches Some(monitor) ==> state.after_switch(
            workspace,
            monitors,
        ).workspaces.active_on(monitor) == workspace,
        state.after_switch(workspace, monitors).workspaces.active == workspace,
{
}

/// A change of workspaces hides no window that the daemon may not move: no fullscreen window, none that
/// is not managed, no game; nor the window that is dragged along.
pub proof fn switching_hides_only_safe_windows(
    state: DaemonView,
    workspace: WorkspaceId,
    monitors: Seq<MonitorInfo>,
    window: WindowHandle,
)
    requires
        state.switch_hides(workspace, monitors).contains(window),
    ensures
        state.just_switched(workspace, monitors).safe_to_move(window, monitors),
        state.moved_along(workspace, monitors) != Some(window),
{
    let monitor = state.synced(monitors).switch_monitor(monitors);
    let before = state.before_switch(workspace, monitors);
    lemma_filter_holds(
        before.workspaces.hidden_by(before.shown_before(monitor), workspace),
        state.just_switched(workspace, monitors).is_hidden_on(
            state.moved_along(workspace, monitors),
            monitor,
            monitors,
        ),
        window,
    );
}

proof fn lemma_synced_windows_are_there(
    state: DaemonView,
    windows: Seq<WindowHandle>,
    monitors: Seq<MonitorInfo>,
    key: u64,
)
    requires
        forall|i: int| 0 <= i < windows.len() ==> state.windows.contains_key((#[trigger] windows[i]).0),
        state.workspaces.windows.contains_key(key) ==> state.windows.contains_key(key),
    ensures
        state.with_windows_synced(windows, monitors).workspaces.windows.contains_key(key)
            ==> state.windows.contains_key(key),
    decreases windows.len(),
{
    if windows.len() > 0 {
        let rest = windows.drop_last();
        assert forall|i: int| 0 <= i < rest.len() implies state.windows.contains_key(
            (#[trigger] rest[i]).0,
        ) by {
            assert(rest[i] == windows[i]);
        }
        lemma_synced_windows_are_there(state, rest, monitors, key);
        lemma_windows_synced_keeps(state, rest, monitors);
        assert(windows[windows.len() - 1] == windows.last());
    }
}

/// After the workspaces were brought in line, only windows that are there are on a workspace.
pub proof fn synced_workspaces_hold_windows_that_are_there(
    state: DaemonState,
    monitors: Seq<MonitorInfo>,
    key: u64,
)
    requires
        state.wf(),
        state@.synced(monitors).workspaces.windows.contains_key(key),
    ensures
        state@.windows.contains_key(key),
{
    lemma_ordered_handles(&state.windows);
    let handles = ordered_handles(state@.windows);
    assert forall|i: int| 0 <= i < handles.len() implies state@.windows.contains_key(
        (#[trigger] handles[i]).0,
    ) by {
        assert(handles.contains(handles[i]));
    }
    lemma_synced_windows_are_there(
        state@.with_monitors_synced(monitors),
        handles,
        monitors,
        key,
    );
}

/// The first look at the windows puts each window that may be managed in the order of the tiles, once,
/// and no other.
pub proof fn discovered_order_lists_managed_windows(
    config: RuntimeConfig,
    windows: SortedMap<WindowInfo>,
    size_constraints: Map<u64, WindowSizeConstraints>,
    foreground: Option<WindowHandle>,
    monitors: Seq<MonitorInfo>,
    window: WindowHandle,
)
    requires
        windows.wf(),
    ensures
        ({
            let state = DaemonView::discovered(
                config,
                windows@,
                size_constraints,
                foreground,
                monitors,
            );
            &&& state.tile_order.no_duplicates()
            &&& state.tile_order.contains(window) <==> windows@.contains_key(window.0)
                && state.managed(windows@[window.0])
        }),
{
    let first = DaemonView::unsorted(config, windows@, size_constraints, foreground);
    let listed = DaemonView { tile_order: first.managed_handles(), ..first };
    syncing_keeps_the_windows(listed, monitors);
    lemma_ordered_handles(&windows);
    lemma_filter(ordered_handles(windows@), first.is_managed_handle());
    lemma_filter_holds(ordered_handles(windows@), first.is_managed_handle(), window);
}

/// A window that is still there when the state is renewed takes part as it did.
pub proof fn renewed_state_keeps_participation(
    refreshed: DaemonView,
    before: DaemonView,
    monitors: Seq<MonitorInfo>,
    window: WindowHandle,
)
    requires
        refreshed.with_workspaces_of(before, monitors).placed().contains(window.0),
    ensures
        refreshed.preserving(before, monitors).takes_part(window) == before.takes_part(window),
        refreshed.preserving(before, monitors).promoted.contains_key(window.0)
            == before.promoted.contains_key(window.0),
{
}

proof fn lemma_inserted_once(rest: Seq<WindowHandle>, place: int, window: WindowHandle)
    requires
        rest.no_duplicates(),
        !rest.contains(window),
        0 <= place <= rest.len(),
    ensures
        rest.insert(place, window).no_duplicates(),
        forall|other: WindowHandle| #[trigger]
            rest.insert(place, window).contains(other) <==> other == window || rest.contains(other),
{
    let list = rest.insert(place, window);
    assert forall|other: WindowHandle| #[trigger] list.contains(other) <==> other == window
        || rest.contains(other) by {
        if rest.contains(other) {
            let i = rest.index_of(other);
            assert(list[if i < place {
                i
            } else {
                i + 1
            }] == other);
        }
        assert(list[place] == window);
        if list.contains(other) && other != window {
            let i = list.index_of(other);
            assert(rest[if i < place {
                i
            } else {
                i - 1
            }] == other);
        }
    }
    assert forall|i: int, j: int|
        0 <= i < list.len() && 0 <= j < list.len() && i != j implies list[i] != list[j] by {
        let a = if i < place {
            i
        } else {
            i - 1
        };
        let b = if j < place {
            j
        } else {
            j - 1
        };
        if i == place {
            assert(rest[b] == list[j]);
        } else if j == place {
            assert(rest[a] == list[i]);
        } else {
            assert(rest[a] == list[i]);
            assert(rest[b] == list[j]);
        }
    }
}

/// A window that is dropped behind another, or at a place among others, is in the order of the tiles
/// once, and the other windows stay there.
pub proof fn dropping_keeps_the_windows(
    state: DaemonView,
    window: WindowHandle,
    target: WindowHandle,
    among: Seq<WindowHandle>,
    place: int,
    other: WindowHandle,
)
    requires
        state.tile_order.no_duplicates(),
        0 <= place,
    ensures
        state.order_behind(window, target).no_duplicates(),
        state.order_among(window, among, place).no_duplicates(),
        state.order_behind(window, target).contains(other) <==> other == window
            || state.tile_order.contains(other),
        state.order_among(window, among, place).contains(other) <==> other == window
            || state.tile_order.contains(other),
{
    let rest = without(state.tile_order, window);
    lemma_without(state.tile_order, window);
    lemma_filter(state.tile_order, other_than(window));
    lemma_position(rest, target, 0);
    lemma_inserted_once(rest, place_behind(rest, target), window);
    if place < among.len() {
        lemma_position(rest, among[place], 0);
    } else if among.len() > 0 {
        lemma_position(rest, among.last(), 0);
    }
    lemma_inserted_once(rest, place_among(rest, among, place), window);
}

} // verus!
