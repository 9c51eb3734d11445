//! What commands do to workspaces, monitors and the focus.

use vstd::prelude::*;

use crate::commands::{CycleDirection, DaemonCommand, MonitorSelector};
use crate::daemon_state::DaemonView;
use crate::daemon_sync::lemma_synced_keeps;
use crate::daemon_tiling_laws::tiling_keeps_windows_and_workspaces;
use crate::daemon_workspace::PlanView;
use crate::geometry::{MonitorId, MonitorInfo, Point, TileAssignment, WindowHandle};
use crate::handles::{lemma_filter_holds, lemma_first_kept, ordered_handles};
use crate::workspace::{WorkspaceId, WorkspaceVisibilityChange};

verus! {

/// A command to quit says so and does nothing else, likewise one to reload; a command to launch something
/// leaves the windows alone.
pub proof fn quitting_and_reloading_leave_the_windows(
    state: DaemonView,
    monitors: Seq<MonitorInfo>,
    cursor: Option<Point>,
    line: String,
)
    ensures
        ({
            let quit = state.commanded(DaemonCommand::Quit, monitors, cursor);
            let reload = state.commanded(DaemonCommand::Reload, monitors, cursor);
            let launch = state.commanded(DaemonCommand::Launch(line), monitors, cursor);
            &&& quit.0 == state && quit.1.quit && !quit.1.reload && quit.1.focus is None
                && quit.1.moves.len() == 0 && quit.1.hide.len() == 0 && quit.1.show.len() == 0
            &&& reload.0 == state && reload.1.reload && !reload.1.quit && reload.1.focus is None
                && reload.1.moves.len() == 0 && reload.1.hide.len() == 0 && reload.1.show.len() == 0
            &&& launch.0 == state && !launch.1.quit && !launch.1.reload && launch.1.focus is None
                && launch.1.moves.len() == 0 && launch.1.hide.len() == 0 && launch.1.show.len() == 0
            &&& DaemonCommand::Quit.leaves_windows_alone()
            &&& DaemonCommand::Reload.leaves_windows_alone()
            &&& DaemonCommand::Launch(line).leaves_windows_alone()
            &&& !DaemonCommand::Retile.leaves_windows_alone()
            &&& !DaemonCommand::ToggleFloat.leaves_windows_alone()
        }),
{
}

/// A command to bring the focus to a monitor makes the workspace that it shows the active one, changes
/// what no known monitor shows, and focuses the first window in the order of the tiles that belongs to
/// the monitor and can have the focus.
pub proof fn focus_goes_to_the_monitor(
    state: DaemonView,
    selector: MonitorSelector,
    monitors: Seq<MonitorInfo>,
    cursor: Option<Point>,
    monitor: MonitorId,
    other: MonitorId,
)
    requires
        state.selected(selector, monitors) == Some(monitor),
    ensures
        ({
            let (after, plan) = state.commanded(
                DaemonCommand::FocusMonitor(selector),
                monitors,
                cursor,
            );
            &&& after.workspaces.focused == Some(monitor)
            &&& after.workspaces.active == state.workspaces.active_on(monitor)
            &&& state.workspaces.monitors.contains_key(other.0) ==> after.workspaces.active_on(other)
                == state.workspaces.active_on(other)
            &&& after.foreground == plan.focus
            &&& plan == (PlanView { focus: plan.focus, ..PlanView::nothing() })
            &&& plan.focus matches Some(window) ==> after.owner(window, monitors) == Some(monitor)
                && after.manageable(window, monitors) && exists|at: int|
                0 <= at < state.tile_order.len() && #[trigger] state.tile_order[at] == window
                    && forall|i: int|
                    0 <= i < at ==> !(after.owner(#[trigger] state.tile_order[i], monitors) == Some(
                        monitor,
                    ) && after.manageable(state.tile_order[i], monitors))
            &&& plan.focus is None ==> forall|i: int|
                0 <= i < state.tile_order.len() ==> !(after.owner(
                    #[trigger] state.tile_order[i],
                    monitors,
                ) == Some(monitor) && after.manageable(state.tile_order[i], monitors))
        }),
{
    let focused = DaemonView { workspaces: state.workspaces.focused_on(monitor), ..state };
    let (after, plan) = state.commanded(DaemonCommand::FocusMonitor(selector), monitors, cursor);
    assert forall|window: WindowHandle|
        after.owner(window, monitors) == focused.owner(window, monitors) by {}
    assert forall|window: WindowHandle|
        after.manageable(window, monitors) == focused.manageable(window, monitors) by {}
    lemma_first_kept(state.tile_order, focused.is_candidate_on(monitor, monitors));
}

/// Where no monitor is meant, no focus goes anywhere and no window or workspace is moved.
pub proof fn nothing_goes_to_no_monitor(
    state: DaemonView,
    selector: MonitorSelector,
    workspace: WorkspaceId,
    monitors: Seq<MonitorInfo>,
    cursor: Option<Point>,
)
    requires
        state.selected(selector, monitors) is None,
    ensures
        state.commanded(DaemonCommand::FocusMonitor(selector), monitors, cursor) == (
            state,
            PlanView::nothing(),
        ),
        state.commanded(DaemonCommand::MoveFocusedToMonitor(selector), monitors, cursor) == (
            state,
            PlanView::nothing(),
        ),
        state.commanded(
            DaemonCommand::SendWorkspaceToMonitor { workspace, monitor: selector },
            monitors,
            cursor,
        ) == (state, PlanView::nothing()),
{
    reveal(DaemonView::moving_to_monitor);
    reveal(DaemonView::sending);
}

/// A window that is moved to another workspace and followed keeps the focus, and the workspace is shown
/// where the window was. One that is not followed leaves what is shown as it was, is hidden if it was
/// seen and is not any more, and hands the focus on to the first window on its monitor.
#[verifier::rlimit(50)]
pub proof fn followed_window_keeps_the_focus(
    state: DaemonView,
    workspace: WorkspaceId,
    window: WindowHandle,
    monitor: MonitorId,
    monitors: Seq<MonitorInfo>,
    cursor: Option<Point>,
)
    requires
        state.foreground == Some(window),
        state.movable(window, monitors),
        state.synced(monitors).workspaces.windows.contains_key(window.0),
        state.synced(monitors).workspaces.windows[window.0].workspace != workspace,
        state.synced(monitors).with_rect_noted(window).owner(window, monitors) == Some(monitor),
    ensures
        ({
            let synced = state.synced(monitors);
            let (followed, there) = state.commanded(
                DaemonCommand::MoveFocusedToWorkspaceAndFollow(workspace),
                monitors,
                cursor,
            );
            let (left, here) = state.commanded(
                DaemonCommand::MoveFocusedToWorkspace(workspace),
                monitors,
                cursor,
            );
            &&& there.focus == Some(window) && followed.foreground == Some(window)
            &&& followed.workspaces.active == workspace
            &&& followed.workspaces.focused == Some(monitor)
            &&& followed.workspaces.active_on(monitor) == workspace
            &&& !there.hide.contains(window)
            &&& left.workspaces.active == synced.workspaces.active
            &&& left.workspaces.monitors == synced.workspaces.monitors
            &&& left.workspaces.focused == synced.workspaces.focused
            &&& left.foreground == here.focus
            &&& here.show.len() == 0
            &&& forall|other: WindowHandle| #[trigger] here.hide.contains(other) ==> other == window
            &&& here.hide.contains(window) <==> synced.with_rect_noted(window).visible(
                window,
                monitors,
            ) && !left.visible(window, monitors) && left.safe_to_move(window, monitors)
        }),
{
    reveal(DaemonView::moving_focused);
    lemma_synced_keeps(state, monitors);
    let noted = state.synced(monitors).with_rect_noted(window);
    let moved = noted.with_window_on(window, workspace);
    let after = moved.with_workspace_shown(Some(monitor), workspace);
    let focused = DaemonView { foreground: Some(window), ..after };
    tiling_keeps_windows_and_workspaces(focused, monitors, cursor);
    lemma_filter_holds(
        moved.workspaces.hidden_by(moved.shown_before(Some(monitor)), workspace),
        after.is_hidden_on(Some(window), Some(monitor), monitors),
        window,
    );
    let rest = DaemonView { foreground: moved.candidate_on(monitor, monitors), ..moved };
    tiling_keeps_windows_and_workspaces(rest, monitors, cursor);
    crate::daemon_tiling_laws::lemma_tiling_keeps(rest, monitors, monitors, cursor);
    let left = rest.retiled(monitors, cursor);
    assert(left.owner(window, monitors) == moved.owner(window, monitors));
    assert(left.visible(window, monitors) == moved.visible(window, monitors));
    assert(left.safe_to_move(window, monitors) == moved.safe_to_move(window, monitors));
    assert(seq![window].contains(window)) by {
        assert(seq![window][0] == window);
    }
}

/// A switch to a workspace, while nothing is dragged, shows it on the monitor that commands mean. Of the
/// windows that belong to that monitor, those on the workspace that was shown before are hidden if they
/// may be moved, those on the new one are shown where they were last seen, and no others are either.
#[verifier::rlimit(50)]
pub proof fn switch_hides_and_shows_on_one_monitor(
    state: DaemonView,
    workspace: WorkspaceId,
    monitor: MonitorId,
    monitors: Seq<MonitorInfo>,
    cursor: Option<Point>,
    window: WindowHandle,
)
    requires
        state.synced(monitors).modifier_drag is None,
        state.synced(monitors).interactive_drag is None,
        state.synced(monitors).command_monitor(monitors) == Some(monitor),
        ordered_handles(state.synced(monitors).workspaces.windows).contains(window),
        state.synced(monitors).workspaces.windows.contains_key(window.0),
        state.synced(monitors).workspaces.active_on(monitor) != workspace,
    ensures
        ({
            let before = state.synced(monitors);
            let (after, plan) = state.commanded(
                DaemonCommand::SwitchWorkspace(workspace),
                monitors,
                cursor,
            );
            let noted = before.workspaces.windows[window.0];
            let shown = WorkspaceVisibilityChange { window, restore_rect: noted.last_rect };
            &&& after.workspaces.active == workspace
            &&& after.workspaces.focused == Some(monitor)
            &&& after.workspaces.active_on(monitor) == workspace
            &&& after.workspaces.windows == before.workspaces.windows
            &&& plan.hide.contains(window) <==> !noted.visible_on_all_workspaces && noted.workspace
                == before.workspaces.active_on(monitor) && before.safe_to_move(window, monitors)
                && before.owner(window, monitors) == Some(monitor)
            &&& plan.show.contains(shown) <==> !noted.visible_on_all_workspaces && noted.workspace
                == workspace && before.owner(window, monitors) == Some(monitor)
            &&& !plan.quit && !plan.reload
            &&& after.foreground == plan.focus
        }),
{
    let before = state.synced(monitors);
    let from = before.workspaces.active_on(monitor);
    let switched = before.with_workspace_shown(Some(monitor), workspace);
    lemma_plain_switch(state, workspace, monitor, monitors, cursor);
    lemma_hidden_on(before, switched, from, workspace, monitor, monitors, window);
    lemma_shown_on(before, switched, from, workspace, monitor, monitors, window);
}

#[verifier::rlimit(50)]
proof fn lemma_plain_switch(
    state: DaemonView,
    workspace: WorkspaceId,
    monitor: MonitorId,
    monitors: Seq<MonitorInfo>,
    cursor: Option<Point>,
)
    requires
        state.synced(monitors).modifier_drag is None,
        state.synced(monitors).interactive_drag is None,
        state.synced(monitors).command_monitor(monitors) == Some(monitor),
    ensures
        ({
            let before = state.synced(monitors);
            let switched = before.with_workspace_shown(Some(monitor), workspace);
            let from = before.workspaces.active_on(monitor);
            let (after, plan) = state.commanded(
                DaemonCommand::SwitchWorkspace(workspace),
                monitors,
                cursor,
            );
            &&& after.workspaces == switched.workspaces
            &&& after.foreground == plan.focus
            &&& !plan.quit && !plan.reload
            &&& plan.hide == before.workspaces.hidden_by(from, workspace).filter(
                switched.is_hidden_on(None, Some(monitor), monitors),
            )
            &&& plan.show == before.workspaces.shown_by(from, workspace).filter(
                switched.is_shown_on(Some(monitor), monitors),
            )
        }),
{
    lemma_nothing_taken_along(state, workspace, monitor, monitors);
    let after = state.after_switch(workspace, monitors);
    let focus = if state.moved_along(workspace, monitors) is Some {
        state.moved_along(workspace, monitors)
    } else {
        after.candidate_on_focused(monitors)
    };
    let focused = DaemonView { foreground: focus, ..after };
    lemma_switching(state, workspace, monitors, cursor, focused);
}

/// A switch does what its parts say, and tiling changes neither workspaces nor focus.
#[verifier::rlimit(50)]
proof fn lemma_switching(
    state: DaemonView,
    workspace: WorkspaceId,
    monitors: Seq<MonitorInfo>,
    cursor: Option<Point>,
    focused: DaemonView,
)
    requires
        ({
            let after = state.after_switch(workspace, monitors);
            focused == (DaemonView {
                foreground: if state.moved_along(workspace, monitors) is Some {
                    state.moved_along(workspace, monitors)
                } else {
                    after.candidate_on_focused(monitors)
                },
                ..after
            })
        }),
    ensures
        ({
            let (after, plan) = state.commanded(
                DaemonCommand::SwitchWorkspace(workspace),
                monitors,
                cursor,
            );
            &&& after.workspaces == state.after_switch(workspace, monitors).workspaces
            &&& after.foreground == plan.focus
            &&& !plan.quit && !plan.reload
            &&& plan.hide == state.switch_hides(workspace, monitors)
            &&& plan.show == state.switch_shows(workspace, monitors)
        }),
{
    reveal(DaemonView::switching);
    tiling_keeps_windows_and_workspaces(focused, monitors, cursor);
}

/// While nothing is dragged, a switch takes no window along.
#[verifier::rlimit(50)]
proof fn lemma_nothing_taken_along(
    state: DaemonView,
    workspace: WorkspaceId,
    monitor: MonitorId,
    monitors: Seq<MonitorInfo>,
)
    requires
        state.synced(monitors).modifier_drag is None,
        state.synced(monitors).interactive_drag is None,
        state.synced(monitors).command_monitor(monitors) == Some(monitor),
    ensures
        ({
            let before = state.synced(monitors);
            let switched = before.with_workspace_shown(Some(monitor), workspace);
            let from = before.workspaces.active_on(monitor);
            &&& state.moved_along(workspace, monitors) is None
            &&& state.after_switch(workspace, monitors).workspaces == switched.workspaces
            &&& state.switch_hides(workspace, monitors) == before.workspaces.hidden_by(
                from,
                workspace,
            ).filter(switched.is_hidden_on(None, Some(monitor), monitors))
            &&& state.switch_shows(workspace, monitors) == before.workspaces.shown_by(
                from,
                workspace,
            ).filter(switched.is_shown_on(Some(monitor), monitors))
        }),
{
    let before = state.synced(monitors);
    assert(before.dragged_window() is None);
    assert(before.movable_dragged(monitors) is None);
    assert(before.switch_monitor(monitors) == Some(monitor));
    assert(before.taken_along(Some(monitor), monitors) is None);
    assert(state.before_switch(workspace, monitors) == before);
    assert(state.moved_along(workspace, monitors) is None);
    let switched = before.with_workspace_shown(Some(monitor), workspace);
    assert(state.just_switched(workspace, monitors) == switched);
}

proof fn lemma_hidden_on(
    before: DaemonView,
    switched: DaemonView,
    from: WorkspaceId,
    workspace: WorkspaceId,
    monitor: MonitorId,
    monitors: Seq<MonitorInfo>,
    window: WindowHandle,
)
    requires
        switched == before.with_workspace_shown(Some(monitor), workspace),
        from != workspace,
        ordered_handles(before.workspaces.windows).contains(window),
        before.workspaces.windows.contains_key(window.0),
    ensures
        before.workspaces.hidden_by(from, workspace).filter(
            switched.is_hidden_on(None, Some(monitor), monitors),
        ).contains(window) <==> {
            let noted = before.workspaces.windows[window.0];
            &&& !noted.visible_on_all_workspaces
            &&& noted.workspace == from
            &&& before.safe_to_move(window, monitors)
            &&& before.owner(window, monitors) == Some(monitor)
        },
{
    let handles = ordered_handles(before.workspaces.windows);
    assert(switched.owner(window, monitors) == before.owner(window, monitors));
    assert(switched.safe_to_move(window, monitors) == before.safe_to_move(window, monitors));
    lemma_filter_holds(handles, before.workspaces.is_bound_to(from), window);
    lemma_filter_holds(
        before.workspaces.hidden_by(from, workspace),
        switched.is_hidden_on(None, Some(monitor), monitors),
        window,
    );
}

proof fn lemma_shown_on(
    before: DaemonView,
    switched: DaemonView,
    from: WorkspaceId,
    workspace: WorkspaceId,
    monitor: MonitorId,
    monitors: Seq<MonitorInfo>,
    window: WindowHandle,
)
    requires
        switched == before.with_workspace_shown(Some(monitor), workspace),
        from != workspace,
        ordered_handles(before.workspaces.windows).contains(window),
        before.workspaces.windows.contains_key(window.0),
    ensures
        before.workspaces.shown_by(from, workspace).filter(
            switched.is_shown_on(Some(monitor), monitors),
        ).contains(
            WorkspaceVisibilityChange {
                window,
                restore_rect: before.workspaces.windows[window.0].last_rect,
            },
        ) <==> {
            let noted = before.workspaces.windows[window.0];
            &&& !noted.visible_on_all_workspaces
            &&& noted.workspace == workspace
            &&& before.owner(window, monitors) == Some(monitor)
        },
{
    let handles = ordered_handles(before.workspaces.windows);
    let change = WorkspaceVisibilityChange {
        window,
        restore_rect: before.workspaces.windows[window.0].last_rect,
    };
    assert(switched.owner(window, monitors) == before.owner(window, monitors));
    lemma_filter_holds(handles, before.workspaces.is_bound_to(workspace), window);
    lemma_filter_holds(
        before.workspaces.shown_by(from, workspace),
        switched.is_shown_on(Some(monitor), monitors),
        change,
    );
    let bound = handles.filter(before.workspaces.is_bound_to(workspace));
    let shown = before.workspaces.shown_by(from, workspace);
    assert(shown == bound.map_values(before.workspaces.restored()));
    if bound.contains(window) {
        let at = bound.index_of(window);
        assert(shown[at] == change);
    }
    if shown.contains(change) {
        let at = shown.index_of(change);
        assert(bound[at] == window);
    }
}

/// A command for the next or the previous workspace is a switch to it: next to the one that the monitor
/// shows that commands mean, while nothing is dragged.
pub proof fn next_workspace_is_switched_to(
    state: DaemonView,
    direction: CycleDirection,
    monitor: MonitorId,
    monitors: Seq<MonitorInfo>,
    cursor: Option<Point>,
)
    requires
        state.synced(monitors).modifier_drag is None,
        state.synced(monitors).interactive_drag is None,
        state.synced(monitors).command_monitor(monitors) == Some(monitor),
    ensures
        ({
            let synced = state.synced(monitors);
            state.commanded(DaemonCommand::SwitchWorkspaceRelative(direction), monitors, cursor)
                == synced.commanded(
                DaemonCommand::SwitchWorkspace(
                    crate::daemon_focus::beside_workspace(
                        synced.workspaces.workspaces,
                        synced.workspaces.active_on(monitor),
                        direction,
                    ),
                ),
                monitors,
                cursor,
            )
        }),
{
    assert(state.synced(monitors).dragged_window() is None);
}

proof fn lemma_windows_on(state: DaemonView, windows: Seq<WindowHandle>, target: MonitorId, window: WindowHandle)
    ensures
        ({
            let after = state.with_windows_on(windows, target);
            &&& windows.contains(window) ==> after.overrides.contains_key(window.0)
                && after.overrides[window.0] == target
            &&& !windows.contains(window) ==> after.overrides.contains_key(window.0)
                == state.overrides.contains_key(window.0) && after.overrides[window.0]
                == state.overrides[window.0]
            &&& after == (DaemonView { overrides: after.overrides, ..state })
        }),
    decreases windows.len(),
{
    if windows.len() > 0 {
        let rest = windows.drop_last();
        lemma_windows_on(state, rest, target, window);
        assert(windows =~= rest.push(windows.last()));
        crate::handles::lemma_contains_push(rest, windows.last());
        if rest.contains(window) {
            let at = rest.index_of(window);
            assert(windows[at] == window);
        }
        if windows.contains(window) && window != windows.last() {
            let at = windows.index_of(window);
            assert(rest[at] == window);
        }
        assert(windows[windows.len() - 1] == windows.last());
    }
}

/// A workspace that is sent to a monitor is shown there, which gets the focus, and its windows belong to
/// that monitor from then on, as far as they may be moved; no other window changes its monitor.
#[verifier::rlimit(50)]
pub proof fn sent_workspace_takes_its_windows_along(
    state: DaemonView,
    workspace: WorkspaceId,
    selector: MonitorSelector,
    target: MonitorId,
    monitors: Seq<MonitorInfo>,
    cursor: Option<Point>,
    window: WindowHandle,
)
    requires
        state.selected(selector, monitors) == Some(target),
        ordered_handles(state.workspaces.windows).contains(window),
        state.workspaces.windows.contains_key(window.0),
    ensures
        ({
            let (after, plan) = state.commanded(
                DaemonCommand::SendWorkspaceToMonitor { workspace, monitor: selector },
                monitors,
                cursor,
            );
            let sent = state.workspaces.windows[window.0].workspace == workspace && state.safe_to_move(
                window,
                monitors,
            );
            &&& after.workspaces.focused == Some(target)
            &&& after.workspaces.active == workspace
            &&& after.workspaces.windows == state.workspaces.windows
            &&& sent ==> after.overrides.contains_key(window.0) && after.overrides[window.0] == target
            &&& !sent ==> after.overrides.contains_key(window.0) == state.overrides.contains_key(
                window.0,
            ) && after.overrides[window.0] == state.overrides[window.0]
            &&& after.foreground == plan.focus
        }),
{
    reveal(DaemonView::sending);
    let windows = ordered_handles(state.workspaces.windows).filter(state.is_sent(workspace, monitors));
    lemma_filter_holds(
        ordered_handles(state.workspaces.windows),
        state.is_sent(workspace, monitors),
        window,
    );
    lemma_windows_on(state, windows, target, window);
    let put = state.with_windows_on(windows, target);
    let after = put.with_workspace_shown(Some(target), workspace);
    let focused = DaemonView { foreground: after.candidate_on(target, monitors), ..after };
    tiling_keeps_windows_and_workspaces(focused, monitors, cursor);
}

/// A window that is moved to a monitor keeps the focus, goes to the workspace that the monitor shows, and
/// is moved there itself if it floats; nothing is hidden or shown.
#[verifier::rlimit(50)]
pub proof fn window_goes_to_the_monitor(
    state: DaemonView,
    selector: MonitorSelector,
    target: MonitorId,
    window: WindowHandle,
    monitors: Seq<MonitorInfo>,
    cursor: Option<Point>,
)
    requires
        state.foreground == Some(window),
        state.movable(window, monitors),
        state.selected(selector, monitors) == Some(target),
    ensures
        ({
            let (after, plan) = state.commanded(
                DaemonCommand::MoveFocusedToMonitor(selector),
                monitors,
                cursor,
            );
            &&& plan.focus == Some(window) && after.foreground == Some(window)
            &&& after.workspaces.focused == Some(target)
            &&& after.overrides.contains_key(window.0) && after.overrides[window.0] == target
            &&& plan.hide.len() == 0 && plan.show.len() == 0 && !plan.quit && !plan.reload
            &&& after.floats(window) && after.translated_rect(
                window,
                state.owner(window, monitors),
                target,
                monitors,
            ) is Some ==> plan.moves.len() > 0 && plan.moves.last() == (TileAssignment {
                window,
                rect: after.translated_rect(
                    window,
                    state.owner(window, monitors),
                    target,
                    monitors,
                ).unwrap(),
            })
        }),
{
    reveal(DaemonView::moving_to_monitor);
    let workspace = state.workspaces.active_on(target);
    let moved = state.with_rect_noted(window).with_window_on(window, workspace);
    let focused = DaemonView {
        overrides: moved.overrides.insert(window.0, target),
        workspaces: moved.workspaces.focused_on(target),
        foreground: Some(window),
        ..moved
    };
    tiling_keeps_windows_and_workspaces(focused, monitors, cursor);
}

/// A window goes to another monitor as it stood on its own: its rectangle is that of the window noted, taken
/// from the one work area to the other.
pub proof fn window_is_taken_from_one_work_area_to_the_other(
    state: DaemonView,
    window: WindowHandle,
    source: MonitorId,
    target: MonitorId,
    monitors: Seq<MonitorInfo>,
    i: int,
    j: int,
)
    requires
        state.windows.contains_key(window.0),
        0 <= i < monitors.len(),
        0 <= j < monitors.len(),
        monitors[i].id == source,
        monitors[j].id == target,
        forall|a: int, b: int|
            0 <= a < b < monitors.len() ==> (#[trigger] monitors[a]).id != (#[trigger] monitors[b]).id,
    ensures
        state.translated_rect(window, Some(source), target, monitors) == Some(
            crate::monitors::translated(
                state.windows[window.0].rect,
                Some(monitors[i]),
                monitors[j],
            ),
        ),
        state.translated_rect(window, None, target, monitors) == Some(
            crate::monitors::translated(state.windows[window.0].rect, None, monitors[j]),
        ),
{
    lemma_monitor_is_named(monitors, source, i);
    lemma_monitor_is_named(monitors, target, j);
}

proof fn lemma_monitor_is_named(monitors: Seq<MonitorInfo>, id: MonitorId, at: int)
    requires
        0 <= at < monitors.len(),
        monitors[at].id == id,
        forall|i: int| 0 <= i < monitors.len() && i != at ==> (#[trigger] monitors[i]).id != id,
    ensures
        crate::monitors::monitor_named(monitors, id) == Some(monitors[at]),
    decreases monitors.len(),
{
    let rest = monitors.drop_last();
    assert(monitors[monitors.len() - 1] == monitors.last());
    assert(forall|i: int| 0 <= i < rest.len() ==> #[trigger] rest[i] == monitors[i]);
    if at < rest.len() {
        lemma_monitor_is_named(rest, id, at);
    } else {
        lemma_no_monitor_is_named(rest, id);
    }
}

proof fn lemma_no_monitor_is_named(monitors: Seq<MonitorInfo>, id: MonitorId)
    requires
        forall|i: int| 0 <= i < monitors.len() ==> (#[trigger] monitors[i]).id != id,
    ensures
        crate::monitors::monitor_named(monitors, id) is None,
    decreases monitors.len(),
{
    if monitors.len() > 0 {
        let rest = monitors.drop_last();
        assert(monitors[monitors.len() - 1] == monitors.last());
        assert(forall|i: int| 0 <= i < rest.len() ==> #[trigger] rest[i] == monitors[i]);
        lemma_no_monitor_is_named(rest, id);
    }
}

} // verus!
