//! What layouts are told of windows, and where windows that are dropped, sent or taken along end up.

use vstd::prelude::*;

use crate::commands::{DaemonCommand, MonitorSelector};
use crate::daemon_drop::{drop_point, tile_at};
use crate::daemon_state::{ActiveModifierDrag, DaemonView, DropContext};
use crate::daemon_tiling_laws::{lemma_promoting_keeps_ground, tiling_keeps_windows_and_workspaces};
use crate::daemon_workspace::shows_window;
use crate::drag_laws::window_is_dropped_where_the_cursor_is;
use crate::dwindle::DwindleSplit;
use crate::geometry::{MonitorId, MonitorInfo, Point, Rect, TileAssignment, WindowHandle};
use crate::handles::{lemma_filter_holds, ordered_handles};
use crate::layout::{LayoutConfig, WindowParticipation};
use crate::monitors::{monitor_of_point, monitor_of_rect};
use crate::smart_split::drawn_to;
use crate::split_memory::remembered;
use crate::tiling::{layout_tiles, limits_for, WindowLayoutInfo};
use crate::workspace::{WorkspaceId, WorkspaceVisibilityChange, WorkspaceView};

verus! {

/// A layout is told of exactly the windows that are known, each with the limits on its size: those that it
/// states and those that were learned of it.
pub proof fn layout_is_told_the_windows_and_their_limits(
    state: DaemonView,
    handles: Seq<WindowHandle>,
    window: WindowHandle,
)
    ensures
        ({
            let infos = state.layout_infos(handles);
            let told = WindowLayoutInfo { handle: window, size_constraints: state.limits(window) };
            &&& infos.contains(told) <==> handles.contains(window) && state.windows.contains_key(
                window.0,
            )
            &&& forall|i: int|
                0 <= i < infos.len() ==> (#[trigger] infos[i]).size_constraints == state.limits(
                    infos[i].handle,
                )
            &&& infos.len() <= handles.len()
        }),
    decreases handles.len(),
{
    if handles.len() > 0 {
        let rest = handles.drop_last();
        layout_is_told_the_windows_and_their_limits(state, rest, window);
        let before = state.layout_infos(rest);
        let infos = state.layout_infos(handles);
        let told = WindowLayoutInfo { handle: window, size_constraints: state.limits(window) };
        if handles.contains(window) {
            let at = handles.index_of(window);
            if at < rest.len() {
                assert(rest[at] == window);
            }
        }
        if rest.contains(window) {
            let at = rest.index_of(window);
            assert(handles[at] == window);
        }
        if before.contains(told) {
            let at = before.index_of(told);
            assert(infos[at] == told);
        }
        if infos.contains(told) {
            let at = infos.index_of(told);
            if at < before.len() {
                assert(before[at] == told);
            } else {
                assert(handles[handles.len() - 1] == window);
            }
        }
        if handles.last() == window && state.windows.contains_key(window.0) {
            assert(infos[infos.len() - 1] == told);
        }
    } else {
        assert(state.layout_infos(handles) =~= Seq::empty());
    }
}

/// A window of which nothing is stated or learned may have any size.
pub proof fn window_without_limits_may_have_any_size(state: DaemonView, window: WindowHandle)
    requires
        !state.size_constraints.contains_key(window.0),
        !state.learned.contains_key(window.0),
    ensures
        state.limits(window).min.width == 0,
        state.limits(window).min.height == 0,
        state.limits(window).max is None,
{
}

proof fn lemma_limits_told(state: DaemonView, infos: Seq<WindowLayoutInfo>, window: WindowHandle)
    requires
        forall|i: int|
            0 <= i < infos.len() ==> (#[trigger] infos[i]).size_constraints == state.limits(
                infos[i].handle,
            ),
        exists|i: int| 0 <= i < infos.len() && (#[trigger] infos[i]).handle == window,
    ensures
        limits_for(infos, window) == state.limits(window),
    decreases infos.len(),
{
    if infos.last().handle != window {
        let i = choose|i: int| 0 <= i < infos.len() && (#[trigger] infos[i]).handle == window;
        let rest = infos.drop_last();
        assert(rest[i].handle == window);
        assert forall|j: int| 0 <= j < rest.len() implies (#[trigger] rest[j]).size_constraints
            == state.limits(rest[j].handle) by {
            assert(rest[j] == infos[j]);
        }
        lemma_limits_told(state, rest, window);
    } else {
        assert(infos[infos.len() - 1] == infos.last());
    }
}

/// A window is given a tile that is as large as the window states, or as was learned of it, as far as
/// numbers reach.
pub proof fn tile_is_as_large_as_the_window_needs_it(
    state: DaemonView,
    monitor: MonitorInfo,
    handles: Seq<WindowHandle>,
    layout: LayoutConfig,
    cursor: Option<Point>,
    i: int,
)
    requires
        0 <= i < state.preview(monitor, handles, layout, cursor).len(),
        ({
            let tile = state.preview(monitor, handles, layout, cursor)[i];
            let least = state.limits(tile.window).min;
            &&& handles.contains(tile.window)
            &&& state.windows.contains_key(tile.window.0)
            &&& 0 <= least.width && tile.rect.left + least.width <= i32::MAX
            &&& 0 <= least.height && tile.rect.top + least.height <= i32::MAX
        }),
    ensures
        ({
            let tile = state.preview(monitor, handles, layout, cursor)[i];
            let least = state.limits(tile.window).min;
            &&& tile.rect.right - tile.rect.left >= least.width || tile.rect.right == i32::MAX
            &&& tile.rect.bottom - tile.rect.top >= least.height || tile.rect.bottom == i32::MAX
        }),
{
    let tile = state.preview(monitor, handles, layout, cursor)[i];
    let infos = state.layout_infos(handles);
    layout_is_told_the_windows_and_their_limits(state, handles, tile.window);
    let told = WindowLayoutInfo { handle: tile.window, size_constraints: state.limits(tile.window) };
    let at = infos.index_of(told);
    assert(infos[at].handle == tile.window);
    lemma_limits_told(state, infos, tile.window);
    if layout.kind is Dwindle {
        crate::tile_laws::tiles_are_as_large_as_windows_need_them(
            monitor.work_area,
            infos,
            layout,
            cursor,
            remembered(state.dwindle_splits, state.split_key(monitor)),
            i,
        );
    } else {
        crate::tile_laws::tiles_are_as_large_as_windows_need_them(
            monitor.work_area,
            infos,
            layout,
            None,
            Seq::empty(),
            i,
        );
    }
}

/// Only a dwindle layout minds the cursor, and the splits that are remembered: those of the workspace that
/// the monitor shows, on that monitor. What is remembered of others does not matter.
pub proof fn only_dwindle_layouts_have_a_memory(
    state: DaemonView,
    splits: Map<(u16, u64), Seq<DwindleSplit>>,
    monitor: MonitorInfo,
    handles: Seq<WindowHandle>,
    layout: LayoutConfig,
    cursor: Option<Point>,
    elsewhere: Option<Point>,
)
    ensures
        ({
            let key = (state.workspaces.active_on(monitor.id).0, monitor.id.0);
            let other = DaemonView { dwindle_splits: splits, ..state };
            let infos = state.layout_infos(handles);
            &&& !(layout.kind is Dwindle) ==> state.preview(monitor, handles, layout, cursor)
                == other.preview(monitor, handles, layout, elsewhere)
            &&& layout.kind is Dwindle && splits.contains_key(key) ==> other.preview(
                monitor,
                handles,
                layout,
                cursor,
            ) == layout_tiles(monitor.work_area, infos, layout, cursor, splits[key])
            &&& layout.kind is Dwindle && !splits.contains_key(key) ==> other.preview(
                monitor,
                handles,
                layout,
                cursor,
            ) == layout_tiles(monitor.work_area, infos, layout, cursor, Seq::empty())
        }),
{
    lemma_same_infos(state, DaemonView { dwindle_splits: splits, ..state }, handles);
}

proof fn lemma_same_infos(state: DaemonView, other: DaemonView, handles: Seq<WindowHandle>)
    requires
        other.windows == state.windows,
        other.size_constraints == state.size_constraints,
        other.learned == state.learned,
    ensures
        other.layout_infos(handles) == state.layout_infos(handles),
    decreases handles.len(),
{
    if handles.len() > 0 {
        lemma_same_infos(state, other, handles.drop_last());
    }
}

/// A window is dropped among the other windows that are tiled on the monitor, never beside itself.
pub proof fn window_is_not_dropped_beside_itself(
    state: DaemonView,
    window: WindowHandle,
    other: WindowHandle,
    monitor: MonitorInfo,
    monitors: Seq<MonitorInfo>,
)
    ensures
        !state.drop_targets(window, monitor, monitors).contains(window),
        other != window ==> (state.drop_targets(window, monitor, monitors).contains(other)
            <==> state.tiled_on(monitor, monitors).contains(other)),
{
    lemma_filter_holds(state.tile_order, state.is_drop_target(window, monitor, monitors), window);
    lemma_filter_holds(state.tile_order, state.is_drop_target(window, monitor, monitors), other);
    lemma_filter_holds(state.tile_order, state.is_tiled_on(monitor, monitors), other);
}

/// A window that is dropped into a dwindle layout is remembered as the one that joined last: it split the
/// tile under the point, or the closest one, at the edge that the point is drawn to. What is remembered of
/// other workspaces and monitors stays.
pub proof fn dropped_window_splits_the_tile_under_it(
    state: DaemonView,
    window: WindowHandle,
    monitors: Seq<MonitorInfo>,
    monitor: MonitorInfo,
    rect: Rect,
    cursor: Option<Point>,
    target: TileAssignment,
)
    requires
        state.drop_monitor(rect, cursor, monitors) == Some(monitor),
        ({
            let put = DaemonView {
                overrides: state.overrides.insert(window.0, monitor.id),
                ..state
            };
            let targets = put.drop_targets(window, monitor, monitors);
            let layout = state.config.spec_layout(monitor, state.workspaces.active_on(monitor.id));
            &&& layout.kind is Dwindle
            &&& tile_at(drop_point(rect, cursor), put.target_tiles(targets, monitor, layout)) == Some(
                target,
            )
        }),
    ensures
        ({
            let after = state.dropped(window, monitors, rect, cursor).0;
            let key = (state.workspaces.active_on(monitor.id).0, monitor.id.0);
            let splits = after.dwindle_splits[key];
            let last = splits[splits.len() - 1];
            &&& after.dwindle_splits.contains_key(key)
            &&& splits.len() > 0
            &&& last.new_window == window
            &&& last.target == target.window
            &&& last.direction == drawn_to(target.rect, drop_point(rect, cursor))
            &&& after.dwindle_splits.remove(key) == state.dwindle_splits.remove(key)
        }),
{
    let after = state.dropped(window, monitors, rect, cursor).0;
    let key = (state.workspaces.active_on(monitor.id).0, monitor.id.0);
    assert(after.dwindle_splits.remove(key) =~= state.dwindle_splits.remove(key));
}

/// A window that is let go is dragged no more, and a drag of another window goes on. A window that floats
/// and did not give way, or does not come back, stays as it was and nothing is tiled for its sake.
pub proof fn floating_window_stays_where_it_is_let_go(
    state: DaemonView,
    window: WindowHandle,
    monitors: Seq<MonitorInfo>,
    context: Option<DropContext>,
)
    ensures
        ({
            let (after, tiles) = state.movesize_ended(window, monitors, context);
            let floats = state.participation.contains_key(window.0)
                && state.participation[window.0] == WindowParticipation::Floating;
            &&& state.interactive_window() == Some(window) ==> after.interactive_drag is None
            &&& state.interactive_window() != Some(window) ==> after.interactive_drag
                == state.interactive_drag
            &&& floats && !state.promoted.contains_key(window.0) ==> {
                &&& !tiles
                &&& after.participation == state.participation
                &&& after.tile_order == state.tile_order
                &&& after.overrides == state.overrides
                &&& after.dwindle_splits == state.dwindle_splits
            }
        }),
{
}

proof fn lemma_shown_where_it_was(
    workspaces: WorkspaceView,
    from: WorkspaceId,
    to: WorkspaceId,
    keep: spec_fn(WorkspaceVisibilityChange) -> bool,
    i: int,
)
    requires
        0 <= i < workspaces.shown_by(from, to).filter(keep).len(),
    ensures
        ({
            let change = workspaces.shown_by(from, to).filter(keep)[i];
            workspaces.windows.contains_key(change.window.0) ==> change.restore_rect
                == workspaces.windows[change.window.0].last_rect
        }),
{
    let shown = workspaces.shown_by(from, to);
    let change = shown.filter(keep)[i];
    assert(shown.filter(keep).contains(change));
    lemma_filter_holds(shown, keep, change);
    let at = shown.index_of(change);
    let bound = ordered_handles(workspaces.windows).filter(workspaces.is_bound_to(to));
    assert(shown == bound.map_values(workspaces.restored()));
    assert(shown[at] == workspaces.restored()(bound[at]));
}

/// A window that is being dragged is taken along by a switch to another workspace: it is on that workspace
/// then, keeps the focus, is not hidden, and is shown where it is, if it belongs to the same monitor there. The workspace
/// is shown on the monitor that the window belongs to.
#[verifier::rlimit(40)]
pub proof fn dragged_window_is_taken_along(
    state: DaemonView,
    workspace: WorkspaceId,
    monitor: MonitorId,
    monitors: Seq<MonitorInfo>,
    cursor: Option<Point>,
    window: WindowHandle,
)
    requires
        ({
            let synced = state.synced(monitors);
            &&& synced.dragged_window() == Some(window)
            &&& synced.movable(window, monitors)
            &&& synced.owner(window, monitors) == Some(monitor)
            &&& synced.windows.contains_key(window.0)
            &&& synced.workspaces.windows.contains_key(window.0)
            &&& synced.workspaces.windows[window.0].workspace != workspace
        }),
    ensures
        ({
            let synced = state.synced(monitors);
            let (after, plan) = state.commanded(
                DaemonCommand::SwitchWorkspace(workspace),
                monitors,
                cursor,
            );
            &&& plan.focus == Some(window)
            &&& after.foreground == Some(window)
            &&& after.workspaces.windows[window.0].workspace == workspace
            &&& after.workspaces.active_on(monitor) == workspace
            &&& after.workspaces.focused == Some(monitor)
            &&& !plan.hide.contains(window)
            &&& synced.with_rect_noted(window).owner(window, monitors) == Some(monitor) ==> exists|i: int|
                0 <= i < plan.show.len() && (#[trigger] plan.show[i]).window == window
                    && plan.show[i].restore_rect == Some(synced.windows[window.0].rect)
        }),
{
    let synced = state.synced(monitors);
    let noted = synced.with_rect_noted(window);
    let before = noted.with_window_on(window, workspace);
    assert(synced.switch_monitor(monitors) == Some(monitor));
    assert(synced.taken_along(Some(monitor), monitors) == Some(window));
    assert(state.before_switch(workspace, monitors) == before);
    assert(state.moved_along(workspace, monitors) == Some(window));
    let switched = before.with_workspace_shown(Some(monitor), workspace);
    assert(state.just_switched(workspace, monitors) == switched);
    let after = state.after_switch(workspace, monitors);
    let focused = DaemonView { foreground: Some(window), ..after };
    let from = before.shown_before(Some(monitor));
    reveal(DaemonView::switching);
    tiling_keeps_windows_and_workspaces(focused, monitors, cursor);
    lemma_filter_holds(
        before.workspaces.hidden_by(from, workspace),
        switched.is_hidden_on(Some(window), Some(monitor), monitors),
        window,
    );
    let shown = before.workspaces.shown_by(from, workspace).filter(
        switched.is_shown_on(Some(monitor), monitors),
    );
    let show = state.switch_shows(workspace, monitors);
    assert(switched.owner(window, monitors) == noted.owner(window, monitors));
    assert(switched.workspaces.windows[window.0].last_rect == Some(synced.windows[window.0].rect));
    if shows_window(shown, window) {
        let i = choose|i: int| 0 <= i < shown.len() && (#[trigger] shown[i]).window == window;
        lemma_shown_where_it_was(
            before.workspaces,
            from,
            workspace,
            switched.is_shown_on(Some(monitor), monitors),
            i,
        );
        assert(show[i].window == window);
        assert(show[i].restore_rect == Some(synced.windows[window.0].rect));
    } else if noted.owner(window, monitors) == Some(monitor) {
        assert(show == shown.push(switched.shown_again(window)));
        assert(show[shown.len() as int].window == window);
        assert(show[shown.len() as int].restore_rect == Some(synced.windows[window.0].rect));
    }
    let (end, plan) = state.commanded(DaemonCommand::SwitchWorkspace(workspace), monitors, cursor);
    assert(plan.focus == Some(window));
    assert(plan.show == show);
    assert(end.workspaces == after.workspaces);
    assert(after.workspaces == switched.workspaces);
    assert(end.workspaces.windows[window.0].workspace == workspace);
    assert(end.workspaces.active_on(monitor) == workspace);
    assert(end.workspaces.focused == Some(monitor));
    assert(!plan.hide.contains(window));
}

proof fn lemma_changes_for(
    state: DaemonView,
    changes: Seq<WorkspaceVisibilityChange>,
    windows: Seq<WindowHandle>,
    window: WindowHandle,
)
    ensures
        ({
            let all = state.with_changes_for(changes, windows);
            &&& windows.contains(window) || shows_window(changes, window) ==> shows_window(all, window)
            &&& forall|i: int|
                0 <= i < all.len() ==> changes.contains(#[trigger] all[i]) || all[i]
                    == state.shown_again(all[i].window)
        }),
    decreases windows.len(),
{
    let all = state.with_changes_for(changes, windows);
    if windows.len() > 0 {
        let rest = windows.drop_last();
        lemma_changes_for(state, changes, rest, window);
        let before = state.with_changes_for(changes, rest);
        if windows.contains(window) && window != windows.last() {
            let at = windows.index_of(window);
            assert(rest[at] == window);
        }
        if shows_window(before, window) {
            let i = choose|i: int| 0 <= i < before.len() && (#[trigger] before[i]).window == window;
            assert(all[i].window == window);
        }
        if !shows_window(before, windows.last()) {
            assert(all[before.len() as int].window == windows.last());
        }
        assert forall|i: int| 0 <= i < all.len() implies changes.contains(#[trigger] all[i]) || all[i]
            == state.shown_again(all[i].window) by {
            if i < before.len() {
                assert(all[i] == before[i]);
            }
        }
    }
}

proof fn lemma_floating_moves(
    state: DaemonView,
    windows: Seq<WindowHandle>,
    target: MonitorId,
    monitors: Seq<MonitorInfo>,
    window: WindowHandle,
    rect: Rect,
)
    ensures
        state.floating_moves(windows, target, monitors).contains(TileAssignment { window, rect })
            <==> windows.contains(window) && state.floats(window) && state.translated_rect(
            window,
            state.owner(window, monitors),
            target,
            monitors,
        ) == Some(rect),
    decreases windows.len(),
{
    let moves = state.floating_moves(windows, target, monitors);
    let tile = TileAssignment { window, rect };
    if windows.len() > 0 {
        let rest = windows.drop_last();
        lemma_floating_moves(state, rest, target, monitors, window, rect);
        let before = state.floating_moves(rest, target, monitors);
        if windows.contains(window) && window != windows.last() {
            let at = windows.index_of(window);
            assert(rest[at] == window);
        }
        if rest.contains(window) {
            let at = rest.index_of(window);
            assert(windows[at] == window);
        }
        assert(windows[windows.len() - 1] == windows.last());
        if before.contains(tile) {
            let at = before.index_of(tile);
            assert(moves[at] == tile);
        }
        if moves.contains(tile) {
            let at = moves.index_of(tile);
            if at < before.len() {
                assert(before[at] == tile);
            }
        }
        if moves.len() > before.len() {
            assert(moves[before.len() as int] == moves.last());
        }
    }
}

/// The windows of a workspace that is sent to a monitor, as far as they may be moved, are shown there, each
/// with the rectangle where it was last seen. One that floats is moved over itself, as it stood on its own
/// monitor.
#[verifier::rlimit(50)]
pub proof fn sent_windows_are_shown_and_moved_over(
    state: DaemonView,
    workspace: WorkspaceId,
    selector: MonitorSelector,
    target: MonitorId,
    monitors: Seq<MonitorInfo>,
    cursor: Option<Point>,
    window: WindowHandle,
    rect: Rect,
)
    requires
        state.selected(selector, monitors) == Some(target),
        ordered_handles(state.workspaces.windows).contains(window),
        state.workspaces.windows.contains_key(window.0),
        state.workspaces.windows[window.0].workspace == workspace,
        state.safe_to_move(window, monitors),
    ensures
        ({
            let (after, plan) = state.commanded(
                DaemonCommand::SendWorkspaceToMonitor { workspace, monitor: selector },
                monitors,
                cursor,
            );
            &&& exists|i: int|
                0 <= i < plan.show.len() && (#[trigger] plan.show[i]).window == window
                    && plan.show[i].restore_rect == state.workspaces.windows[window.0].last_rect
            &&& state.floats(window) && state.translated_rect(
                window,
                state.owner(window, monitors),
                target,
                monitors,
            ) == Some(rect) ==> plan.moves.contains(TileAssignment { window, rect })
            &&& !plan.quit && !plan.reload
        }),
{
    reveal(DaemonView::sending);
    let windows = ordered_handles(state.workspaces.windows).filter(state.is_sent(workspace, monitors));
    lemma_filter_holds(
        ordered_handles(state.workspaces.windows),
        state.is_sent(workspace, monitors),
        window,
    );
    lemma_floating_moves(state, windows, target, monitors, window, rect);
    let put = state.with_windows_on(windows, target);
    lemma_put_keeps(state, windows, target);
    let after = put.with_workspace_shown(Some(target), workspace);
    let from = put.workspaces.active_on(target);
    let shown = put.workspaces.shown_by(from, workspace).filter(
        after.is_shown_on(Some(target), monitors),
    );
    lemma_changes_for(after, shown, windows, window);
    let show = after.with_changes_for(shown, windows);
    let i = choose|i: int| 0 <= i < show.len() && (#[trigger] show[i]).window == window;
    if shown.contains(show[i]) {
        let at = shown.index_of(show[i]);
        lemma_shown_where_it_was(
            put.workspaces,
            from,
            workspace,
            after.is_shown_on(Some(target), monitors),
            at,
        );
    }
    let (end, plan) = state.commanded(
        DaemonCommand::SendWorkspaceToMonitor { workspace, monitor: selector },
        monitors,
        cursor,
    );
    assert(plan.show == show);
    let focused = DaemonView { foreground: after.candidate_on(target, monitors), ..after };
    let tiles = focused.all_tiles(monitors, cursor);
    let floating = state.floating_moves(windows, target, monitors);
    assert(plan.moves == tiles + floating);
    if floating.contains(TileAssignment { window, rect }) {
        let at = floating.index_of(TileAssignment { window, rect });
        assert(plan.moves[tiles.len() + at] == TileAssignment { window, rect });
    }
}

proof fn lemma_put_keeps(state: DaemonView, windows: Seq<WindowHandle>, target: MonitorId)
    ensures
        state.with_windows_on(windows, target).workspaces == state.workspaces,
    decreases windows.len(),
{
    if windows.len() > 0 {
        lemma_put_keeps(state, windows.drop_last(), target);
    }
}

/// Tiling a monitor remembers its splits where its layout is a dwindle layout and forgets them otherwise; what
/// is remembered of other workspaces and monitors stays.
pub proof fn splits_are_remembered_for_dwindle_layouts(
    state: DaemonView,
    monitor: MonitorInfo,
    monitors: Seq<MonitorInfo>,
    cursor: Option<Point>,
)
    ensures
        ({
            let after = state.after_tiling_on(monitor, monitors, cursor);
            let key = (state.workspaces.active_on(monitor.id).0, monitor.id.0);
            let layout = state.config.spec_layout(monitor, state.workspaces.active_on(monitor.id));
            &&& after.dwindle_splits.contains_key(key) <==> layout.kind is Dwindle
            &&& after.dwindle_splits.remove(key) == state.dwindle_splits.remove(key)
        }),
{
    let plan = state.overflow_on(monitor, monitors, cursor);
    lemma_promoting_keeps_ground(state, plan.1);
    let after = state.after_tiling_on(monitor, monitors, cursor);
    let key = (state.workspaces.active_on(monitor.id).0, monitor.id.0);
    assert(after.dwindle_splits.remove(key) =~= state.dwindle_splits.remove(key));
}

/// A window that floated for a drag and is let go belongs to the monitor under the cursor, or to the one that
/// it is over where the cursor is not known; where nothing is known of how it was let go, it is taken to be
/// where it was noted.
pub proof fn window_let_go_belongs_where_it_was_dropped(
    state: DaemonView,
    window: WindowHandle,
    monitors: Seq<MonitorInfo>,
    rect: Rect,
    cursor: Option<Point>,
)
    requires
        monitors.len() > 0,
        state.takes_part(window) == WindowParticipation::TemporarilyFloating,
    ensures
        ({
            let context = DropContext { rect, cursor };
            let after = state.movesize_ended(window, monitors, Some(context)).0;
            &&& after.overrides.contains_key(window.0)
            &&& Some(after.overrides[window.0]) == match cursor {
                Some(point) => monitor_of_point(point, monitors),
                None => monitor_of_rect(rect, monitors),
            }
        }),
        state.windows.contains_key(window.0) ==> {
            let after = state.movesize_ended(window, monitors, None).0;
            &&& after.overrides.contains_key(window.0)
            &&& Some(after.overrides[window.0]) == monitor_of_rect(state.windows[window.0].rect, monitors)
        },
{
    let finished = state.with_drag_finished(window);
    window_is_dropped_where_the_cursor_is(finished, window, rect, cursor, monitors);
    window_is_dropped_where_the_cursor_is(
        finished,
        window,
        state.windows[window.0].rect,
        None,
        monitors,
    );
}

/// A window that was dragged with the modifiers, and floated for that only, belongs to the monitor under the
/// cursor when it is let go.
pub proof fn window_dragged_with_modifiers_belongs_where_the_cursor_is(
    state: DaemonView,
    drag: ActiveModifierDrag,
    cursor: Point,
    accepted: Rect,
    monitors: Seq<MonitorInfo>,
)
    requires
        monitors.len() > 0,
        drag.started_temporary_float,
        state.takes_part(drag.window) == WindowParticipation::TemporarilyFloating,
    ensures
        ({
            let after = state.modifier_drag_dropped(drag, cursor, accepted, monitors).0;
            &&& after.overrides.contains_key(drag.window.0)
            &&& Some(after.overrides[drag.window.0]) == monitor_of_point(cursor, monitors)
            &&& !after.participation.contains_key(drag.window.0)
        }),
{
    let seen = state.with_rect_seen(drag.window, accepted, monitors);
    assert(seen.participation == state.participation);
    window_let_go_belongs_where_it_was_dropped(seen, drag.window, monitors, accepted, Some(cursor));
    crate::daemon_drag::dragged_window_is_tiled_again(
        seen,
        drag.window,
        monitors,
        Some(DropContext { rect: accepted, cursor: Some(cursor) }),
    );
}

} // verus!
