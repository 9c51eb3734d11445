//! What holds of the tiles: only windows that may be tiled get one, the tiles fit, and windows that
//! give way float.

use vstd::prelude::*;

use crate::commands::FocusDirection;
use crate::daemon_state::DaemonView;
use crate::daemon_tiling::lemma_next_overflow;
use crate::dwindle::DwindleSplit;
use crate::dwindle_laws::dwindle_places_each_window;
use crate::geometry::{MonitorInfo, Point, Rect, TileAssignment, WindowHandle};
use crate::handles::{
    first_position, lemma_contains_push, lemma_filter_holds, lemma_position, lemma_without,
    member_of, missing_from, realigned, without,
};
use crate::layout::{LayoutConfig, LayoutKind, WindowParticipation};
use crate::layout_laws::lemma_filter;
use crate::monitor_layout::lemma_swap_keeps_windows;
use crate::tile::laid_out;
use crate::tiling::{balanced, layout_handles, layout_tiles, tiles_fit, WindowLayoutInfo};

verus! {

/// Every tile is that of one of the windows.
pub proof fn lemma_tiles_are_of_windows(
    work_area: Rect,
    windows: Seq<WindowHandle>,
    config: LayoutConfig,
    cursor_position: Option<Point>,
    splits: Seq<DwindleSplit>,
    at: int,
)
    requires
        windows.no_duplicates(),
        windows.len() <= usize::MAX,
        0 <= at < laid_out(work_area, windows, config, cursor_position, splits).len(),
    ensures
        windows.contains(laid_out(work_area, windows, config, cursor_position, splits)[at].window),
{
    let tiles = laid_out(work_area, windows, config, cursor_position, splits);
    match config.kind {
        LayoutKind::Dwindle => {
            dwindle_places_each_window(work_area, windows, config, cursor_position, splits);
            let placed = tiles.map_values(|tile: TileAssignment| tile.window);
            assert(placed[at] == tiles[at].window);
        },
        _ => {
            assert(tiles[at].window == windows[at]);
        },
    }
}

/// Without windows there are no tiles.
pub proof fn lemma_no_windows_no_tiles(
    work_area: Rect,
    config: LayoutConfig,
    cursor_position: Option<Point>,
    splits: Seq<DwindleSplit>,
)
    ensures
        layout_tiles(work_area, Seq::empty(), config, cursor_position, splits).len() == 0,
{
    reveal(layout_tiles);
    assert(layout_handles(Seq::empty()) =~= Seq::empty());
}

/// A tile of windows that are to be placed is that of one of them.
pub proof fn lemma_layout_tile(
    work_area: Rect,
    windows: Seq<WindowLayoutInfo>,
    config: LayoutConfig,
    cursor_position: Option<Point>,
    splits: Seq<DwindleSplit>,
    at: int,
)
    requires
        layout_handles(windows).no_duplicates(),
        windows.len() <= usize::MAX,
        0 <= at < layout_tiles(work_area, windows, config, cursor_position, splits).len(),
    ensures
        layout_handles(windows).contains(
            layout_tiles(work_area, windows, config, cursor_position, splits)[at].window,
        ),
{
    reveal(layout_tiles);
    let laid = laid_out(work_area, layout_handles(windows), config, cursor_position, splits);
    lemma_tiles_are_of_windows(
        work_area,
        layout_handles(windows),
        config,
        cursor_position,
        splits,
        at,
    );
    assert(balanced(windows, laid, config)[at].window == laid[at].window);
}

proof fn lemma_infos(state: DaemonView, handles: Seq<WindowHandle>)
    requires
        handles.no_duplicates(),
    ensures
        layout_handles(state.layout_infos(handles)).no_duplicates(),
        state.layout_infos(handles).len() <= handles.len(),
        forall|window: WindowHandle| #[trigger]
            layout_handles(state.layout_infos(handles)).contains(window) ==> handles.contains(window),
    decreases handles.len(),
{
    if handles.len() > 0 {
        let rest = handles.drop_last();
        lemma_infos(state, rest);
        let before = layout_handles(state.layout_infos(rest));
        let after = layout_handles(state.layout_infos(handles));
        lemma_contains_push(rest, handles.last());
        assert(handles =~= rest.push(handles.last()));
        if state.windows.contains_key(handles.last().0) {
            assert(after =~= before.push(handles.last()));
            lemma_contains_push(before, handles.last());
            assert(!rest.contains(handles.last())) by {
                if rest.contains(handles.last()) {
                    let i = rest.index_of(handles.last());
                    assert(handles[i] == handles[handles.len() - 1]);
                }
            }
            assert(!before.contains(handles.last()));
            assert forall|i: int, j: int|
                0 <= i < after.len() && 0 <= j < after.len() && i != j implies after[i] != after[j] by {
                if i < before.len() && j < before.len() {
                    assert(before[i] != before[j]);
                } else if i < before.len() {
                    assert(before.contains(before[i]));
                } else {
                    assert(before.contains(before[j]));
                }
            }
        } else {
            assert(after =~= before);
        }
        assert forall|window: WindowHandle| #[trigger] after.contains(window) implies handles.contains(
            window,
        ) by {
            if before.contains(window) {
                assert(rest.contains(window));
            }
        }
    }
}

/// Whether two states agree in what decides how windows are laid out.
pub open spec fn same_ground(a: DaemonView, b: DaemonView) -> bool {
    &&& a.windows == b.windows
    &&& a.size_constraints == b.size_constraints
    &&& a.learned == b.learned
    &&& a.dwindle_splits == b.dwindle_splits
    &&& a.workspaces == b.workspaces
    &&& a.config == b.config
    &&& a.overrides == b.overrides
    &&& a.tile_order == b.tile_order
    &&& a.foreground == b.foreground
    &&& a.game_mode == b.game_mode
}

/// Floating windows because the tiles do not fit leaves all else as it was.
pub proof fn lemma_promoting_keeps_ground(state: DaemonView, windows: Seq<WindowHandle>)
    ensures
        same_ground(state, state.promoting(windows)),
    decreases windows.len(),
{
    if windows.len() > 0 {
        lemma_promoting_keeps_ground(state, windows.drop_last());
    }
}

proof fn lemma_same_infos(a: DaemonView, b: DaemonView, handles: Seq<WindowHandle>)
    requires
        same_ground(a, b),
    ensures
        a.layout_infos(handles) == b.layout_infos(handles),
    decreases handles.len(),
{
    if handles.len() > 0 {
        lemma_same_infos(a, b, handles.drop_last());
    }
}

proof fn lemma_fitted(
    state: DaemonView,
    monitor: MonitorInfo,
    windows: Seq<WindowHandle>,
    overflow: Seq<WindowHandle>,
    layout: LayoutConfig,
    cursor: Option<Point>,
)
    requires
        windows.no_duplicates(),
    ensures
        ({
            let plan = state.fitted(monitor, windows, overflow, layout, cursor);
            &&& tiles_fit(monitor.work_area, state.preview(monitor, plan.0, layout, cursor))
            &&& plan.0.no_duplicates()
            &&& plan.0.len() <= windows.len()
            &&& forall|window: WindowHandle| #[trigger]
                plan.0.contains(window) ==> windows.contains(window)
            &&& forall|window: WindowHandle| #[trigger]
                plan.1.contains(window) <==> overflow.contains(window) || (windows.contains(window)
                    && !plan.0.contains(window))
        }),
    decreases windows.len(),
{
    let plan = state.fitted(monitor, windows, overflow, layout, cursor);
    if !tiles_fit(monitor.work_area, state.preview(monitor, windows, layout, cursor)) {
        lemma_next_overflow(state, windows);
        match state.next_overflow(windows) {
            None => {
                assert(windows =~= Seq::empty());
                assert(state.layout_infos(windows) =~= Seq::empty());
                lemma_no_windows_no_tiles(
                    monitor.work_area,
                    layout,
                    cursor,
                    crate::split_memory::remembered(state.dwindle_splits, state.split_key(monitor)),
                );
                lemma_no_windows_no_tiles(monitor.work_area, layout, None, Seq::empty());
            },
            Some(window) => {
                lemma_without(windows, window);
                lemma_filter(windows, crate::handles::other_than(window));
                let rest = without(windows, window);
                lemma_fitted(state, monitor, rest, overflow.push(window), layout, cursor);
                lemma_contains_push(overflow, window);
                assert forall|other: WindowHandle| #[trigger]
                    plan.1.contains(other) <==> overflow.contains(other) || (windows.contains(other)
                        && !plan.0.contains(other)) by {
                    assert(rest.contains(other) <==> windows.contains(other) && other != window);
                    if other == window {
                        assert(!plan.0.contains(other));
                    }
                }
            },
        }
    }
}

/// Whether a window may be tiled on a monitor: it takes part in the layout, it is on the workspace that
/// the monitor shows, and neither the base filter nor a rule nor the list of games keeps it out.
pub open spec fn may_be_tiled(state: DaemonView, window: WindowHandle, monitor: MonitorInfo) -> bool {
    &&& state.takes_part(window) == WindowParticipation::Tiled
    &&& state.on_monitor(window, monitor.id)
    &&& state.windows.contains_key(window.0)
    &&& state.windows[window.0].refusal_when_hidden() is None
    &&& state.allowed(state.windows[window.0])
}

/// Every tile of a monitor is that of a window that may be tiled there: floating windows, windows of
/// other workspaces, windows that are not managed, and games get no tile.
pub proof fn only_tiled_windows_get_tiles(
    state: DaemonView,
    monitor: MonitorInfo,
    monitors: Seq<MonitorInfo>,
    cursor: Option<Point>,
    at: int,
)
    requires
        state.tile_order.no_duplicates(),
        state.tile_order.len() <= usize::MAX,
        0 <= at < state.tiles_on(monitor, monitors, cursor).len(),
    ensures
        may_be_tiled(state, state.tiles_on(monitor, monitors, cursor)[at].window, monitor),
        state.tile_order.contains(state.tiles_on(monitor, monitors, cursor)[at].window),
{
    let plan = state.overflow_on(monitor, monitors, cursor);
    let after = state.promoting(plan.1);
    let tiled = state.tiled_on(monitor, monitors);
    let window = state.tiles_on(monitor, monitors, cursor)[at].window;
    lemma_filter(state.tile_order, state.is_tiled_on(monitor, monitors));
    lemma_fitted(state, monitor, tiled, Seq::empty(), state.layout_of(monitor), cursor);
    lemma_infos(after, plan.0);
    if state.layout_of(monitor).kind is Dwindle {
        lemma_layout_tile(
            monitor.work_area,
            after.layout_infos(plan.0),
            state.layout_of(monitor),
            cursor,
            crate::split_memory::remembered(after.dwindle_splits, after.split_key(monitor)),
            at,
        );
    } else {
        lemma_layout_tile(
            monitor.work_area,
            after.layout_infos(plan.0),
            state.layout_of(monitor),
            None,
            Seq::empty(),
            at,
        );
    }
    assert(plan.0.contains(window));
    assert(tiled.contains(window));
    lemma_filter_holds(state.tile_order, state.is_tiled_on(monitor, monitors), window);
}

/// The tiles of a monitor lie in its work area.
pub proof fn tiles_fit_their_monitor(
    state: DaemonView,
    monitor: MonitorInfo,
    monitors: Seq<MonitorInfo>,
    cursor: Option<Point>,
)
    requires
        state.tile_order.no_duplicates(),
    ensures
        tiles_fit(monitor.work_area, state.tiles_on(monitor, monitors, cursor)),
{
    let plan = state.overflow_on(monitor, monitors, cursor);
    let after = state.promoting(plan.1);
    lemma_filter(state.tile_order, state.is_tiled_on(monitor, monitors));
    lemma_fitted(
        state,
        monitor,
        state.tiled_on(monitor, monitors),
        Seq::empty(),
        state.layout_of(monitor),
        cursor,
    );
    lemma_promoting_keeps_ground(state, plan.1);
    lemma_same_infos(state, after, plan.0);
}

proof fn lemma_promoting(state: DaemonView, windows: Seq<WindowHandle>, window: WindowHandle)
    ensures
        windows.contains(window) ==> state.promoting(windows).floats(window),
        !windows.contains(window) ==> state.promoting(windows).takes_part(window) == state.takes_part(
            window,
        ),
    decreases windows.len(),
{
    if windows.len() > 0 {
        lemma_promoting(state, windows.drop_last(), window);
        lemma_contains_push(windows.drop_last(), windows.last());
        assert(windows =~= windows.drop_last().push(windows.last()));
    }
}

/// When a monitor is tiled, each of its tiled windows either stays among those that are placed, or
/// floats from then on.
pub proof fn windows_that_give_way_float(
    state: DaemonView,
    monitor: MonitorInfo,
    monitors: Seq<MonitorInfo>,
    cursor: Option<Point>,
    window: WindowHandle,
)
    requires
        state.tile_order.no_duplicates(),
        state.tiled_on(monitor, monitors).contains(window),
    ensures
        state.overflow_on(monitor, monitors, cursor).0.contains(window)
            ==> state.after_tiling_on(monitor, monitors, cursor).takes_part(window)
            == WindowParticipation::Tiled,
        !state.overflow_on(monitor, monitors, cursor).0.contains(window)
            ==> state.after_tiling_on(monitor, monitors, cursor).floats(window),
{
    let plan = state.overflow_on(monitor, monitors, cursor);
    lemma_filter(state.tile_order, state.is_tiled_on(monitor, monitors));
    lemma_fitted(
        state,
        monitor,
        state.tiled_on(monitor, monitors),
        Seq::empty(),
        state.layout_of(monitor),
        cursor,
    );
    lemma_promoting(state, plan.1, window);
    lemma_filter_holds(state.tile_order, state.is_tiled_on(monitor, monitors), window);
}

/// A window is tiled on one monitor at most.
pub proof fn window_is_tiled_on_one_monitor(
    state: DaemonView,
    window: WindowHandle,
    first: MonitorInfo,
    second: MonitorInfo,
    monitors: Seq<MonitorInfo>,
)
    requires
        state.tiled_on(first, monitors).contains(window),
        state.tiled_on(second, monitors).contains(window),
    ensures
        first.id == second.id,
{
    lemma_filter_holds(state.tile_order, state.is_tiled_on(first, monitors), window);
    lemma_filter_holds(state.tile_order, state.is_tiled_on(second, monitors), window);
}

/// While a game pauses the layouts, nothing is placed and nothing changes.
pub proof fn paused_layouts_place_nothing(
    state: DaemonView,
    monitors: Seq<MonitorInfo>,
    cursor: Option<Point>,
)
    requires
        state.game_mode.pauses_layouts(),
    ensures
        state.all_tiles(monitors, cursor).len() == 0,
        state.retiled(monitors, cursor) == state,
{
}

/// While a game pauses one monitor, the other monitors are tiled as if it were not there.
pub proof fn paused_monitor_is_left_alone(
    state: DaemonView,
    done: Seq<MonitorInfo>,
    monitor: MonitorInfo,
    monitors: Seq<MonitorInfo>,
    cursor: Option<Point>,
)
    requires
        state.game_mode.pauses_monitor(monitor.id),
    ensures
        state.tiles(done.push(monitor), monitors, cursor) == state.tiles(done, monitors, cursor),
        state.after_tiling(done.push(monitor), monitors, cursor) == state.after_tiling(
            done,
            monitors,
            cursor,
        ),
{
    lemma_tiling_keeps(state, done, monitors, cursor);
    assert(done.push(monitor).drop_last() =~= done);
}

/// Tiling changes how windows take part, the remembered splits, and what is noted of windows that give
/// way; it leaves the windows, their order, the workspaces and the focus as they are.
pub proof fn lemma_tiling_keeps(
    state: DaemonView,
    done: Seq<MonitorInfo>,
    monitors: Seq<MonitorInfo>,
    cursor: Option<Point>,
)
    ensures
        ({
            let after = state.after_tiling(done, monitors, cursor);
            &&& after.windows == state.windows
            &&& after.size_constraints == state.size_constraints
            &&& after.learned == state.learned
            &&& after.workspaces == state.workspaces
            &&& after.config == state.config
            &&& after.overrides == state.overrides
            &&& after.tile_order == state.tile_order
            &&& after.foreground == state.foreground
            &&& after.game_mode == state.game_mode
        }),
    decreases done.len(),
{
    if done.len() > 0 {
        let before = state.after_tiling(done.drop_last(), monitors, cursor);
        lemma_tiling_keeps(state, done.drop_last(), monitors, cursor);
        lemma_promoting_keeps_ground(before, before.overflow_on(done.last(), monitors, cursor).1);
    }
}

/// Tiling leaves the windows, their order, the workspaces and the focus as they are.
pub proof fn tiling_keeps_windows_and_workspaces(
    state: DaemonView,
    monitors: Seq<MonitorInfo>,
    cursor: Option<Point>,
)
    ensures
        state.retiled(monitors, cursor).windows == state.windows,
        state.retiled(monitors, cursor).tile_order == state.tile_order,
        state.retiled(monitors, cursor).workspaces == state.workspaces,
        state.retiled(monitors, cursor).foreground == state.foreground,
        state.retiled(monitors, cursor).overrides == state.overrides,
{
    lemma_tiling_keeps(state, monitors, monitors, cursor);
}

/// Exchanging windows keeps the windows in the order of the tiles, each once.
pub proof fn swapping_keeps_the_windows(
    state: DaemonView,
    direction: FocusDirection,
    monitors: Seq<MonitorInfo>,
)
    requires
        state.tile_order.no_duplicates(),
    ensures
        state.swapped(direction, monitors).tile_order.no_duplicates(),
        forall|window: WindowHandle| #[trigger]
            state.swapped(direction, monitors).tile_order.contains(window)
                <==> state.tile_order.contains(window),
{
    if state.foreground is Some && state.manageable(state.foreground.unwrap(), monitors) {
        let current = state.foreground.unwrap();
        match state.focus_goes_to(direction, monitors) {
            Some(target) => {
                lemma_position(state.tile_order, current, 0);
                lemma_position(state.tile_order, target, 0);
                match (
                    first_position(state.tile_order, current),
                    first_position(state.tile_order, target),
                ) {
                    (Some(i), Some(j)) => {
                        lemma_swap_keeps_windows(state.tile_order, i, j);
                    },
                    _ => {},
                }
            },
            None => {},
        }
    }
}

/// A list that is brought in line with windows that are listed once lists each of them once.
pub proof fn realigned_list_has_no_duplicates(windows: Seq<WindowHandle>, all: Seq<WindowHandle>)
    requires
        windows.no_duplicates(),
        all.no_duplicates(),
    ensures
        realigned(windows, all).no_duplicates(),
{
    let kept = windows.filter(member_of(all));
    let late = all.filter(missing_from(kept));
    lemma_filter(windows, member_of(all));
    lemma_filter(all, missing_from(kept));
    let list = realigned(windows, all);
    assert forall|i: int, j: int|
        0 <= i < list.len() && 0 <= j < list.len() && i != j implies list[i] != list[j] by {
        if i < kept.len() && j < kept.len() {
            assert(kept[i] != kept[j]);
        } else if i >= kept.len() && j >= kept.len() {
            assert(late[i - kept.len()] != late[j - kept.len()]);
        } else if i < kept.len() {
            assert(kept.contains(kept[i]));
            assert(late.contains(late[j - kept.len()]));
        } else {
            assert(kept.contains(kept[j]));
            assert(late.contains(late[i - kept.len()]));
        }
    }
}

/// Floating a window and tiling it again, or the other way round, leaves all windows to take part as
/// they did, unless the window floated for a while only.
pub proof fn toggling_float_twice_changes_nothing(
    state: DaemonView,
    monitors: Seq<MonitorInfo>,
    window: WindowHandle,
)
    requires
        state.foreground matches Some(focused) ==> state.takes_part(focused)
            != WindowParticipation::TemporarilyFloating,
    ensures
        state.float_toggled(monitors).float_toggled(monitors).takes_part(window)
            == state.takes_part(window),
{
}

/// The focused window floats after its float was toggled exactly if it did not before.
pub proof fn toggling_float_changes_the_focused_window(state: DaemonView, monitors: Seq<MonitorInfo>)
    requires
        state.foreground is Some,
        state.manageable(state.foreground.unwrap(), monitors),
    ensures
        state.float_toggled(monitors).floats(state.foreground.unwrap()) == !state.floats(
            state.foreground.unwrap(),
        ),
{
}

} // verus!
