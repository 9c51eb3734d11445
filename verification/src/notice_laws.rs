//! What the daemon notices of windows that came, went, moved and were let go, and what it does about it.

use vstd::prelude::*;

use crate::daemon_borders::moved_last;
use crate::daemon_diff::SnapshotDiff;
use crate::daemon_drag::DragReading;
use crate::daemon_events::MovedOutcome;
use crate::daemon_feedback::RelayoutProgress;
use crate::daemon_snapshot::whole_millis;
use crate::daemon_state::{ActiveModifierDrag, DaemonState, DaemonView};
use crate::events::WindowEvent;
use crate::geometry::{MonitorInfo, Point, Rect, TileAssignment, WindowHandle};
use crate::handles::{lemma_filter_holds, lemma_position, ordered_handles};
use crate::layout::WindowParticipation;
use crate::monitors::monitor_of_rect;

verus! {

/// Whether a floating window is kept above the tiles: it belongs to a monitor whose layout does not rest,
/// is visible, and may be moved.
proof fn lemma_raised(state: DaemonView, monitors: Seq<MonitorInfo>, window: WindowHandle)
    ensures
        state.raised_in_order(monitors).contains(window) <==> state.is_raised(monitors)(window) && (
        state.tile_order.contains(window) || ordered_handles(state.windows).contains(window)),
{
    let listed = state.tile_order.filter(state.is_raised(monitors));
    let late = ordered_handles(state.windows).filter(state.is_raised_beside(listed, monitors));
    lemma_filter_holds(state.tile_order, state.is_raised(monitors), window);
    lemma_filter_holds(
        ordered_handles(state.windows),
        state.is_raised_beside(listed, monitors),
        window,
    );
    let all = listed + late;
    if listed.contains(window) {
        assert(all[listed.index_of(window)] == window);
    }
    if late.contains(window) {
        assert(all[listed.len() + late.index_of(window)] == window);
    }
    if all.contains(window) {
        let at = all.index_of(window);
        if at < listed.len() {
            assert(listed[at] == window);
        } else {
            assert(late[at - listed.len()] == window);
        }
    }
}

/// The windows that are kept above the tiles are those that float, belong to a monitor whose layout does
/// not rest, are visible and may be moved; none is while a game rests all layouts. The one with the
/// focus comes last, on top of the others.
#[verifier::rlimit(50)]
pub proof fn floating_windows_are_kept_above_the_tiles(
    state: DaemonView,
    monitors: Seq<MonitorInfo>,
    window: WindowHandle,
)
    requires
        ordered_handles(state.windows).contains(window),
    ensures
        state.game_mode.pauses_layouts() ==> state.raised(monitors).len() == 0,
        !state.game_mode.pauses_layouts() ==> (state.raised(monitors).contains(window) <==> {
            &&& state.participation.contains_key(window.0) && state.participation[window.0]
                != WindowParticipation::Tiled
            &&& state.owner(window, monitors) is Some
            &&& !state.game_mode.pauses_monitor(state.owner(window, monitors).unwrap())
            &&& state.visible(window, monitors)
            &&& state.safe_to_move(window, monitors)
        }),
        !state.game_mode.pauses_layouts() && state.foreground == Some(window) && state.raised(
            monitors,
        ).contains(window) ==> state.raised(monitors)[state.raised(monitors).len() - 1] == window,
{
    let list = state.raised_in_order(monitors);
    lemma_raised(state, monitors, window);
    lemma_moved_last(list, state.foreground, window);
}

proof fn lemma_moved_last(
    windows: Seq<WindowHandle>,
    last: Option<WindowHandle>,
    window: WindowHandle,
)
    ensures
        moved_last(windows, last).contains(window) <==> windows.contains(window),
        last == Some(window) && windows.contains(window) ==> moved_last(windows, last).last() == window,
{
    if let Some(top) = last {
        lemma_position(windows, top, 0);
        match crate::handles::first_position(windows, top) {
            Some(at) => {
                let moved = windows.remove(at).push(top);
                if windows.contains(window) {
                    let i = windows.index_of(window);
                    if i < at {
                        assert(moved[i] == window);
                    } else if i > at {
                        assert(moved[i - 1] == window);
                    } else {
                        assert(moved[moved.len() - 1] == window);
                    }
                }
                if moved.contains(window) {
                    let i = moved.index_of(window);
                    if i < at {
                        assert(windows[i] == window);
                    } else if i < moved.len() - 1 {
                        assert(windows[i + 1] == window);
                    } else {
                        assert(windows[at] == window);
                    }
                }
            },
            None => {
                if last == Some(window) && windows.contains(window) {
                    let i = windows.index_of(window);
                    assert(windows[i] == window);
                }
            },
        }
    }
}

/// Between two looks, the windows that are known only then were added, those known only before were
/// removed, and the focus changed if it is elsewhere.
pub proof fn windows_that_came_and_went_are_told(
    state: DaemonView,
    refreshed: DaemonView,
    monitors: Seq<MonitorInfo>,
    diff: SnapshotDiff,
    window: WindowHandle,
)
    requires
        state.is_diff(refreshed, monitors, diff),
    ensures
        diff.added@.contains(window) <==> ordered_handles(refreshed.windows).contains(window)
            && !state.windows.contains_key(window.0),
        diff.removed@.contains(window) <==> ordered_handles(state.windows).contains(window)
            && !refreshed.windows.contains_key(window.0),
        diff.foreground_changed <==> state.foreground != refreshed.foreground,
{
    lemma_filter_holds(
        ordered_handles(refreshed.windows),
        crate::daemon_diff::is_new_to(state.windows),
        window,
    );
    lemma_filter_holds(
        ordered_handles(state.windows),
        crate::daemon_diff::is_new_to(refreshed.windows),
        window,
    );
}

/// A window that was known before has changed if anything that is seen of it has, and has changed its
/// monitor if its rectangle is on another one than before.
pub proof fn windows_that_changed_are_noticed(
    state: DaemonView,
    refreshed: DaemonView,
    monitors: Seq<MonitorInfo>,
    window: WindowHandle,
)
    requires
        state.windows.contains_key(window.0),
    ensures
        ({
            let before = state.windows[window.0];
            let after = refreshed.windows[window.0];
            let changed = state.has_changed(refreshed)(window);
            let from = monitor_of_rect(before.rect, monitors);
            let to = monitor_of_rect(after.rect, monitors);
            &&& before.title@ != after.title@ ==> changed
            &&& before.class_name@ != after.class_name@ ==> changed
            &&& before.process_id != after.process_id ==> changed
            &&& before.is_visible != after.is_visible ==> changed
            &&& before.is_minimized != after.is_minimized ==> changed
            &&& before.is_dwm_cloaked != after.is_dwm_cloaked ==> changed
            &&& before.has_owner != after.has_owner ==> changed
            &&& before.is_tool_window != after.is_tool_window ==> changed
            &&& before.styles != after.styles ==> changed
            &&& before.rect != after.rect ==> changed
            &&& before == after && state.size_constraints == refreshed.size_constraints ==> !changed
            &&& state.has_changed_monitor(refreshed, monitors)(window) <==> from is Some && to is Some
                && from != to
        }),
{
}

/// Of the windows that were moved, each is noted where it is; and a monitor was changed if one of them
/// changed its own.
pub proof fn moved_windows_are_noted_one_by_one(
    state: DaemonView,
    windows: Seq<WindowHandle>,
    rects: Seq<Rect>,
    monitors: Seq<MonitorInfo>,
    window: WindowHandle,
    rect: Rect,
)
    requires
        windows.len() == rects.len(),
    ensures
        ({
            let noted = state.with_moved_windows(windows, rects, monitors);
            &&& state.with_moved_windows(windows.push(window), rects.push(rect), monitors)
                == noted.with_moved_window(window, rect, monitors)
            &&& state.some_change_monitor(windows.push(window), rects.push(rect), monitors)
                <==> state.some_change_monitor(windows, rects, monitors) || {
                let from = monitor_of_rect(noted.windows[window.0].rect, monitors);
                let to = monitor_of_rect(rect, monitors);
                from is Some && to is Some && from != to
            }
            &&& state.with_moved_windows(Seq::empty(), Seq::empty(), monitors) == state
            &&& !state.some_change_monitor(Seq::empty(), Seq::empty(), monitors)
        }),
{
    lemma_rects_beyond(state, windows, rects, rects.push(rect), monitors);
    assert(windows.push(window).drop_last() =~= windows);
}

proof fn lemma_rects_beyond(
    state: DaemonView,
    windows: Seq<WindowHandle>,
    rects: Seq<Rect>,
    more: Seq<Rect>,
    monitors: Seq<MonitorInfo>,
)
    requires
        windows.len() <= rects.len(),
        windows.len() <= more.len(),
        forall|i: int| 0 <= i < windows.len() ==> #[trigger] rects[i] == more[i],
    ensures
        state.with_moved_windows(windows, rects, monitors) == state.with_moved_windows(
            windows,
            more,
            monitors,
        ),
        state.some_change_monitor(windows, rects, monitors) == state.some_change_monitor(
            windows,
            more,
            monitors,
        ),
    decreases windows.len(),
{
    if windows.len() > 0 {
        lemma_rects_beyond(state, windows.drop_last(), rects, more, monitors);
    }
}

/// A window that is dragged is taken to be where the cursor has brought it, if the cursor is known, and
/// where it was noted otherwise; any other window is where it is found.
pub proof fn dragged_window_is_where_the_cursor_is(
    state: DaemonView,
    window: WindowHandle,
    cursor: Option<Point>,
    actual: Option<Rect>,
)
    requires
        state.windows.contains_key(window.0),
    ensures
        ({
            let dragged = state.interactive_drag is Some && state.interactive_drag.unwrap().window
                == window;
            &&& !dragged ==> state.moved_rect(window, true, cursor, actual) == actual
            &&& state.moved_rect(window, false, cursor, actual) == actual
            &&& dragged && cursor is None ==> state.moved_rect(window, true, cursor, actual) == Some(
                state.windows[window.0].rect,
            )
            &&& dragged ==> (cursor matches Some(point) ==> state.moved_rect(
                window,
                true,
                cursor,
                actual,
            ) == Some(
                crate::monitors::dragged(
                    state.interactive_drag.unwrap().start_rect,
                    state.interactive_drag.unwrap().start_cursor,
                    point,
                ),
            ))
        }),
{
}

/// A window that was dragged with the modifiers is noted where it was let go. If it floated for the drag
/// only, or gave way and may come back, its drag ends as any other; otherwise nothing else happens and
/// nothing is placed anew.
pub proof fn window_is_let_go_where_it_is(
    state: DaemonView,
    drag: ActiveModifierDrag,
    cursor: Point,
    accepted: Rect,
    monitors: Seq<MonitorInfo>,
)
    requires
        state.windows.contains_key(drag.window.0),
        !drag.started_temporary_float,
        !state.with_rect_seen(drag.window, accepted, monitors).may_come_back(drag.window),
    ensures
        ({
            let (after, placed) = state.modifier_drag_dropped(drag, cursor, accepted, monitors);
            &&& !placed
            &&& after.windows[drag.window.0].rect == accepted
            &&& after.tile_order == state.tile_order && after.participation == state.participation
                && after.suppressed == state.suppressed
            &&& monitor_of_rect(accepted, monitors) matches Some(monitor)
                ==> after.overrides[drag.window.0] == monitor
        }),
{
}

/// A window that is placed anew after its drag has the reports of its own moves suppressed.
pub proof fn moves_of_a_window_let_go_are_suppressed(
    state: DaemonView,
    drag: ActiveModifierDrag,
    cursor: Point,
    accepted: Rect,
    monitors: Seq<MonitorInfo>,
)
    requires
        state.modifier_drag_dropped(drag, cursor, accepted, monitors).1,
    ensures
        state.modifier_drag_dropped(drag, cursor, accepted, monitors).0.suppressed.contains_key(
            drag.window.0,
        ),
{
}

/// A duration is told in whole milliseconds, what is left of one being dropped, as far as the number
/// reaches.
pub proof fn durations_are_told_in_milliseconds(seconds: u64, nanos: u32)
    ensures
        seconds <= 0xffff_ffff && nanos < 1_000_000_000 ==> {
            let millis = whole_millis(seconds, nanos);
            &&& millis * 1_000_000 <= seconds * 1_000_000_000 + nanos
            &&& seconds * 1_000_000_000 + nanos < (millis + 1) * 1_000_000
        },
        whole_millis(seconds, nanos) <= u64::MAX,
{
}

/// Tiles are acted upon three times at most; each time those are moved that have to be, and as many count
/// as moved, and the rest as left.
pub proof fn tiles_are_tried_three_times(
    state: &DaemonState,
    progress: RelayoutProgress,
    tiles: &[TileAssignment],
    monitors: &[MonitorInfo],
    next: (Vec<TileAssignment>, RelayoutProgress),
)
    requires
        call_ensures(DaemonState::next_moves, (state, progress, tiles, monitors), next),
        progress.applied_count + tiles@.len() <= usize::MAX,
        progress.skipped_count + tiles@.len() <= usize::MAX,
    ensures
        progress.pass >= 3 || tiles@.len() == 0 ==> next.0@.len() == 0 && next.1 == progress,
        progress.pass < 3 && tiles@.len() > 0 ==> {
            &&& next.0@ == tiles@.filter(state@.is_actionable(monitors@))
            &&& next.1.had_assignments
            &&& next.1.applied_count == progress.applied_count + next.0@.len()
            &&& next.1.skipped_count == progress.skipped_count + (tiles@.len() - next.0@.len())
            &&& next.1.pass == progress.pass
        },
{
    crate::daemon_focus::lemma_filter_members(tiles@, state@.is_actionable(monitors@));
}

/// After windows were moved, they are placed anew only if something was learned of their sizes and the
/// passes are not used up.
pub proof fn windows_are_placed_again_if_something_was_learned(
    progress: RelayoutProgress,
    moves: &[TileAssignment],
    actual: &[Option<Rect>],
    monitors: &[MonitorInfo],
    cursor: Option<Point>,
)
    ensures
        forall|state: &mut DaemonState, tiles: Option<Vec<TileAssignment>>| #[trigger]
            call_ensures(
                DaemonState::after_moves,
                (state, progress, moves, actual, monitors, cursor),
                tiles,
            ) ==> (tiles is Some <==> (*state)@.learns_any(moves@, actual@) && progress.pass < 2) && (
            tiles is None ==> (*final(state))@ == (*state)@.with_all_seen(moves@, actual@)),
{
}

/// A change of the focus is noted, and the windows are to be placed anew if a game ended by it and the
/// settings say so.
pub proof fn change_of_focus_may_end_a_game(focus: Option<WindowHandle>, monitors: &[MonitorInfo])
    ensures
        forall|state: &mut DaemonState, place: bool| #[trigger]
            call_ensures(DaemonState::note_foreground, (state, focus, monitors), place) ==> {
                let before = (*state)@;
                let after = (*final(state))@;
                let focused = before.with_foreground(focus, monitors@);
                &&& after == focused.with_game_mode(monitors@)
                &&& place <==> focused.game_mode.active is Some && after.game_mode.active is None
                    && after.config.dynamic_retile
            },
{
}

/// After moves, the windows are to be placed anew for a game that ended, or for a window that changed its
/// monitor while no game rests the layouts, and only if the settings say so.
pub proof fn moves_place_windows_anew_if_they_must(
    windows: &[WindowHandle],
    rects: &[Rect],
    monitors: &[MonitorInfo],
)
    ensures
        forall|state: &mut DaemonState, outcome: MovedOutcome| #[trigger]
            call_ensures(
                DaemonState::reconcile_moved_windows,
                (state, windows, rects, monitors),
                outcome,
            ) ==> {
                let after = (*final(state))@;
                let moved = (*state)@.with_moved_windows(windows@, rects@, monitors@);
                &&& !after.config.dynamic_retile ==> !outcome.retile_after_game
                    && !outcome.retile_for_monitor
                &&& after.game_mode.pauses_layouts() ==> !outcome.retile_for_monitor
                &&& outcome.retile_for_monitor ==> (*state)@.some_change_monitor(
                    windows@,
                    rects@,
                    monitors@,
                )
                &&& outcome.retile_after_game <==> moved.game_mode.active is Some
                    && after.game_mode.active is None && after.config.dynamic_retile
            },
{
}

/// A beginning or an end of a move of a window that is not known changes nothing.
pub proof fn moves_of_unknown_windows_change_nothing(
    event: WindowEvent,
    reading: DragReading,
    monitors: &[MonitorInfo],
)
    ensures
        forall|state: &mut DaemonState, moves: Option<Vec<TileAssignment>>| #[trigger]
            call_ensures(
                DaemonState::reconcile_movesize_event,
                (state, event, reading, monitors),
                moves,
            ) ==> (moves is Some <==> (*state)@.windows.contains_key(event.window.0)) && (moves is None
                ==> (*final(state))@ == (*state)@),
{
}

} // verus!
