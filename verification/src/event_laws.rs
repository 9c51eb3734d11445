//! What reports of windows mean, when they are handled, and what is learned from them.

use vstd::prelude::*;

use crate::daemon_events::{route_of, tracker_step, EventRoute, EventTiming};
use crate::daemon_feedback::{recorded, RelayoutProgress};
use crate::daemon_state::{DaemonPerformance, DaemonView};
use crate::events::{
    coalesced, is_urgent, kind_of_event, reported, same_report, WindowEvent, WindowEventKind,
};
use crate::geometry::{MonitorInfo, Point, Rect, TileAssignment, WindowHandle};
use crate::handles::lemma_first_kept;
use crate::monitors::monitor_of_rect;

verus! {

/// Each number of a report means one kind of report, and no other number means it. Changes of the name, of
/// the state, and of what hides a window count as changes of what is known of it.
pub proof fn report_numbers_mean_their_kinds(event: u32)
    ensures
        kind_of_event(event) == Some(WindowEventKind::Created) <==> event == 0x8000,
        kind_of_event(event) == Some(WindowEventKind::Destroyed) <==> event == 0x8001,
        kind_of_event(event) == Some(WindowEventKind::Shown) <==> event == 0x8002,
        kind_of_event(event) == Some(WindowEventKind::Hidden) <==> event == 0x8003,
        kind_of_event(event) == Some(WindowEventKind::Moved) <==> event == 0x800b,
        kind_of_event(event) == Some(WindowEventKind::MetadataChanged) <==> event == 0x800a || event
            == 0x800c || event == 0x8017 || event == 0x8018,
        kind_of_event(event) == Some(WindowEventKind::MoveSizeStart) <==> event == 0xa,
        kind_of_event(event) == Some(WindowEventKind::MoveSizeEnd) <==> event == 0xb,
        kind_of_event(event) == Some(WindowEventKind::Minimized) <==> event == 0x16,
        kind_of_event(event) == Some(WindowEventKind::Restored) <==> event == 0x17,
        kind_of_event(event) == Some(WindowEventKind::ForegroundChanged) <==> event == 0x3,
{
}

/// Of the reports of the same kind on the same window the last one counts, with its time.
pub proof fn last_report_counts(batch: Seq<WindowEvent>, at: int)
    requires
        0 <= at < batch.len(),
        forall|i: int|
            at < i < batch.len() ==> !((#[trigger] batch[i]).kind == batch[at].kind && batch[i].window
                == batch[at].window),
    ensures
        coalesced(batch).contains(batch[at]),
    decreases batch.len(),
{
    let rest = batch.drop_first();
    let merged = coalesced(rest);
    if at == 0 {
        if reported(rest, batch[0]) {
            let i = choose|i: int| 0 <= i < rest.len() && same_report(#[trigger] rest[i], batch[0]);
            assert(rest[i] == batch[i + 1]);
        }
        assert((seq![batch[0]] + merged)[0] == batch[0]);
    } else {
        assert forall|i: int| at - 1 < i < rest.len() implies !((#[trigger] rest[i]).kind
            == batch[at].kind && rest[i].window == batch[at].window) by {
            assert(rest[i] == batch[i + 1]);
        }
        assert(rest[at - 1] == batch[at]);
        last_report_counts(rest, at - 1);
        let place = merged.index_of(batch[at]);
        if !reported(rest, batch[0]) {
            assert((seq![batch[0]] + merged)[place + 1] == batch[at]);
        }
    }
}

/// What a drag of the daemon's own window moves is handled at once, and so are other beginnings and ends
/// of moves and changes of the focus; other moves wait for eight milliseconds and everything else for
/// fifty.
pub proof fn reports_are_handled_in_time(state: DaemonView, event: WindowEvent)
    ensures
        ({
            let own = state.interactive_window() == Some(event.window) || state.is_modifier_dragged(
                event.window,
            );
            &&& event.kind == WindowEventKind::Moved && own ==> state.timing(event) == EventTiming::Now
            &&& event.kind == WindowEventKind::Moved && !own ==> state.timing(event)
                == EventTiming::After(8)
            &&& event.kind == WindowEventKind::MoveSizeStart || event.kind
                == WindowEventKind::MoveSizeEnd || event.kind == WindowEventKind::ForegroundChanged
                ==> state.timing(event) == EventTiming::Now
            &&& event.kind == WindowEventKind::Created || event.kind == WindowEventKind::Destroyed
                || event.kind == WindowEventKind::Shown || event.kind == WindowEventKind::Hidden
                || event.kind == WindowEventKind::Minimized || event.kind == WindowEventKind::Restored
                || event.kind == WindowEventKind::MetadataChanged ==> state.timing(event)
                == EventTiming::After(50)
            &&& is_urgent(event.kind) <==> event.kind == WindowEventKind::Moved || event.kind
                == WindowEventKind::MoveSizeStart || event.kind == WindowEventKind::MoveSizeEnd
                || event.kind == WindowEventKind::ForegroundChanged
        }),
{
}

/// A batch of moves only is handled as such; a single beginning or end of a move, and a single change of
/// the focus, each in its own way; an empty one not at all, and everything else from the ground up.
pub proof fn batches_go_their_ways(batch: Seq<WindowEvent>, at: int)
    ensures
        batch.len() == 0 ==> route_of(batch) == EventRoute::Nothing,
        batch.len() > 0 && (forall|i: int|
            0 <= i < batch.len() ==> (#[trigger] batch[i]).kind == WindowEventKind::Moved) ==> route_of(
            batch,
        ) == EventRoute::Moves,
        batch.len() == 1 && (batch[0].kind == WindowEventKind::MoveSizeStart || batch[0].kind
            == WindowEventKind::MoveSizeEnd) ==> route_of(batch) == EventRoute::MoveSize,
        batch.len() == 1 && batch[0].kind == WindowEventKind::ForegroundChanged ==> route_of(batch)
            == EventRoute::Foreground,
        batch.len() >= 2 && 0 <= at < batch.len() && batch[at].kind != WindowEventKind::Moved
            ==> route_of(batch) == EventRoute::Everything,
        batch.len() == 1 && batch[0].kind != WindowEventKind::Moved && batch[0].kind
            != WindowEventKind::MoveSizeStart && batch[0].kind != WindowEventKind::MoveSizeEnd
            && batch[0].kind != WindowEventKind::ForegroundChanged ==> route_of(batch)
            == EventRoute::Everything,
{
}

/// The window that is followed while it is moved is let go when its move ends or another one, or none, is
/// dragged; the window that is dragged is followed unless it is already.
pub proof fn dragged_window_is_followed(
    followed: Option<WindowHandle>,
    active: Option<WindowHandle>,
    batch: Seq<WindowEvent>,
)
    ensures
        ({
            let step = tracker_step(followed, active, batch);
            let ended = exists|i: int|
                0 <= i < batch.len() && (#[trigger] batch[i]).kind == WindowEventKind::MoveSizeEnd
                    && followed == Some(batch[i].window);
            &&& step.stop <==> ended || (followed is Some && followed != active)
            &&& active is None ==> step.start is None
            &&& active is Some && (step.stop || followed != active) ==> step.start == active
            &&& active is Some && !step.stop && followed == active ==> step.start is None
        }),
{
}

/// Moves and the beginnings and ends of moves are ignored of a window that the daemon itself drags, or
/// whose drag has just ended; every other report is heeded.
pub proof fn own_moves_are_ignored(state: DaemonView, event: WindowEvent)
    ensures
        ({
            let own = state.is_modifier_dragged(event.window) || state.suppressed.contains_key(
                event.window.0,
            );
            let moves = event.kind == WindowEventKind::Moved || event.kind
                == WindowEventKind::MoveSizeStart || event.kind == WindowEventKind::MoveSizeEnd;
            &&& state.ignores()(event) <==> own && moves
            &&& state.heeds()(event) <==> !(own && moves)
        }),
{
}

/// Windows are placed anew after reports exactly if the settings say so and a window went to another
/// monitor, or one was made, destroyed, shown, hidden, minimized, restored or changed. Moves and
/// changes of the focus alone place nothing.
pub proof fn windows_are_placed_after_changes(
    state: DaemonView,
    batch: Seq<WindowEvent>,
    moved: usize,
    at: int,
)
    ensures
        !state.config.dynamic_retile ==> !state.retiles_after(batch, moved),
        state.config.dynamic_retile && moved > 0 ==> state.retiles_after(batch, moved),
        state.config.dynamic_retile && 0 <= at < batch.len() && (batch[at].kind
            == WindowEventKind::Created || batch[at].kind == WindowEventKind::Destroyed
            || batch[at].kind == WindowEventKind::Shown || batch[at].kind == WindowEventKind::Hidden
            || batch[at].kind == WindowEventKind::Minimized || batch[at].kind
            == WindowEventKind::Restored || batch[at].kind == WindowEventKind::MetadataChanged)
            ==> state.retiles_after(batch, moved),
        (forall|i: int|
            0 <= i < batch.len() ==> (#[trigger] batch[i]).kind == WindowEventKind::Moved
                || batch[i].kind == WindowEventKind::MoveSizeStart || batch[i].kind
                == WindowEventKind::MoveSizeEnd || batch[i].kind == WindowEventKind::ForegroundChanged)
            && moved == 0 ==> !state.retiles_after(batch, moved),
{
    if 0 <= at < batch.len() {
        assert(crate::daemon_events::retiles_on(batch[at].kind) ==> crate::daemon_events::some_retiles(
            batch,
        ));
    }
}

/// A drag is taken to have begun when, with the button down and nothing dragged yet, nothing but moves is
/// reported: of the window with the focus if it is among them, and otherwise of the first that is known.
pub proof fn moves_with_the_button_down_are_a_drag(
    state: DaemonView,
    batch: Seq<WindowEvent>,
    button_down: bool,
    at: int,
)
    requires
        0 <= at < batch.len(),
    ensures
        ({
            let begun = state.drag_begun_by_moves(batch, button_down);
            let moves = forall|i: int|
                0 <= i < batch.len() ==> (#[trigger] batch[i]).kind == WindowEventKind::Moved;
            let idle = state.interactive_drag is None && state.modifier_drag is None;
            let known = |window: WindowHandle| state.windows.contains_key(window.0);
            &&& !button_down || !moves || !idle ==> begun is None
            &&& button_down && moves && idle && state.foreground == Some(batch[at].window) && known(
                batch[at].window,
            ) ==> begun == state.foreground
            &&& button_down && moves && idle && (state.foreground is None || !known(
                state.foreground.unwrap(),
            ) || forall|i: int|
                0 <= i < batch.len() ==> Some((#[trigger] batch[i]).window) != state.foreground) && known(
                batch[at].window,
            ) && (forall|i: int| 0 <= i < at ==> !known((#[trigger] batch[i]).window)) ==> begun
                == Some(batch[at].window)
        }),
{
    lemma_first_kept(batch, state.is_of_known());
    assert(state.is_of_known()(batch[at]) == state.windows.contains_key(batch[at].window.0));
}

/// The sizes learned of a window are forgotten when it is reported to have changed, and those of no other
/// window are.
pub proof fn sizes_of_changed_windows_are_forgotten(
    state: DaemonView,
    batch: Seq<WindowEvent>,
    window: WindowHandle,
)
    ensures
        ({
            let after = state.with_limits_forgotten(batch);
            let changed = exists|i: int|
                0 <= i < batch.len() && (#[trigger] batch[i]).kind == WindowEventKind::MetadataChanged
                    && batch[i].window == window;
            &&& changed ==> !after.learned.contains_key(window.0)
            &&& !changed ==> after.learned.contains_key(window.0) == state.learned.contains_key(
                window.0,
            ) && after.learned[window.0] == state.learned[window.0]
            &&& after.windows == state.windows && after.workspaces == state.workspaces
        }),
    decreases batch.len(),
{
    if batch.len() > 0 {
        let rest = batch.drop_last();
        sizes_of_changed_windows_are_forgotten(state, rest, window);
        assert(forall|i: int| 0 <= i < rest.len() ==> #[trigger] batch[i] == rest[i]);
        assert(batch[batch.len() - 1] == batch.last());
        if exists|i: int|
            0 <= i < rest.len() && (#[trigger] rest[i]).kind == WindowEventKind::MetadataChanged
                && rest[i].window == window {
            let i = choose|i: int|
                0 <= i < rest.len() && (#[trigger] rest[i]).kind == WindowEventKind::MetadataChanged
                    && rest[i].window == window;
            assert(batch[i] == rest[i]);
        }
    }
}

/// A window that was moved is noted where it is, and belongs to the monitor it is on if that is another
/// one than before; otherwise it stays with the monitor it was put on.
pub proof fn moved_window_is_noted_where_it_is(
    state: DaemonView,
    window: WindowHandle,
    rect: Rect,
    monitors: Seq<MonitorInfo>,
)
    requires
        state.windows.contains_key(window.0),
    ensures
        ({
            let after = state.with_moved_window(window, rect, monitors);
            let old_monitor = monitor_of_rect(state.windows[window.0].rect, monitors);
            let new_monitor = monitor_of_rect(rect, monitors);
            &&& after.windows[window.0].rect == rect
            &&& state.windows[window.0].rect != rect && state.workspaces.windows.contains_key(window.0)
                ==> after.workspaces.windows[window.0].last_rect == Some(rect)
            &&& old_monitor is Some && new_monitor is Some && old_monitor != new_monitor
                ==> after.overrides.contains_key(window.0) && Some(after.overrides[window.0])
                == new_monitor
            &&& old_monitor == new_monitor || old_monitor is None || new_monitor is None
                ==> after.overrides == state.overrides
            &&& after.foreground == state.foreground && after.tile_order == state.tile_order
        }),
{
}

/// A window that gets the focus is the foreground window, and its monitor gets the focus with the workspace
/// that it shows.
pub proof fn focused_window_brings_its_monitor(
    state: DaemonView,
    window: WindowHandle,
    monitors: Seq<MonitorInfo>,
)
    ensures
        state.with_foreground(None, monitors).foreground is None,
        state.with_foreground(None, monitors).workspaces == state.workspaces,
        state.with_foreground(Some(window), monitors).foreground == Some(window),
        state.owner(window, monitors) matches Some(monitor) ==> state.with_foreground(
            Some(window),
            monitors,
        ).workspaces.focused == Some(monitor) && state.with_foreground(
            Some(window),
            monitors,
        ).workspaces.active == state.workspaces.active_on(monitor),
        state.owner(window, monitors) is None ==> state.with_foreground(
            Some(window),
            monitors,
        ).workspaces == state.workspaces,
{
}

/// A tile is acted upon exactly if its window may be moved and some edge of the window is more than a
/// pixel from where it is to be.
pub proof fn windows_in_their_place_are_not_moved(
    state: DaemonView,
    tile: TileAssignment,
    monitors: Seq<MonitorInfo>,
)
    ensures
        ({
            let rect = state.windows[tile.window.0].rect;
            let off = |a: i32, b: i32| a - b > 1 || b - a > 1;
            state.is_actionable(monitors)(tile) <==> state.safe_to_move(tile.window, monitors) && (off(
                rect.left,
                tile.rect.left,
            ) || off(rect.top, tile.rect.top) || off(rect.right, tile.rect.right) || off(
                rect.bottom,
                tile.rect.bottom,
            ))
        }),
{
}

/// A window that turns out larger than its tile, in width or in height, has its size learned as the least
/// one, no smaller than what was learned before; one that fits has nothing learned of it. Where it
/// really is, is taken note of either way.
pub proof fn size_of_a_window_that_is_too_large_is_learned(
    state: DaemonView,
    tile: TileAssignment,
    rect: Rect,
)
    requires
        state.windows.contains_key(tile.window.0),
        0 <= rect.right - rect.left <= i32::MAX,
        0 <= rect.bottom - rect.top <= i32::MAX,
        0 <= tile.rect.right - tile.rect.left <= i32::MAX,
        0 <= tile.rect.bottom - tile.rect.top <= i32::MAX,
    ensures
        ({
            let after = state.with_seen(tile, Some(rect));
            let key = tile.window.0;
            let wider = rect.right - rect.left > tile.rect.right - tile.rect.left;
            let higher = rect.bottom - rect.top > tile.rect.bottom - tile.rect.top;
            &&& after.windows[key].rect == rect
            &&& !wider && !higher ==> after.learned == state.learned
            &&& (wider || higher) && !state.learned.contains_key(key) ==> after.learned.contains_key(key)
                && after.learned[key].min.width == rect.right - rect.left
                && after.learned[key].min.height == rect.bottom - rect.top
                && after.learned[key].max is None
            &&& (wider || higher) && state.learned.contains_key(key) && state.learned[key].min.width >= 0
                && state.learned[key].min.height >= 0 && state.learned[key].max is None
                ==> after.learned[key].min.width == (if rect.right - rect.left
                >= state.learned[key].min.width {
                rect.right - rect.left
            } else {
                state.learned[key].min.width as int
            })
            &&& state.with_seen(tile, None) == state
        }),
{
}

/// A pass that moved windows counts as one more placing, with how long it took and how many it moved; one
/// that had tiles but moved none counts as one more that was skipped; one without tiles counts as
/// nothing.
pub proof fn placings_are_counted(
    perf: DaemonPerformance,
    progress: RelayoutProgress,
    elapsed_ms: u64,
)
    ensures
        ({
            let after = recorded(perf, progress, elapsed_ms);
            &&& progress.applied_count > 0 && perf.relayout_count < u64::MAX ==> after.relayout_count
                == perf.relayout_count + 1 && after.last_relayout_move_count == progress.applied_count
            &&& progress.applied_count > 0 ==> after.skipped_relayout_count
                == perf.skipped_relayout_count && after.last_relayout_duration_ms == elapsed_ms
            &&& progress.applied_count == 0 && progress.had_assignments && perf.skipped_relayout_count
                < u64::MAX ==> after.skipped_relayout_count == perf.skipped_relayout_count + 1
                && after.relayout_count == perf.relayout_count && after.last_relayout_move_count == 0
                && after.last_relayout_duration_ms == elapsed_ms
            &&& progress.applied_count == 0 && !progress.had_assignments ==> after == perf
            &&& after.config_reload_count == perf.config_reload_count && after.border_window_count
                == perf.border_window_count
        }),
{
}

/// Moves that were planned are carried out unless a game rests the layouts; when a game has ended and the
/// settings say so, the windows are placed anew.
pub proof fn planned_moves_are_carried_out(
    state: DaemonView,
    planned: Seq<TileAssignment>,
    ended: bool,
    monitors: Seq<MonitorInfo>,
    cursor: Option<Point>,
)
    ensures
        ended && state.config.dynamic_retile ==> state.settled(planned, ended, monitors, cursor) == (
            state.retiled(monitors, cursor),
            state.all_tiles(monitors, cursor),
        ),
        !(ended && state.config.dynamic_retile) && !state.game_mode.pauses_layouts() ==> state.settled(
            planned,
            ended,
            monitors,
            cursor,
        ) == (state, planned),
        !(ended && state.config.dynamic_retile) && state.game_mode.pauses_layouts() ==> state.settled(
            planned,
            ended,
            monitors,
            cursor,
        ).0 == state && state.settled(planned, ended, monitors, cursor).1.len() == 0,
{
}

} // verus!
