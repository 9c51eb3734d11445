//! What is made of windows that are seen to move, to be picked up and to be let go.

use vstd::prelude::*;

use crate::daemon_drag::DragReading;
use crate::daemon_state::DaemonView;
use crate::daemon_tiling_laws::{lemma_tiling_keeps, tiling_keeps_windows_and_workspaces};
use crate::events::{WindowEvent, WindowEventKind};
use crate::geometry::{MonitorInfo, Rect, WindowHandle};
use crate::layout::WindowParticipation;
use crate::monitors::monitor_of_rect;

verus! {

/// A window that is let go is noted where it is seen then, before anything is made of it.
pub proof fn window_let_go_is_noted_where_it_is(
    state: DaemonView,
    event: WindowEvent,
    reading: DragReading,
    rect: Rect,
    monitors: Seq<MonitorInfo>,
)
    requires
        event.kind == WindowEventKind::MoveSizeEnd,
        state.interactive_window() != Some(event.window),
        state.windows.contains_key(event.window.0),
        reading.rect == Some(rect),
    ensures
        ({
            let after = state.movesize_planned(event, reading, monitors).0;
            &&& after.windows.contains_key(event.window.0)
            &&& after.windows[event.window.0].rect == rect
        }),
{
    let seen = state.with_movesize_rect(event.window, reading, monitors);
    let batch = seq![event];
    let readings = seq![reading];
    lemma_one_event(seen, event, reading, monitors);
    let handled = seen.with_events(batch, readings, monitors);
    assert(handled.windows == seen.windows);
    lemma_tiling_keeps(handled, monitors, monitors, reading.cursor);
    tiling_keeps_windows_and_workspaces(handled, monitors, reading.cursor);
}

proof fn lemma_one_event(
    state: DaemonView,
    event: WindowEvent,
    reading: DragReading,
    monitors: Seq<MonitorInfo>,
)
    ensures
        ({
            let (after, tiles) = state.with_movesizes(seq![event], seq![reading], monitors);
            let started = state.movesize_started(event.window, reading, monitors);
            let ended = state.movesize_ended(event.window, monitors, None);
            &&& event.kind == WindowEventKind::MoveSizeStart ==> after == started.0 && tiles == (
            started.1 && started.0.config.dynamic_retile)
            &&& event.kind == WindowEventKind::MoveSizeEnd ==> after == ended.0 && tiles == ended.1
                && after.windows == state.windows
            &&& event.kind != WindowEventKind::MetadataChanged ==> state.with_events(
                seq![event],
                seq![reading],
                monitors,
            ) == after
        }),
{
    let batch = seq![event];
    let readings = seq![reading];
    assert(batch.drop_last() =~= Seq::empty());
    assert(batch.last() == event);
    assert(readings[batch.len() - 1] == reading);
    reveal_with_fuel(DaemonView::with_movesizes, 2);
    reveal_with_fuel(DaemonView::with_limits_forgotten, 2);
}

/// The tiles close up behind a window that is picked up only if it floats from then on and the settings let
/// the tiles follow the windows. They make room for a window that is let go if it is tiled again and the
/// settings say so, whether they follow the windows otherwise or not.
pub proof fn tiles_close_up_behind_a_picked_up_window(
    state: DaemonView,
    event: WindowEvent,
    reading: DragReading,
    monitors: Seq<MonitorInfo>,
)
    ensures
        ({
            let batch = seq![event];
            let readings = seq![reading];
            let tiles = state.tiles_after(batch, readings, 0, monitors);
            let waits = state.participation.contains_key(event.window.0)
                && state.participation[event.window.0] == WindowParticipation::TemporarilyFloating;
            &&& event.kind == WindowEventKind::MoveSizeStart && !state.config.dynamic_retile ==> !tiles
            &&& event.kind == WindowEventKind::MoveSizeStart && !state.config.drag_to_float ==> !tiles
            &&& event.kind == WindowEventKind::MoveSizeStart && state.config.dynamic_retile
                && state.movesize_started(event.window, reading, monitors).1 ==> tiles
            &&& event.kind == WindowEventKind::MoveSizeEnd && waits ==> tiles
                == state.config.retile_on_drag_end
        }),
{
    lemma_one_event(state, event, reading, monitors);
    let batch = seq![event];
    assert(batch[0] == event);
    assert(event.kind == WindowEventKind::MoveSizeStart || event.kind == WindowEventKind::MoveSizeEnd
        ==> !crate::daemon_events::some_retiles(batch));
    if event.kind == WindowEventKind::MoveSizeEnd && state.takes_part(event.window)
        == WindowParticipation::TemporarilyFloating {
        crate::daemon_drag::dragged_window_is_tiled_again(state, event.window, monitors, None);
    }
}

/// A window that is seen belongs to the monitor that it is over. One that is not seen stays where it was
/// put.
pub proof fn hidden_window_keeps_its_monitor(
    state: DaemonView,
    window: WindowHandle,
    monitors: Seq<MonitorInfo>,
)
    requires
        state.windows.contains_key(window.0),
    ensures
        ({
            let after = state.with_window_synced(window, monitors);
            let info = state.windows[window.0];
            let under = monitor_of_rect(info.rect, monitors);
            &&& info.is_visible && under is Some ==> after.overrides.contains_key(window.0)
                && after.overrides[window.0] == under.unwrap()
            &&& !info.is_visible && state.overrides.contains_key(window.0) ==> after.overrides
                == state.overrides
        }),
{
}

/// A window that is on a workspace is noted where it is, if it may be managed when it is seen again; the
/// place of one that may not be managed is left as it was.
pub proof fn window_on_a_workspace_is_noted_where_it_is(
    state: DaemonView,
    window: WindowHandle,
    monitors: Seq<MonitorInfo>,
)
    requires
        state.windows.contains_key(window.0),
        state.workspaces.windows.contains_key(window.0),
    ensures
        ({
            let after = state.with_window_synced(window, monitors).workspaces;
            let info = state.windows[window.0];
            &&& after.windows.contains_key(window.0)
            &&& state.managed_when_hidden(info) ==> after.windows[window.0].last_rect == Some(info.rect)
            &&& !state.managed_when_hidden(info) ==> after.windows == state.workspaces.windows
            &&& after.windows[window.0].visible_on_all_workspaces
                == state.workspaces.windows[window.0].visible_on_all_workspaces
        }),
{
}

} // verus!
