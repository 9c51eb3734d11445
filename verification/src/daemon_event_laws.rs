//! What holds whenever the daemon handles events.

use vstd::prelude::*;

use crate::daemon_drag::DragReading;
use crate::daemon_state::DaemonView;
use crate::events::{WindowEvent, WindowEventKind};
use crate::geometry::{MonitorInfo, Point, TileAssignment};

verus! {

/// Whether none of the events ends a move or a change of size.
pub open spec fn none_is_let_go(batch: Seq<WindowEvent>) -> bool {
    forall|i: int| 0 <= i < batch.len() ==> (#[trigger] batch[i]).kind != WindowEventKind::MoveSizeEnd
}

proof fn lemma_nothing_is_let_go(
    state: DaemonView,
    batch: Seq<WindowEvent>,
    readings: Seq<DragReading>,
    monitors: Seq<MonitorInfo>,
)
    requires
        none_is_let_go(batch),
        !state.config.dynamic_retile,
    ensures
        !state.with_movesizes(batch, readings, monitors).1,
        state.with_movesizes(batch, readings, monitors).0.config == state.config,
    decreases batch.len(),
{
    if batch.len() > 0 {
        let rest = batch.drop_last();
        assert(none_is_let_go(rest)) by {
            assert forall|i: int| 0 <= i < rest.len() implies (#[trigger] rest[i]).kind
                != WindowEventKind::MoveSizeEnd by {
                assert(rest[i] == batch[i]);
            }
        }
        lemma_nothing_is_let_go(state, rest, readings, monitors);
        assert(batch.last() == batch[batch.len() - 1]);
    }
}

/// Where windows are not to be tiled anew by themselves, events place nothing until a window is let go.
pub proof fn events_place_nothing_where_they_may_not(
    state: DaemonView,
    batch: Seq<WindowEvent>,
    readings: Seq<DragReading>,
    moved_between_monitors: usize,
    monitors: Seq<MonitorInfo>,
    cursor: Option<Point>,
)
    requires
        !state.config.dynamic_retile,
        none_is_let_go(batch),
    ensures
        state.planned_after(batch, readings, moved_between_monitors, monitors, cursor).1
            == Seq::<TileAssignment>::empty(),
{
    lemma_nothing_is_let_go(state, batch, readings, monitors);
}

/// What was learned of the least size of a window is forgotten when the window changes.
pub proof fn changed_window_has_its_size_learned_anew(
    state: DaemonView,
    batch: Seq<WindowEvent>,
    readings: Seq<DragReading>,
    monitors: Seq<MonitorInfo>,
    at: int,
)
    requires
        0 <= at < batch.len(),
        batch[at].kind == WindowEventKind::MetadataChanged,
    ensures
        !state.with_events(batch, readings, monitors).learned.contains_key(batch[at].window.0),
{
    lemma_forgets(state.with_movesizes(batch, readings, monitors).0, batch, at);
}

proof fn lemma_forgets(state: DaemonView, batch: Seq<WindowEvent>, at: int)
    requires
        0 <= at < batch.len(),
        batch[at].kind == WindowEventKind::MetadataChanged,
    ensures
        !state.with_limits_forgotten(batch).learned.contains_key(batch[at].window.0),
    decreases batch.len(),
{
    if at < batch.len() - 1 {
        assert(batch.drop_last()[at] == batch[at]);
        lemma_forgets(state, batch.drop_last(), at);
    }
}

} // verus!
