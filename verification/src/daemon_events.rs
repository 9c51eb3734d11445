//! What the daemon does when the desktop reports something of its windows.

use vstd::prelude::*;

use crate::daemon_diff::SnapshotDiff;
use crate::daemon_drag::{lemma_ended_order, DragReading};
use crate::daemon_order_laws::{
    letting_go_orders_what_is_arranged, picking_up_orders_what_is_arranged,
    refreshed_state_orders_what_it_arranges,
};
use crate::daemon_state::{DaemonState, DaemonView};
use crate::daemon_sync::lemma_synced_keeps;
use crate::events::{
    coalesce_window_events, coalesced, is_urgent, should_process_window_event_immediately,
    WindowEvent, WindowEventKind,
};
use crate::game_mode::GameModeTransition;
use crate::geometry::{MonitorId, MonitorInfo, Point, Rect, TileAssignment, WindowHandle};
use crate::handles::{
    first_kept, handles_of, lemma_filter_ends, lemma_filter_step, lemma_first_kept_step,
    lemma_without, ordered_handles,
};
use crate::monitors::{monitor_for_rect, monitor_of_rect};
use crate::sorted_map::SortedMap;

verus! {

/// How long events are gathered before they are handled together, in milliseconds.
pub const RECONCILE_DEBOUNCE_MS: u64 = 50;

/// How long moves are gathered before they are handled together, in milliseconds.
pub const LOW_LATENCY_MOVE_DEBOUNCE_MS: u64 = 8;

/// How many events are handled together at most.
pub const MAX_BATCH_SIZE: usize = 512;

/// When an event is handled: now, or once no other has come for some milliseconds.
#[derive(Debug, Clone, Copy, PartialEq, Eq, Structural)]
pub enum EventTiming {
    Now,
    After(u64),
}

/// What comes while events are gathered: another one, something else that is handled at once, the end
/// of the daemon, or nothing for long enough.
#[derive(Debug, Clone, Copy, PartialEq, Eq, Structural)]
pub enum BatchInput {
    Window(WindowEvent),
    Other,
    Shutdown,
    Silence,
}

/// What follows while events are gathered: waiting for more, handling them, or stopping.
#[derive(Debug, Clone, Copy, PartialEq, Eq, Structural)]
pub enum BatchStep {
    Wait,
    Handle,
    Stop,
}

/// How events that belong together are handled.
#[derive(Debug, Clone, Copy, PartialEq, Eq, Structural)]
pub enum EventRoute {
    Nothing,
    Moves,
    MoveSize,
    Foreground,
    Everything,
}

/// What becomes of the tracker that follows a dragged window: whether the one that runs is stopped, and
/// for which window one is started.
#[derive(Debug, Clone, Copy, PartialEq, Eq, Structural)]
pub struct TrackerStep {
    pub stop: bool,
    pub start: Option<WindowHandle>,
}

/// What a look at the mouse during a drag tells: that the drag is over, that the cursor moved, that
/// nothing happened, or that the cursor cannot be followed any more.
#[derive(Debug, Clone, Copy, PartialEq, Eq, Structural)]
pub enum DragPoll {
    Ended,
    Moved(Point),
    Still,
    Lost,
}

/// What follows from moved windows: whether tiles are computed because game mode ended, and whether
/// they are because a window is on another monitor.
#[derive(Debug, Clone, Copy, PartialEq, Eq, Structural)]
pub struct MovedOutcome {
    pub retile_after_game: bool,
    pub retile_for_monitor: bool,
}

/// The events that set off a new computation of the tiles.
pub open spec fn retiles_on(kind: WindowEventKind) -> bool {
    ||| kind == WindowEventKind::Created
    ||| kind == WindowEventKind::Destroyed
    ||| kind == WindowEventKind::Shown
    ||| kind == WindowEventKind::Hidden
    ||| kind == WindowEventKind::Minimized
    ||| kind == WindowEventKind::Restored
    ||| kind == WindowEventKind::MetadataChanged
}

/// Whether one of the events sets off a new computation of the tiles.
pub open spec fn some_retiles(batch: Seq<WindowEvent>) -> bool {
    exists|i: int| 0 <= i < batch.len() && retiles_on((#[trigger] batch[i]).kind)
}

/// Whether all events are moves.
pub open spec fn all_moves(batch: Seq<WindowEvent>) -> bool {
    forall|i: int| 0 <= i < batch.len() ==> (#[trigger] batch[i]).kind == WindowEventKind::Moved
}

/// Whether one of the events is of a window.
pub open spec fn some_of_window(batch: Seq<WindowEvent>, window: WindowHandle) -> bool {
    exists|i: int| 0 <= i < batch.len() && (#[trigger] batch[i]).window == window
}

/// How events that belong together are handled.
pub open spec fn route_of(batch: Seq<WindowEvent>) -> EventRoute {
    if batch.len() == 0 {
        EventRoute::Nothing
    } else if all_moves(batch) {
        EventRoute::Moves
    } else if batch.len() != 1 {
        EventRoute::Everything
    } else if batch[0].kind == WindowEventKind::MoveSizeStart || batch[0].kind
        == WindowEventKind::MoveSizeEnd {
        EventRoute::MoveSize
    } else if batch[0].kind == WindowEventKind::ForegroundChanged {
        EventRoute::Foreground
    } else {
        EventRoute::Everything
    }
}

/// The events that begin a move or a change of size.
pub open spec fn begins_movesize() -> spec_fn(WindowEvent) -> bool {
    |event: WindowEvent| event.kind == WindowEventKind::MoveSizeStart
}

/// Whether one of the events ends the move or change of size of a window.
pub open spec fn ends_movesize_of(batch: Seq<WindowEvent>, window: Option<WindowHandle>) -> bool {
    exists|i: int|
        0 <= i < batch.len() && (#[trigger] batch[i]).kind == WindowEventKind::MoveSizeEnd
            && window == Some(batch[i].window)
}

/// What becomes of the tracker that follows a dragged window.
pub open spec fn tracker_step(
    tracked_window: Option<WindowHandle>,
    active: Option<WindowHandle>,
    batch: Seq<WindowEvent>,
) -> TrackerStep {
    let stop = ends_movesize_of(batch, tracked_window) || (tracked_window is Some && tracked_window
        != active);
    let left = if stop {
        None
    } else {
        tracked_window
    };
    TrackerStep {
        stop,
        start: if active is Some && left != active {
            active
        } else {
            None
        },
    }
}

/// The windows of events as the keys of a map.
pub open spec fn windows_of(batch: Seq<WindowEvent>) -> Map<u64, ()> {
    Map::new(|key: u64| some_of_window(batch, WindowHandle(key)), |key: u64| ())
}

impl DaemonView {
    /// The events that are of no account: moves of a window that is dragged with modifier keys.
    pub open spec fn ignores(self) -> spec_fn(WindowEvent) -> bool {
        |event: WindowEvent|
            {
                &&& {
                    ||| event.kind == WindowEventKind::Moved
                    ||| event.kind == WindowEventKind::MoveSizeStart
                    ||| event.kind == WindowEventKind::MoveSizeEnd
                }
                &&& self.is_modifier_dragged(event.window) || self.suppressed.contains_key(
                    event.window.0,
                )
            }
    }

    /// The events that are of account.
    pub open spec fn heeds(self) -> spec_fn(WindowEvent) -> bool {
        |event: WindowEvent| !self.ignores()(event)
    }

    /// Whether an event is a move of the dragged window.
    pub open spec fn is_drag_move(self, event: WindowEvent) -> bool {
        &&& event.kind == WindowEventKind::Moved
        &&& self.interactive_window() == Some(event.window) || self.is_modifier_dragged(event.window)
    }

    /// When an event is handled.
    pub open spec fn timing(self, event: WindowEvent) -> EventTiming {
        if self.is_drag_move(event) {
            EventTiming::Now
        } else if event.kind == WindowEventKind::Moved {
            EventTiming::After(LOW_LATENCY_MOVE_DEBOUNCE_MS)
        } else if is_urgent(event.kind) {
            EventTiming::Now
        } else {
            EventTiming::After(RECONCILE_DEBOUNCE_MS)
        }
    }

    /// The events of windows that are known.
    pub open spec fn is_of_known(self) -> spec_fn(WindowEvent) -> bool {
        |event: WindowEvent| self.windows.contains_key(event.window.0)
    }

    /// The window that seems to be dragged when windows move: the one that has the focus, or else the
    /// first that is known.
    pub open spec fn inferred_drag(self, batch: Seq<WindowEvent>) -> Option<WindowHandle> {
        if self.foreground is Some && self.windows.contains_key(self.foreground.unwrap().0)
            && some_of_window(batch, self.foreground.unwrap()) {
            self.foreground
        } else {
            match first_kept(batch, self.is_of_known()) {
                Some(event) => Some(event.window),
                None => None,
            }
        }
    }

    /// The window for which a drag is begun when windows move while the mouse button is held.
    pub open spec fn drag_begun_by_moves(self, batch: Seq<WindowEvent>, button_down: bool) -> Option<
        WindowHandle,
    > {
        if self.interactive_drag is Some || self.modifier_drag is Some || !button_down || !all_moves(
            batch,
        ) {
            None
        } else {
            self.inferred_drag(batch)
        }
    }

    /// Whether events call for a new computation of the tiles.
    pub open spec fn retiles_after(self, batch: Seq<WindowEvent>, moved_between_monitors: usize) -> bool {
        self.config.dynamic_retile && (some_retiles(batch) || moved_between_monitors > 0)
    }

    /// The state after moves and changes of size began and ended, and whether that calls for a new
    /// computation of the tiles.
    pub open spec fn with_movesizes(
        self,
        batch: Seq<WindowEvent>,
        readings: Seq<DragReading>,
        monitors: Seq<MonitorInfo>,
    ) -> (DaemonView, bool)
        decreases batch.len(),
    {
        if batch.len() == 0 {
            (self, false)
        } else {
            let before = self.with_movesizes(batch.drop_last(), readings, monitors);
            let event = batch.last();
            if event.kind == WindowEventKind::MoveSizeStart {
                let started = before.0.movesize_started(
                    event.window,
                    readings[batch.len() - 1],
                    monitors,
                );
                (started.0, before.1 || (started.1 && started.0.config.dynamic_retile))
            } else if event.kind == WindowEventKind::MoveSizeEnd {
                let ended = before.0.movesize_ended(event.window, monitors, None);
                (ended.0, before.1 || ended.1)
            } else {
                before
            }
        }
    }

    /// What is known of the least sizes of windows after some of them changed.
    pub open spec fn with_limits_forgotten(self, batch: Seq<WindowEvent>) -> DaemonView
        decreases batch.len(),
    {
        if batch.len() == 0 {
            self
        } else {
            let before = self.with_limits_forgotten(batch.drop_last());
            if batch.last().kind == WindowEventKind::MetadataChanged {
                DaemonView { learned: before.learned.remove(batch.last().window.0), ..before }
            } else {
                before
            }
        }
    }

    /// The state after events, before tiles are computed.
    pub open spec fn with_events(
        self,
        batch: Seq<WindowEvent>,
        readings: Seq<DragReading>,
        monitors: Seq<MonitorInfo>,
    ) -> DaemonView {
        self.with_movesizes(batch, readings, monitors).0.with_limits_forgotten(batch)
    }

    /// Whether tiles are computed after events.
    pub open spec fn tiles_after(
        self,
        batch: Seq<WindowEvent>,
        readings: Seq<DragReading>,
        moved_between_monitors: usize,
        monitors: Seq<MonitorInfo>,
    ) -> bool {
        self.retiles_after(batch, moved_between_monitors) || self.with_movesizes(
            batch,
            readings,
            monitors,
        ).1
    }

    /// The state after events, and the tiles that they call for.
    pub open spec fn planned_after(
        self,
        batch: Seq<WindowEvent>,
        readings: Seq<DragReading>,
        moved_between_monitors: usize,
        monitors: Seq<MonitorInfo>,
        cursor: Option<Point>,
    ) -> (DaemonView, Seq<TileAssignment>) {
        let handled = self.with_events(batch, readings, monitors);
        if self.tiles_after(batch, readings, moved_between_monitors, monitors) {
            (handled.retiled(monitors, cursor), handled.all_tiles(monitors, cursor))
        } else {
            (handled, Seq::empty())
        }
    }

    /// The state and the tiles after it is taken into account whether game mode ended or goes on.
    pub open spec fn settled(
        self,
        planned: Seq<TileAssignment>,
        ended: bool,
        monitors: Seq<MonitorInfo>,
        cursor: Option<Point>,
    ) -> (DaemonView, Seq<TileAssignment>) {
        if ended && self.config.dynamic_retile {
            (self.retiled(monitors, cursor), self.all_tiles(monitors, cursor))
        } else if self.game_mode.pauses_layouts() {
            (self, Seq::empty())
        } else {
            (self, planned)
        }
    }

    /// Where a window is that is reported to have moved: a dragged window is where the cursor has
    /// taken it, or else where it was last seen; any other is where it was read to be.
    pub open spec fn moved_rect(
        self,
        window: WindowHandle,
        drag_moves: bool,
        cursor: Option<Point>,
        actual: Option<Rect>,
    ) -> Option<Rect> {
        if drag_moves && self.interactive_window() == Some(window) {
            if cursor is Some {
                self.drag_rect(window, cursor.unwrap())
            } else if self.windows.contains_key(window.0) {
                Some(self.windows[window.0].rect)
            } else {
                actual
            }
        } else {
            actual
        }
    }

    /// Whether a window that came to a rectangle is on another monitor.
    pub open spec fn changes_monitor(self, window: WindowHandle, rect: Rect, monitors: Seq<MonitorInfo>) -> bool {
        let old_monitor = monitor_of_rect(self.windows[window.0].rect, monitors);
        let new_monitor = monitor_of_rect(rect, monitors);
        old_monitor is Some && new_monitor is Some && old_monitor != new_monitor
    }

    /// The state after a window came to a rectangle.
    pub open spec fn with_moved_window(self, window: WindowHandle, rect: Rect, monitors: Seq<MonitorInfo>) -> DaemonView {
        let seen = if self.windows[window.0].rect != rect {
            self.with_window_rect(window, rect)
        } else {
            self
        };
        if self.changes_monitor(window, rect, monitors) {
            DaemonView {
                overrides: seen.overrides.insert(
                    window.0,
                    monitor_of_rect(rect, monitors).unwrap(),
                ),
                ..seen
            }
        } else {
            seen
        }
    }

    /// The state after windows came to rectangles.
    pub open spec fn with_moved_windows(
        self,
        windows: Seq<WindowHandle>,
        rects: Seq<Rect>,
        monitors: Seq<MonitorInfo>,
    ) -> DaemonView
        decreases windows.len(),
    {
        if windows.len() == 0 {
            self
        } else {
            self.with_moved_windows(windows.drop_last(), rects, monitors).with_moved_window(
                windows.last(),
                rects[windows.len() - 1],
                monitors,
            )
        }
    }

    /// Whether one of the windows that came to rectangles is on another monitor.
    pub open spec fn some_change_monitor(
        self,
        windows: Seq<WindowHandle>,
        rects: Seq<Rect>,
        monitors: Seq<MonitorInfo>,
    ) -> bool
        decreases windows.len(),
    {
        windows.len() > 0 && (self.some_change_monitor(windows.drop_last(), rects, monitors)
            || self.with_moved_windows(windows.drop_last(), rects, monitors).changes_monitor(
            windows.last(),
            rects[windows.len() - 1],
            monitors,
        ))
    }

    /// The state after the rectangle of a window that is moved or sized was read.
    pub open spec fn with_movesize_rect(
        self,
        window: WindowHandle,
        reading: DragReading,
        monitors: Seq<MonitorInfo>,
    ) -> DaemonView {
        if self.interactive_window() == Some(window) {
            self.with_drag_followed(reading.cursor, monitors)
        } else {
            match reading.rect {
                Some(rect) => self.with_rect_seen(window, rect, monitors),
                None => self,
            }
        }
    }

    /// The state after a move or a change of size began or ended and it was looked for games, and the
    /// tiles that it calls for.
    pub open spec fn movesize_planned(
        self,
        event: WindowEvent,
        reading: DragReading,
        monitors: Seq<MonitorInfo>,
    ) -> (DaemonView, Seq<TileAssignment>) {
        if event.kind == WindowEventKind::MoveSizeStart {
            let planned = self.planned_after(seq![event], seq![reading], 0, monitors, reading.cursor);
            (planned.0.with_movesize_rect(event.window, reading, monitors), planned.1)
        } else {
            self.with_movesize_rect(event.window, reading, monitors).planned_after(
                seq![event],
                seq![reading],
                0,
                monitors,
                reading.cursor,
            )
        }
    }

    /// The state after the focus moved.
    pub open spec fn with_foreground(
        self,
        foreground: Option<WindowHandle>,
        monitors: Seq<MonitorInfo>,
    ) -> DaemonView {
        let focused = DaemonView { foreground, ..self };
        match foreground {
            Some(window) => focused.focusing_monitor_of(window, monitors),
            None => focused,
        }
    }

    /// The state after everything was looked at anew because of events, before tiles are computed.
    pub open spec fn refreshed_for_events(
        self,
        refreshed: DaemonView,
        monitors: Seq<MonitorInfo>,
        cursor: Option<Point>,
    ) -> DaemonView {
        self.adopting(refreshed, monitors).with_game_mode(monitors).with_drag_followed(
            cursor,
            monitors,
        )
    }
}

/// What follows while events are gathered; another event joins them.
pub fn extend_batch(batch: &mut Vec<WindowEvent>, input: BatchInput) -> (r: BatchStep)
    requires
        old(batch).len() < MAX_BATCH_SIZE,
    ensures
        match input {
            BatchInput::Window(event) => {
                &&& final(batch)@ == old(batch)@.push(event)
                &&& r == if final(batch)@.len() < MAX_BATCH_SIZE {
                    BatchStep::Wait
                } else {
                    BatchStep::Handle
                }
            },
            BatchInput::Other => final(batch)@ == old(batch)@ && r == BatchStep::Wait,
            BatchInput::Shutdown => final(batch)@ == old(batch)@ && r == BatchStep::Stop,
            BatchInput::Silence => final(batch)@ == old(batch)@ && r == BatchStep::Handle,
        },
{
    match input {
        BatchInput::Window(event) => {
            batch.push(event);
            if batch.len() < MAX_BATCH_SIZE {
                BatchStep::Wait
            } else {
                BatchStep::Handle
            }
        },
        BatchInput::Other => BatchStep::Wait,
        BatchInput::Shutdown => BatchStep::Stop,
        BatchInput::Silence => BatchStep::Handle,
    }
}

fn are_all_moves(batch: &[WindowEvent]) -> (r: bool)
    ensures
        r == all_moves(batch@),
{
    let mut index: usize = 0;
    while index < batch.len()
        invariant
            index <= batch.len(),
            forall|i: int|
                0 <= i < index ==> (#[trigger] batch@[i]).kind == WindowEventKind::Moved,
        decreases batch.len() - index,
    {
        if batch[index].kind != WindowEventKind::Moved {
            return false;
        }
        index = index + 1;
    }
    true
}

fn has_event_of(batch: &[WindowEvent], window: WindowHandle) -> (r: bool)
    ensures
        r == some_of_window(batch@, window),
{
    let mut index: usize = 0;
    while index < batch.len()
        invariant
            index <= batch.len(),
            forall|i: int| 0 <= i < index ==> (#[trigger] batch@[i]).window != window,
        decreases batch.len() - index,
    {
        if batch[index].window == window {
            return true;
        }
        index = index + 1;
    }
    false
}

/// How events that belong together are handled.
pub fn event_route(batch: &[WindowEvent]) -> (r: EventRoute)
    ensures
        r == route_of(batch@),
{
    if batch.len() == 0 {
        return EventRoute::Nothing;
    }
    if are_all_moves(batch) {
        return EventRoute::Moves;
    }
    if batch.len() != 1 {
        return EventRoute::Everything;
    }
    match batch[0].kind {
        WindowEventKind::MoveSizeStart | WindowEventKind::MoveSizeEnd => EventRoute::MoveSize,
        WindowEventKind::ForegroundChanged => EventRoute::Foreground,
        _ => EventRoute::Everything,
    }
}

/// The window of the first event that begins a move or a change of size.
pub fn movesize_start_window(batch: &[WindowEvent]) -> (r: Option<WindowHandle>)
    ensures
        r == (match first_kept(batch@, begins_movesize()) {
            Some(event) => Some(event.window),
            None => None,
        }),
{
    let ghost keep = begins_movesize();
    let mut found: Option<WindowEvent> = None;
    let mut index: usize = 0;
    while index < batch.len()
        invariant
            index <= batch.len(),
            keep == begins_movesize(),
            found == first_kept(batch@.take(index as int), keep),
        decreases batch.len() - index,
    {
        proof {
            lemma_first_kept_step(batch@, index as int, keep);
        }
        if found.is_none() && batch[index].kind == WindowEventKind::MoveSizeStart {
            found = Some(batch[index]);
        }
        index = index + 1;
    }
    proof {
        assert(batch@.take(index as int) =~= batch@);
    }
    match found {
        Some(event) => Some(event.window),
        None => None,
    }
}

/// What becomes of the tracker that follows a dragged window.
pub fn next_tracker_step(
    tracked_window: Option<WindowHandle>,
    active_drag: Option<WindowHandle>,
    batch: &[WindowEvent],
) -> (r: TrackerStep)
    ensures
        r == tracker_step(tracked_window, active_drag, batch@),
{
    let mut ended: bool = false;
    if let Some(window) = tracked_window {
        let mut index: usize = 0;
        while index < batch.len()
            invariant
                index <= batch.len(),
                tracked_window == Some(window),
                ended == ends_movesize_of(batch@.take(index as int), tracked_window),
            decreases batch.len() - index,
        {
            proof {
                lemma_ends_step(batch@, index as int, tracked_window);
            }
            if batch[index].kind == WindowEventKind::MoveSizeEnd && batch[index].window == window {
                ended = true;
            }
            index = index + 1;
        }
        proof {
            assert(batch@.take(index as int) =~= batch@);
        }
    }
    let stop: bool = ended || (tracked_window.is_some() && tracked_window != active_drag);
    let left: Option<WindowHandle> = if stop {
        None
    } else {
        tracked_window
    };
    TrackerStep {
        stop,
        start: if active_drag.is_some() && left != active_drag {
            active_drag
        } else {
            None
        },
    }
}

/// What a look at the mouse during a drag tells, from where the cursor was last seen and, if it could be
/// read, where it is.
pub fn drag_poll(
    left_button_down: bool,
    last_cursor: Option<Point>,
    cursor: Option<Point>,
) -> (r: DragPoll)
    ensures
        r is Ended <==> !left_button_down,
        r is Lost <==> left_button_down && cursor is None,
        forall|at: Point|
            r == DragPoll::Moved(at) <==> left_button_down && cursor == Some(at) && last_cursor
                != Some(at),
{
    if !left_button_down {
        return DragPoll::Ended;
    }
    match cursor {
        Some(at) => if last_cursor == Some(at) {
            DragPoll::Still
        } else {
            DragPoll::Moved(at)
        },
        None => DragPoll::Lost,
    }
}

proof fn lemma_ends_step(batch: Seq<WindowEvent>, i: int, window: Option<WindowHandle>)
    requires
        0 <= i < batch.len(),
    ensures
        ends_movesize_of(batch.take(i + 1), window) == (ends_movesize_of(batch.take(i), window) || (
        batch[i].kind == WindowEventKind::MoveSizeEnd && window == Some(batch[i].window))),
{
    let longer = batch.take(i + 1);
    let shorter = batch.take(i);
    assert(longer[i] == batch[i]);
    if ends_movesize_of(longer, window) {
        let k = choose|k: int|
            0 <= k < longer.len() && (#[trigger] longer[k]).kind == WindowEventKind::MoveSizeEnd
                && window == Some(longer[k].window);
        if k < i {
            assert(shorter[k] == longer[k]);
        }
    }
    if ends_movesize_of(shorter, window) {
        let k = choose|k: int|
            0 <= k < shorter.len() && (#[trigger] shorter[k]).kind == WindowEventKind::MoveSizeEnd
                && window == Some(shorter[k].window);
        assert(longer[k] == shorter[k]);
    }
}

impl DaemonState {
    /// Whether an event is of no account because its window is dragged with modifier keys.
    pub fn should_ignore_modifier_drag_window_event(&self, event: WindowEvent) -> (r: bool)
        requires
            self.wf(),
        ensures
            r == self@.ignores()(event),
    {
        let moves: bool = match event.kind {
            WindowEventKind::Moved | WindowEventKind::MoveSizeStart | WindowEventKind::MoveSizeEnd => true,
            _ => false,
        };
        let dragged: bool = match self.active_modifier_drag {
            Some(drag) => drag.window == event.window,
            None => false,
        };
        moves && (dragged || self.suppressed_modifier_drag_events.contains_key(event.window.0))
    }

    /// Whether an event is a move of the dragged window.
    pub fn should_process_moved_event_immediately(&self, event: WindowEvent) -> (r: bool)
        ensures
            r == self@.is_drag_move(event),
    {
        let interactive: bool = match self.active_interactive_drag_window() {
            Some(window) => window == event.window,
            None => false,
        };
        let dragged: bool = match self.active_modifier_drag {
            Some(drag) => drag.window == event.window,
            None => false,
        };
        event.kind == WindowEventKind::Moved && (interactive || dragged)
    }

    /// When an event is handled.
    pub fn event_timing(&self, event: WindowEvent) -> (r: EventTiming)
        ensures
            r == self@.timing(event),
    {
        if self.should_process_moved_event_immediately(event) {
            EventTiming::Now
        } else if event.kind == WindowEventKind::Moved {
            EventTiming::After(LOW_LATENCY_MOVE_DEBOUNCE_MS)
        } else if should_process_window_event_immediately(event) {
            EventTiming::Now
        } else {
            EventTiming::After(RECONCILE_DEBOUNCE_MS)
        }
    }

    /// The events that are of account, each report once; what was held against drags is forgotten.
    pub fn take_relevant_events(&mut self, batch: &[WindowEvent]) -> (r: Vec<WindowEvent>)
        requires
            old(self).wf(),
        ensures
            final(self).wf(),
            final(self)@ == (DaemonView { suppressed: Map::empty(), ..old(self)@ }),
            r@ == coalesced(batch@.filter(old(self)@.heeds())),
    {
        let ghost keep = self@.heeds();
        let mut heeded: Vec<WindowEvent> = Vec::new();
        let mut index: usize = 0;
        proof {
            lemma_filter_ends(batch@, keep);
        }
        while index < batch.len()
            invariant
                index <= batch.len(),
                self.wf(),
                *self == *old(self),
                keep == self@.heeds(),
                heeded@ == batch@.take(index as int).filter(keep),
            decreases batch.len() - index,
        {
            proof {
                lemma_filter_step(batch@, index as int, keep);
            }
            if !self.should_ignore_modifier_drag_window_event(batch[index]) {
                heeded.push(batch[index]);
            }
            index = index + 1;
        }
        proof {
            lemma_filter_ends(batch@, keep);
        }
        self.suppressed_modifier_drag_events.clear();
        coalesce_window_events(&heeded)
    }

    /// The window that seems to be dragged when windows move.
    pub fn inferred_native_drag_window(&self, batch: &[WindowEvent]) -> (r: Option<WindowHandle>)
        requires
            self.wf(),
        ensures
            r == self@.inferred_drag(batch@),
    {
        if let Some(foreground) = self.foreground {
            if self.windows.contains_key(foreground.0) && has_event_of(batch, foreground) {
                return Some(foreground);
            }
        }
        let ghost keep = self@.is_of_known();
        let mut found: Option<WindowEvent> = None;
        let mut index: usize = 0;
        while index < batch.len()
            invariant
                index <= batch.len(),
                self.wf(),
                keep == self@.is_of_known(),
                found == first_kept(batch@.take(index as int), keep),
            decreases batch.len() - index,
        {
            proof {
                lemma_first_kept_step(batch@, index as int, keep);
            }
            if found.is_none() && self.windows.contains_key(batch[index].window.0) {
                found = Some(batch[index]);
            }
            index = index + 1;
        }
        proof {
            assert(batch@.take(index as int) =~= batch@);
        }
        match found {
            Some(event) => Some(event.window),
            None => None,
        }
    }

    /// The window for which a drag is begun when windows move while the mouse button is held.
    pub fn drag_from_moved_events(&self, batch: &[WindowEvent], left_button_down: bool) -> (r: Option<
        WindowHandle,
    >)
        requires
            self.wf(),
        ensures
            r == self@.drag_begun_by_moves(batch@, left_button_down),
    {
        if self.active_interactive_drag.is_some() || self.active_modifier_drag.is_some()
            || !left_button_down || !are_all_moves(batch) {
            return None;
        }
        self.inferred_native_drag_window(batch)
    }

    /// Whether events call for a new computation of the tiles.
    pub fn should_retile_after_events(&self, batch: &[WindowEvent], diff: &SnapshotDiff) -> (r: bool)
        ensures
            r == self@.retiles_after(batch@, diff.moved_between_monitors),
    {
        if !self.config.dynamic_retile {
            return false;
        }
        let mut index: usize = 0;
        while index < batch.len()
            invariant
                index <= batch.len(),
                self.config.dynamic_retile,
                forall|i: int| 0 <= i < index ==> !retiles_on((#[trigger] batch@[i]).kind),
            decreases batch.len() - index,
        {
            match batch[index].kind {
                WindowEventKind::Created
                | WindowEventKind::Destroyed
                | WindowEventKind::Shown
                | WindowEventKind::Hidden
                | WindowEventKind::Minimized
                | WindowEventKind::Restored
                | WindowEventKind::MetadataChanged => {
                    return true;
                },
                _ => {},
            }
            index = index + 1;
        }
        diff.moved_between_monitors > 0
    }

    /// Notes what events say of moves and sizes, and gives the tiles that they call for. A reading goes
    /// with each event.
    pub fn plan_after_window_events(
        &mut self,
        batch: &[WindowEvent],
        readings: &[DragReading],
        diff: &SnapshotDiff,
        monitors: &[MonitorInfo],
        cursor_position: Option<Point>,
    ) -> (r: Vec<TileAssignment>)
        requires
            old(self).wf(),
            readings.len() == batch.len(),
            old(self).tile_order.len() + batch.len() <= i32::MAX || (
            old(self)@.orders_what_it_arranges() && old(self).tile_order.len() <= i32::MAX),
        ensures
            final(self).wf(),
            (final(self)@, r@) == old(self)@.planned_after(
                batch@,
                readings@,
                diff.moved_between_monitors,
                monitors@,
                cursor_position,
            ),
            final(self).tile_order.len() <= i32::MAX,
    {
        let ghost before = self@;
        let wanted: bool = self.should_retile_after_events(batch, diff);
        let mut movesize_wants: bool = false;
        let mut index: usize = 0;
        proof {
            assert(batch@.take(0) =~= Seq::empty());
        }
        while index < batch.len()
            invariant
                index <= batch.len(),
                self.wf(),
                readings.len() == batch.len(),
                self.tile_order.len() + (batch.len() - index) <= i32::MAX || (
                self@.orders_what_it_arranges() && self.tile_order.len() <= i32::MAX),
                (self@, movesize_wants) == before.with_movesizes(
                    batch@.take(index as int),
                    readings@,
                    monitors@,
                ),
            decreases batch.len() - index,
        {
            let event: WindowEvent = batch[index];
            proof {
                assert(batch@.take(index + 1).drop_last() =~= batch@.take(index as int));
                assert(batch@.take(index + 1).last() == event);
                lemma_without(self@.tile_order, event.window);
                lemma_ended_order(self@, event.window, monitors@, None);
                if self@.orders_what_it_arranges() {
                    letting_go_orders_what_is_arranged(self@, event.window, monitors@);
                    picking_up_orders_what_is_arranged(
                        self@,
                        event.window,
                        readings@[index as int],
                        monitors@,
                    );
                }
            }
            match event.kind {
                WindowEventKind::MoveSizeStart => {
                    if self.handle_movesize_start(event.window, readings[index], monitors) {
                        movesize_wants = movesize_wants || self.config.dynamic_retile;
                    }
                },
                WindowEventKind::MoveSizeEnd => {
                    if self.handle_movesize_end(event.window, monitors, None) {
                        movesize_wants = true;
                    }
                },
                _ => {},
            }
            index = index + 1;
        }
        proof {
            assert(batch@.take(index as int) =~= batch@);
        }
        let ghost moved = self@;
        let mut place: usize = 0;
        while place < batch.len()
            invariant
                place <= batch.len(),
                self.wf(),
                self.tile_order.len() <= i32::MAX,
                self@ == moved.with_limits_forgotten(batch@.take(place as int)),
            decreases batch.len() - place,
        {
            proof {
                assert(batch@.take(place + 1).drop_last() =~= batch@.take(place as int));
                assert(batch@.take(place + 1).last() == batch@[place as int]);
            }
            let ghost held = self@;
            if batch[place].kind == WindowEventKind::MetadataChanged {
                self.forget_learned_size_constraint(batch[place].window);
            }
            proof {
                assert(self@.tile_order == held.tile_order);
            }
            place = place + 1;
        }
        proof {
            assert(batch@.take(place as int) =~= batch@);
        }
        if wanted || movesize_wants {
            self.tile_assignments(monitors, cursor_position)
        } else {
            Vec::new()
        }
    }

    /// The tiles after it is taken into account whether game mode ended or goes on.
    pub fn settle_moves(
        &mut self,
        planned: Vec<TileAssignment>,
        transition: GameModeTransition,
        monitors: &[MonitorInfo],
        cursor_position: Option<Point>,
    ) -> (r: Vec<TileAssignment>)
        requires
            old(self).wf(),
            old(self).tile_order.len() <= i32::MAX,
        ensures
            final(self).wf(),
            (final(self)@, r@) == old(self)@.settled(
                planned@,
                transition.deactivated,
                monitors@,
                cursor_position,
            ),
    {
        if transition.deactivated && self.config.dynamic_retile {
            return self.tile_assignments(monitors, cursor_position);
        }
        if self.game_mode_pauses_layouts() {
            return Vec::new();
        }
        planned
    }

    /// Where a window is that is reported to have moved.
    pub fn current_move_event_rect(
        &self,
        window: WindowHandle,
        active_drag_move: bool,
        cursor: Option<Point>,
        actual: Option<Rect>,
    ) -> (r: Option<Rect>)
        requires
            self.wf(),
        ensures
            r == self@.moved_rect(window, active_drag_move, cursor, actual),
    {
        let is_dragged: bool = match self.active_interactive_drag_window() {
            Some(active) => active == window,
            None => false,
        };
        if active_drag_move && is_dragged {
            if let Some(point) = cursor {
                return self.interactive_drag_rect_from_cursor(window, point);
            }
            if let Some(info) = self.windows.get(window.0) {
                return Some(info.rect);
            }
        }
        actual
    }

    /// The windows of events in ascending order of their handles, each once; none if one of them is not
    /// known.
    pub fn moved_windows(&self, batch: &[WindowEvent]) -> (r: Option<Vec<WindowHandle>>)
        requires
            self.wf(),
        ensures
            match r {
                Some(windows) => {
                    &&& windows@ == ordered_handles(windows_of(batch@))
                    &&& forall|i: int|
                        0 <= i < batch@.len() ==> self@.windows.contains_key(
                            (#[trigger] batch@[i]).window.0,
                        )
                },
                None => exists|i: int|
                    0 <= i < batch@.len() && !self@.windows.contains_key(
                        (#[trigger] batch@[i]).window.0,
                    ),
            },
    {
        let mut set: SortedMap<()> = SortedMap::new();
        let mut index: usize = 0;
        proof {
            assert(set@ =~= windows_of(batch@.take(0)));
        }
        while index < batch.len()
            invariant
                index <= batch.len(),
                self.wf(),
                set.wf(),
                set@ == windows_of(batch@.take(index as int)),
                forall|i: int|
                    0 <= i < index ==> self@.windows.contains_key((#[trigger] batch@[i]).window.0),
            decreases batch.len() - index,
        {
            let window: WindowHandle = batch[index].window;
            if !self.windows.contains_key(window.0) {
                return None;
            }
            let ghost before = set@;
            set.insert(window.0, ());
            proof {
                lemma_windows_of_step(batch@, index as int);
                assert(set@ =~= windows_of(batch@.take(index + 1)));
            }
            index = index + 1;
        }
        proof {
            assert(batch@.take(index as int) =~= batch@);
        }
        Some(handles_of(&set))
    }

    /// Notes that a window came to a rectangle; says whether it is on another monitor.
    pub fn note_moved_window(&mut self, window: WindowHandle, rect: Rect, monitors: &[MonitorInfo]) -> (r: bool)
        requires
            old(self).wf(),
            old(self)@.windows.contains_key(window.0),
        ensures
            final(self).wf(),
            r == old(self)@.changes_monitor(window, rect, monitors@),
            final(self)@ == old(self)@.with_moved_window(window, rect, monitors@),
            final(self).tile_order@ == old(self).tile_order@,
            final(self)@.windows.dom() == old(self)@.windows.dom(),
    {
        let old_rect: Rect = match self.windows.get(window.0) {
            Some(info) => info.rect,
            None => {
                return false;
            },
        };
        let old_monitor: Option<MonitorId> = monitor_for_rect(old_rect, monitors);
        let new_monitor: Option<MonitorId> = monitor_for_rect(rect, monitors);
        if old_rect != rect {
            self.update_window_rect(window, rect);
        }
        let changed: bool = match (old_monitor, new_monitor) {
            (Some(from), Some(to)) => {
                if from != to {
                    self.window_monitor_overrides.insert(window.0, to);
                }
                from != to
            },
            _ => false,
        };
        proof {
            assert(self@.windows.dom() =~= old(self)@.windows.dom());
        }
        changed
    }

    /// Notes that windows came to rectangles and whether the focused one was found to be a game; says
    /// what follows.
    pub fn reconcile_moved_windows(
        &mut self,
        windows: &[WindowHandle],
        rects: &[Rect],
        monitors: &[MonitorInfo],
    ) -> (r: MovedOutcome)
        requires
            old(self).wf(),
            rects.len() == windows.len(),
            forall|i: int|
                0 <= i < windows@.len() ==> old(self)@.windows.contains_key(
                    (#[trigger] windows@[i]).0,
                ),
        ensures
            final(self).wf(),
            ({
                let moved = old(self)@.with_moved_windows(windows@, rects@, monitors@);
                &&& final(self)@ == moved.with_game_mode(monitors@)
                &&& r.retile_after_game == (moved.game_transition(monitors@).deactivated
                    && final(self)@.config.dynamic_retile)
                &&& r.retile_for_monitor == (old(self)@.some_change_monitor(
                    windows@,
                    rects@,
                    monitors@,
                ) && final(self)@.config.dynamic_retile
                    && !final(self)@.game_mode.pauses_layouts())
            }),
            final(self).tile_order@ == old(self).tile_order@,
    {
        let ghost before = self@;
        let mut between_monitors: bool = false;
        let mut index: usize = 0;
        proof {
            assert(windows@.take(0) =~= Seq::empty());
        }
        while index < windows.len()
            invariant
                index <= windows.len(),
                self.wf(),
                rects.len() == windows.len(),
                forall|i: int|
                    0 <= i < windows@.len() ==> before.windows.contains_key(
                        (#[trigger] windows@[i]).0,
                    ),
                self@.windows.dom() == before.windows.dom(),
                self@ == before.with_moved_windows(windows@.take(index as int), rects@, monitors@),
                between_monitors == before.some_change_monitor(
                    windows@.take(index as int),
                    rects@,
                    monitors@,
                ),
                self.tile_order@ == old(self).tile_order@,
            decreases windows.len() - index,
        {
            let window: WindowHandle = windows[index];
            proof {
                assert(windows@.take(index + 1).drop_last() =~= windows@.take(index as int));
                assert(windows@.take(index + 1).last() == window);
                assert(before.windows.contains_key(windows@[index as int].0));
                assert(self@.windows.dom().contains(window.0));
            }
            if self.note_moved_window(window, rects[index], monitors) {
                between_monitors = true;
            }
            index = index + 1;
        }
        proof {
            assert(windows@.take(index as int) =~= windows@);
        }
        let transition: GameModeTransition = self.update_game_mode(monitors);
        MovedOutcome {
            retile_after_game: transition.deactivated && self.config.dynamic_retile,
            retile_for_monitor: between_monitors && self.config.dynamic_retile
                && !self.game_mode_pauses_layouts(),
        }
    }

    /// Notes where a window is that is moved or sized.
    pub fn refresh_movesize_event_rect(
        &mut self,
        window: WindowHandle,
        reading: DragReading,
        monitors: &[MonitorInfo],
    )
        requires
            old(self).wf(),
        ensures
            final(self).wf(),
            final(self)@ == old(self)@.with_movesize_rect(window, reading, monitors@),
            final(self).tile_order@ == old(self).tile_order@,
    {
        let is_dragged: bool = match self.active_interactive_drag_window() {
            Some(active) => active == window,
            None => false,
        };
        if is_dragged {
            self.refresh_active_interactive_drag_rect_from_cursor(reading.cursor, monitors);
            return ;
        }
        if let Some(rect) = reading.rect {
            self.update_cached_window_rect(window, rect, monitors);
        }
    }

    /// Handles the beginning or the end of a move or a change of size; gives the tiles that it calls
    /// for, or nothing if the window is not known.
    pub fn reconcile_movesize_event(
        &mut self,
        event: WindowEvent,
        reading: DragReading,
        monitors: &[MonitorInfo],
    ) -> (r: Option<Vec<TileAssignment>>)
        requires
            old(self).wf(),
            old(self).tile_order.len() < i32::MAX,
        ensures
            final(self).wf(),
            if old(self)@.windows.contains_key(event.window.0) {
                let noted = old(self)@.with_game_mode(monitors@);
                let planned = noted.movesize_planned(event, reading, monitors@);
                &&& r matches Some(moves)
                &&& (final(self)@, moves@) == planned.0.settled(
                    planned.1,
                    old(self)@.game_transition(monitors@).deactivated,
                    monitors@,
                    reading.cursor,
                )
            } else {
                r is None && final(self)@ == old(self)@
            },
    {
        if !self.windows.contains_key(event.window.0) {
            return None;
        }
        let transition: GameModeTransition = self.update_game_mode(monitors);
        let batch: Vec<WindowEvent> = vec![event];
        let readings: Vec<DragReading> = vec![reading];
        let unchanged: SnapshotDiff = SnapshotDiff::default();
        proof {
            assert(batch@ =~= seq![event]);
            assert(readings@ =~= seq![reading]);
        }
        let planned: Vec<TileAssignment> = if event.kind == WindowEventKind::MoveSizeStart {
            let planned: Vec<TileAssignment> = self.plan_after_window_events(
                &batch,
                &readings,
                &unchanged,
                monitors,
                reading.cursor,
            );
            self.refresh_movesize_event_rect(event.window, reading, monitors);
            planned
        } else {
            self.refresh_movesize_event_rect(event.window, reading, monitors);
            self.plan_after_window_events(
                &batch,
                &readings,
                &unchanged,
                monitors,
                reading.cursor,
            )
        };
        Some(self.settle_moves(planned, transition, monitors, reading.cursor))
    }

    /// Notes that the focus moved, and whether the focused window was found to be a game; says whether
    /// tiles are computed because game mode ended.
    pub fn note_foreground(
        &mut self,
        foreground: Option<WindowHandle>,
        monitors: &[MonitorInfo],
    ) -> (r: bool)
        requires
            old(self).wf(),
        ensures
            final(self).wf(),
            ({
                let focused = old(self)@.with_foreground(foreground, monitors@);
                &&& final(self)@ == focused.with_game_mode(monitors@)
                &&& r == (focused.game_transition(monitors@).deactivated
                    && final(self)@.config.dynamic_retile)
            }),
            final(self).tile_order@ == old(self).tile_order@,
    {
        self.foreground = foreground;
        if let Some(window) = foreground {
            self.focus_monitor_for_window(window, monitors);
        }
        let transition: GameModeTransition = self.update_game_mode(monitors);
        transition.deactivated && self.config.dynamic_retile
    }

    /// Tiles the windows when the daemon starts, if the settings say so and no game pauses the layouts;
    /// gives the tiles.
    pub fn startup_retile(
        &mut self,
        monitors: &[MonitorInfo],
        cursor_position: Option<Point>,
    ) -> (r: Option<Vec<TileAssignment>>)
        requires
            old(self).wf(),
            old(self).tile_order.len() <= i32::MAX,
        ensures
            final(self).wf(),
            ({
                let found = old(self)@.synced(monitors@).with_game_mode(monitors@);
                if !old(self)@.config.startup_retile {
                    final(self)@ == old(self)@ && r is None
                } else if found.game_mode.pauses_layouts() {
                    final(self)@ == found && r is None
                } else {
                    final(self)@ == found.retiled(monitors@, cursor_position) && (r matches Some(tiles)
                        && tiles@ == found.all_tiles(monitors@, cursor_position))
                }
            }),
    {
        if !self.config.startup_retile {
            return None;
        }
        proof {
            lemma_synced_keeps(self@, monitors@);
        }
        self.sync_workspace_state(monitors);
        self.update_game_mode(monitors);
        if self.game_mode_pauses_layouts() {
            return None;
        }
        Some(self.tile_assignments(monitors, cursor_position))
    }

    /// Takes over a fresh look at everything because of events; gives what changed and the tiles that
    /// the events call for, or nothing if there are too many windows to be tiled.
    pub fn reconcile_refreshed(
        &mut self,
        refreshed: DaemonState,
        batch: &[WindowEvent],
        readings: &[DragReading],
        monitors: &[MonitorInfo],
        cursor_position: Option<Point>,
    ) -> (r: (SnapshotDiff, Option<Vec<TileAssignment>>))
        requires
            old(self).wf(),
            refreshed.wf(),
            readings.len() == batch.len(),
        ensures
            final(self).wf(),
            old(self)@.is_diff(refreshed@, monitors@, r.0),
            ({
                let adopted = old(self)@.adopting(refreshed@, monitors@);
                let noted = old(self)@.refreshed_for_events(
                    refreshed@,
                    monitors@,
                    cursor_position,
                );
                let planned = noted.planned_after(
                    batch@,
                    readings@,
                    r.0.moved_between_monitors,
                    monitors@,
                    cursor_position,
                );
                if noted.tile_order.len() > i32::MAX {
                    r.1 is None && final(self)@ == noted
                } else {
                    &&& r.1 matches Some(moves)
                    &&& (final(self)@, moves@) == planned.0.settled(
                        planned.1,
                        adopted.game_transition(monitors@).deactivated,
                        monitors@,
                        cursor_position,
                    )
                }
            }),
    {
        proof {
            refreshed_state_orders_what_it_arranges(
                old(self)@,
                refreshed,
                monitors@,
                cursor_position,
            );
        }
        let diff: SnapshotDiff = self.adopt(refreshed, monitors);
        let transition: GameModeTransition = self.update_game_mode(monitors);
        self.refresh_active_interactive_drag_rect_from_cursor(cursor_position, monitors);
        if self.tile_order.len() > 0x7fff_ffff {
            return (diff, None);
        }
        let planned: Vec<TileAssignment> = self.plan_after_window_events(
            batch,
            readings,
            &diff,
            monitors,
            cursor_position,
        );
        let moves: Vec<TileAssignment> = self.settle_moves(
            planned,
            transition,
            monitors,
            cursor_position,
        );
        (diff, Some(moves))
    }
}

proof fn lemma_windows_of_step(batch: Seq<WindowEvent>, i: int)
    requires
        0 <= i < batch.len(),
    ensures
        forall|key: u64| #[trigger]
            windows_of(batch.take(i + 1)).contains_key(key) <==> windows_of(
                batch.take(i),
            ).contains_key(key) || key == batch[i].window.0,
{
    let longer = batch.take(i + 1);
    let shorter = batch.take(i);
    assert(longer[i] == batch[i]);
    assert forall|key: u64| #[trigger] windows_of(longer).contains_key(key) <==> windows_of(
        shorter,
    ).contains_key(key) || key == batch[i].window.0 by {
        let window = WindowHandle(key);
        if some_of_window(longer, window) {
            let k = choose|k: int| 0 <= k < longer.len() && (#[trigger] longer[k]).window == window;
            if k < i {
                assert(shorter[k] == longer[k]);
            }
        }
        if some_of_window(shorter, window) {
            let k = choose|k: int|
                0 <= k < shorter.len() && (#[trigger] shorter[k]).window == window;
            assert(longer[k] == shorter[k]);
        }
    }
}

} // verus!
