//! Windows that are dragged, and what becomes of them when they are let go.

use vstd::prelude::*;

use crate::daemon_drop::lemma_dropped_order;
use crate::daemon_state::{
    ActiveInteractiveDrag, ActiveModifierDrag, DaemonState, DaemonView, DropContext,
    InteractiveDragView,
};
use crate::geometry::{MonitorInfo, Point, Rect, TileAssignment, WindowHandle};
use crate::handles::{lemma_without, without};
use crate::layout::WindowParticipation;
use crate::monitors::{dragged, monitor_for_rect, monitor_of_rect, offset_rect_by_cursor_delta};

verus! {

/// What the desktop says when a window is picked up or let go: where the cursor is, and where the
/// window is, as far as that could be read.
#[derive(Debug, Clone, Copy, PartialEq, Eq, Structural)]
pub struct DragReading {
    pub cursor: Option<Point>,
    pub rect: Option<Rect>,
}

impl DaemonView {
    /// The state after a window was seen at a rectangle, and so on a monitor.
    pub open spec fn with_rect_seen(self, window: WindowHandle, rect: Rect, monitors: Seq<MonitorInfo>) -> DaemonView {
        let seen = self.with_window_rect(window, rect);
        match monitor_of_rect(rect, monitors) {
            Some(monitor) => DaemonView {
                overrides: seen.overrides.insert(window.0, monitor),
                ..seen
            },
            None => seen,
        }
    }

    /// Where a window that is dragged by its title bar is, going by the cursor.
    pub open spec fn drag_rect(self, window: WindowHandle, cursor: Point) -> Option<Rect> {
        match self.interactive_drag {
            Some(drag) => if drag.window == window {
                Some(dragged(drag.start_rect, drag.start_cursor, cursor))
            } else {
                None
            },
            None => None,
        }
    }

    /// Whether it is news that the dragged window is at a rectangle.
    pub open spec fn drag_moves(self, window: WindowHandle, rect: Rect) -> bool {
        &&& self.interactive_window() == Some(window)
        &&& self.windows.contains_key(window.0)
        &&& self.windows[window.0].rect != rect
    }

    /// The state after the dragged window came to a rectangle.
    pub open spec fn with_drag_rect(self, window: WindowHandle, rect: Rect, monitors: Seq<MonitorInfo>) -> DaemonView {
        if self.drag_moves(window, rect) {
            self.with_rect_seen(window, rect, monitors)
        } else {
            self
        }
    }

    /// The state after the dragged window, if there is one, followed the cursor.
    pub open spec fn with_drag_followed(self, cursor: Option<Point>, monitors: Seq<MonitorInfo>) -> DaemonView {
        match (self.interactive_window(), cursor) {
            (Some(window), Some(point)) => self.with_drag_rect(
                window,
                self.drag_rect(window, point).unwrap(),
                monitors,
            ),
            _ => self,
        }
    }

    /// Whether following the cursor moves the dragged window.
    pub open spec fn drag_follows(self, cursor: Option<Point>) -> bool {
        match (self.interactive_window(), cursor) {
            (Some(window), Some(point)) => self.drag_moves(
                window,
                self.drag_rect(window, point).unwrap(),
            ),
            _ => false,
        }
    }

    /// Whether a window can be picked up.
    pub open spec fn can_pick_up(self, window: WindowHandle, monitors: Seq<MonitorInfo>) -> bool {
        self.interactive_window() != Some(window) && self.movable(window, monitors)
    }

    /// Where a window is picked up: where it was read to be, or else where it was last seen.
    pub open spec fn pick_up_rect(self, window: WindowHandle, rect: Option<Rect>) -> Rect {
        match rect {
            Some(rect) => rect,
            None => self.windows[window.0].rect,
        }
    }

    /// The state after a window was picked up by its title bar.
    pub open spec fn with_drag_started(
        self,
        window: WindowHandle,
        reading: DragReading,
        monitors: Seq<MonitorInfo>,
    ) -> DaemonView {
        if self.can_pick_up(window, monitors) {
            let start_rect = self.pick_up_rect(window, reading.rect);
            let start_cursor = match reading.cursor {
                Some(cursor) => cursor,
                None => start_rect.middle(),
            };
            DaemonView {
                interactive_drag: Some(
                    InteractiveDragView { window, start_cursor, start_rect, monitors },
                ),
                ..self.with_rect_seen(window, start_rect, monitors)
            }
        } else {
            self
        }
    }

    /// The state after a window was let go.
    pub open spec fn with_drag_finished(self, window: WindowHandle) -> DaemonView {
        if self.interactive_window() == Some(window) {
            DaemonView { interactive_drag: None, ..self }
        } else {
            self
        }
    }

    /// Whether a window is taken out of the tiling while it is dragged.
    pub open spec fn floats_for_a_while(self, window: WindowHandle, monitors: Seq<MonitorInfo>) -> bool {
        &&& self.takes_part(window) != WindowParticipation::Floating
        &&& self.owner(window, monitors) matches Some(monitor)
        &&& self.tilable(window, monitor)
    }

    /// The state after a window was taken out of the tiling for a while, if it is.
    pub open spec fn with_float_for_a_while(self, window: WindowHandle, monitors: Seq<MonitorInfo>) -> DaemonView {
        if self.floats_for_a_while(window, monitors) {
            self.with_previous_rect(window).with_participation(
                window,
                WindowParticipation::TemporarilyFloating,
            )
        } else {
            self
        }
    }

    /// The state after a window began to be moved or sized, before it is taken out of the tiling.
    pub open spec fn picked_up(
        self,
        window: WindowHandle,
        reading: DragReading,
        monitors: Seq<MonitorInfo>,
    ) -> DaemonView {
        (DaemonView { learned: self.learned.remove(window.0), ..self }).with_drag_started(
            window,
            reading,
            monitors,
        )
    }

    /// The state after a window began to be moved or sized, and whether that took it out of the
    /// tiling.
    pub open spec fn movesize_started(
        self,
        window: WindowHandle,
        reading: DragReading,
        monitors: Seq<MonitorInfo>,
    ) -> (DaemonView, bool) {
        let picked = self.picked_up(window, reading, monitors);
        if self.config.drag_to_float {
            (
                picked.with_float_for_a_while(window, monitors),
                picked.floats_for_a_while(window, monitors),
            )
        } else {
            (picked, false)
        }
    }

    /// The state after a window that was out of the tiling for a while was dropped back into it.
    pub open spec fn put_back(
        self,
        window: WindowHandle,
        monitors: Seq<MonitorInfo>,
        context: Option<DropContext>,
    ) -> DaemonView {
        if self.takes_part(window) == WindowParticipation::TemporarilyFloating {
            let place = self.drop_context(window, context);
            let dropped = match place {
                Some(context) => self.dropped(window, monitors, context.rect, context.cursor).0,
                None => self,
            };
            if dropped.takes_part(window) == WindowParticipation::TemporarilyFloating {
                dropped.with_participation(window, WindowParticipation::Tiled)
            } else {
                dropped
            }
        } else {
            self
        }
    }

    /// Whether a layout can count the windows when a window is let go: only one that is put back among
    /// the tiles takes a place.
    pub open spec fn can_let_go(self, window: WindowHandle) -> bool {
        self.takes_part(window) == WindowParticipation::TemporarilyFloating || self.may_come_back(
            window,
        ) ==> self.can_take(window)
    }

    /// The state after a window was moved or sized, and whether the tiles are computed anew.
    pub open spec fn movesize_ended(
        self,
        window: WindowHandle,
        monitors: Seq<MonitorInfo>,
        context: Option<DropContext>,
    ) -> (DaemonView, bool) {
        let finished = self.with_drag_finished(window);
        let back = finished.put_back(window, monitors, context);
        let reabsorbed = back.reabsorbed(window, monitors, context);
        (
            reabsorbed.0,
            reabsorbed.1 || (finished.takes_part(window)
                == WindowParticipation::TemporarilyFloating && self.config.retile_on_drag_end),
        )
    }

    /// The state after a drag with modifier keys began, before tiles are computed.
    pub open spec fn modifier_drag_started(
        self,
        window: WindowHandle,
        cursor: Point,
        start_rect: Rect,
        reading: DragReading,
        monitors: Seq<MonitorInfo>,
    ) -> DaemonView {
        let started = (DaemonView { foreground: Some(window), ..self }).movesize_started(
            window,
            reading,
            monitors,
        );
        DaemonView {
            modifier_drag: Some(
                ActiveModifierDrag {
                    window,
                    start_cursor: cursor,
                    last_cursor: cursor,
                    start_rect,
                    move_count: 0,
                    started_temporary_float: started.1,
                },
            ),
            ..started.0
        }
    }

    /// Whether a window is dragged with modifier keys.
    pub open spec fn is_modifier_dragged(self, window: WindowHandle) -> bool {
        self.modifier_drag matches Some(drag) && drag.window == window
    }

    /// Where a window that is dragged with modifier keys goes when the cursor is somewhere.
    pub open spec fn modifier_drag_rect(self, cursor: Point) -> Rect {
        dragged(
            self.modifier_drag.unwrap().start_rect,
            self.modifier_drag.unwrap().start_cursor,
            cursor,
        )
    }

    /// The state after a window was dragged on with modifier keys.
    pub open spec fn modifier_drag_moved(self, window: WindowHandle, cursor: Point) -> DaemonView {
        if self.is_modifier_dragged(window) {
            let drag = self.modifier_drag.unwrap();
            DaemonView {
                modifier_drag: Some(
                    ActiveModifierDrag {
                        last_cursor: cursor,
                        move_count: if drag.move_count == u32::MAX {
                            u32::MAX
                        } else {
                            (drag.move_count + 1) as u32
                        },
                        ..drag
                    },
                ),
                ..self.with_window_rect(window, self.modifier_drag_rect(cursor))
            }
        } else {
            self
        }
    }

    /// The state after a window that was dragged with modifier keys came to rest, and whether the
    /// tiles are computed anew.
    pub open spec fn modifier_drag_dropped(
        self,
        drag: ActiveModifierDrag,
        cursor: Point,
        accepted: Rect,
        monitors: Seq<MonitorInfo>,
    ) -> (DaemonView, bool) {
        let seen = self.with_rect_seen(drag.window, accepted, monitors);
        if drag.started_temporary_float || seen.may_come_back(drag.window) {
            let ended = seen.movesize_ended(
                drag.window,
                monitors,
                Some(DropContext { rect: accepted, cursor: Some(cursor) }),
            );
            if ended.1 {
                (
                    DaemonView {
                        suppressed: ended.0.suppressed.insert(drag.window.0, ()),
                        ..ended.0
                    },
                    true,
                )
            } else {
                ended
            }
        } else {
            (seen, false)
        }
    }
}

impl DaemonState {
    /// Notes that a window was seen at a rectangle, and so on a monitor.
    pub fn update_cached_window_rect(&mut self, window: WindowHandle, rect: Rect, monitors: &[MonitorInfo])
        requires
            old(self).wf(),
        ensures
            final(self).wf(),
            final(self)@ == old(self)@.with_rect_seen(window, rect, monitors@),
            final(self).tile_order@ == old(self).tile_order@,
    {
        self.update_window_rect(window, rect);
        if let Some(monitor) = monitor_for_rect(rect, monitors) {
            self.window_monitor_overrides.insert(window.0, monitor);
        }
    }

    /// Where a window that is dragged by its title bar is, going by the cursor.
    pub fn interactive_drag_rect_from_cursor(&self, window: WindowHandle, cursor: Point) -> (r: Option<
        Rect,
    >)
        ensures
            r == self@.drag_rect(window, cursor),
    {
        match &self.active_interactive_drag {
            None => None,
            Some(drag) => if drag.window == window {
                Some(offset_rect_by_cursor_delta(drag.start_rect, drag.start_cursor, cursor))
            } else {
                None
            },
        }
    }

    /// Notes where the dragged window is; says whether that is news.
    pub fn apply_interactive_drag_rect(
        &mut self,
        window: WindowHandle,
        rect: Rect,
        monitors: &[MonitorInfo],
    ) -> (r: bool)
        requires
            old(self).wf(),
        ensures
            final(self).wf(),
            r == old(self)@.drag_moves(window, rect),
            final(self)@ == old(self)@.with_drag_rect(window, rect, monitors@),
            final(self).tile_order@ == old(self).tile_order@,
    {
        match self.active_interactive_drag_window() {
            None => {
                return false;
            },
            Some(active) => {
                if active != window {
                    return false;
                }
            },
        }
        match self.windows.get(window.0) {
            None => {
                return false;
            },
            Some(info) => {
                if info.rect == rect {
                    return false;
                }
            },
        }
        self.update_cached_window_rect(window, rect, monitors);
        true
    }

    /// Lets the dragged window, if there is one, follow the cursor; says whether it moved.
    pub fn refresh_active_interactive_drag_rect_from_cursor(
        &mut self,
        cursor: Option<Point>,
        monitors: &[MonitorInfo],
    ) -> (r: bool)
        requires
            old(self).wf(),
        ensures
            final(self).wf(),
            r == old(self)@.drag_follows(cursor),
            final(self)@ == old(self)@.with_drag_followed(cursor, monitors@),
            final(self).tile_order@ == old(self).tile_order@,
    {
        let window: WindowHandle = match self.active_interactive_drag_window() {
            Some(window) => window,
            None => {
                return false;
            },
        };
        let point: Point = match cursor {
            Some(point) => point,
            None => {
                return false;
            },
        };
        match self.interactive_drag_rect_from_cursor(window, point) {
            Some(rect) => self.apply_interactive_drag_rect(window, rect, monitors),
            None => false,
        }
    }

    /// Lets a window that is dragged by its title bar follow the cursor over the monitors that were
    /// there when it was picked up; says whether it moved.
    pub fn handle_interactive_drag_tick(&mut self, window: WindowHandle, cursor: Point) -> (r: bool)
        requires
            old(self).wf(),
        ensures
            final(self).wf(),
            match old(self)@.interactive_drag {
                Some(drag) => if drag.window == window {
                    &&& r == old(self)@.drag_follows(Some(cursor))
                    &&& final(self)@ == old(self)@.with_drag_followed(Some(cursor), drag.monitors)
                } else {
                    !r && final(self)@ == old(self)@
                },
                None => !r && final(self)@ == old(self)@,
            },
    {
        let monitors: Vec<MonitorInfo> = match &self.active_interactive_drag {
            None => {
                return false;
            },
            Some(drag) => {
                if drag.window != window {
                    return false;
                }
                drag.monitors.clone()
            },
        };
        proof {
            assert(monitors@ =~= self@.interactive_drag.unwrap().monitors);
        }
        self.refresh_active_interactive_drag_rect_from_cursor(Some(cursor), &monitors)
    }

    /// Picks a window up by its title bar.
    pub fn start_interactive_drag(
        &mut self,
        window: WindowHandle,
        reading: DragReading,
        monitors: &[MonitorInfo],
    )
        requires
            old(self).wf(),
        ensures
            final(self).wf(),
            final(self)@ == old(self)@.with_drag_started(window, reading, monitors@),
            final(self).tile_order@ == old(self).tile_order@,
    {
        if let Some(active) = self.active_interactive_drag_window() {
            if active == window {
                return ;
            }
        }
        if !self.is_command_movable_window(window, monitors) {
            return ;
        }
        let cached_rect: Rect = match self.windows.get(window.0) {
            Some(info) => info.rect,
            None => {
                return ;
            },
        };
        let start_rect: Rect = match reading.rect {
            Some(rect) => rect,
            None => cached_rect,
        };
        let start_cursor: Point = match reading.cursor {
            Some(cursor) => cursor,
            None => start_rect.center(),
        };
        self.update_cached_window_rect(window, start_rect, monitors);
        let mut held: Vec<MonitorInfo> = Vec::new();
        held.extend_from_slice(monitors);
        proof {
            assert(held@ =~= monitors@);
        }
        self.active_interactive_drag =
        Some(ActiveInteractiveDrag { window, start_cursor, start_rect, monitors: held });
    }

    /// Picks a window up by its title bar, unless one is dragged with modifier keys; says whether it
    /// is dragged by its title bar now and was not before.
    pub fn start_titlebar_drag(
        &mut self,
        window: WindowHandle,
        cursor: Point,
        rect: Option<Rect>,
        monitors: &[MonitorInfo],
    ) -> (r: bool)
        requires
            old(self).wf(),
        ensures
            final(self).wf(),
            r == (old(self)@.modifier_drag is None && old(self)@.can_pick_up(window, monitors@)),
            final(self)@ == if old(self)@.modifier_drag is None {
                old(self)@.with_drag_started(
                    window,
                    DragReading { cursor: Some(cursor), rect },
                    monitors@,
                )
            } else {
                old(self)@
            },
    {
        if self.active_modifier_drag.is_some() {
            return false;
        }
        if let Some(active) = self.active_interactive_drag_window() {
            if active == window {
                return false;
            }
        }
        self.start_interactive_drag(window, DragReading { cursor: Some(cursor), rect }, monitors);
        match self.active_interactive_drag_window() {
            Some(active) => active == window,
            None => false,
        }
    }

    /// Lets a window go that was dragged by its title bar.
    pub fn finish_interactive_drag(&mut self, window: WindowHandle)
        requires
            old(self).wf(),
        ensures
            final(self).wf(),
            final(self)@ == old(self)@.with_drag_finished(window),
            final(self).tile_order@ == old(self).tile_order@,
    {
        if let Some(active) = self.active_interactive_drag_window() {
            if active == window {
                self.active_interactive_drag = None;
            }
        }
    }

    /// Takes a window out of the tiling for a while; says whether it did.
    pub fn start_temporary_float(&mut self, window: WindowHandle, monitors: &[MonitorInfo]) -> (r: bool)
        requires
            old(self).wf(),
        ensures
            final(self).wf(),
            r == old(self)@.floats_for_a_while(window, monitors@),
            final(self)@ == old(self)@.with_float_for_a_while(window, monitors@),
            final(self).tile_order@ == old(self).tile_order@,
    {
        if self.window_participation(window) == WindowParticipation::Floating {
            return false;
        }
        match self.window_owner_monitor(window, monitors) {
            None => {
                return false;
            },
            Some(monitor) => {
                if !self.is_tilable_window_on_monitor(window, monitor) {
                    return false;
                }
            },
        }
        self.remember_previous_rect(window);
        self.set_window_participation(window, WindowParticipation::TemporarilyFloating);
        true
    }

    /// Tiles a window again that was out of the tiling for a while; says whether it was.
    pub fn clear_temporary_float(&mut self, window: WindowHandle) -> (r: bool)
        requires
            old(self).wf(),
        ensures
            final(self).wf(),
            r == (old(self)@.takes_part(window) == WindowParticipation::TemporarilyFloating),
            final(self)@ == if r {
                old(self)@.with_participation(window, WindowParticipation::Tiled)
            } else {
                old(self)@
            },
            final(self).tile_order@ == old(self).tile_order@,
    {
        if self.window_participation(window) != WindowParticipation::TemporarilyFloating {
            return false;
        }
        self.set_window_participation(window, WindowParticipation::Tiled);
        true
    }

    /// Notes that a window begins to be moved or sized; says whether that took it out of the tiling.
    pub fn handle_movesize_start(
        &mut self,
        window: WindowHandle,
        reading: DragReading,
        monitors: &[MonitorInfo],
    ) -> (r: bool)
        requires
            old(self).wf(),
        ensures
            final(self).wf(),
            (final(self)@, r) == old(self)@.movesize_started(window, reading, monitors@),
            final(self).tile_order@ == old(self).tile_order@,
    {
        self.forget_learned_size_constraint(window);
        self.start_interactive_drag(window, reading, monitors);
        self.config.drag_to_float && self.start_temporary_float(window, monitors)
    }

    /// Notes that a window was moved or sized; says whether the tiles are computed anew.
    pub fn handle_movesize_end(
        &mut self,
        window: WindowHandle,
        monitors: &[MonitorInfo],
        drop_context: Option<DropContext>,
    ) -> (r: bool)
        requires
            old(self).wf(),
            old(self)@.can_let_go(window),
        ensures
            final(self).wf(),
            (final(self)@, r) == old(self)@.movesize_ended(window, monitors@, drop_context),
    {
        self.finish_interactive_drag(window);
        let ghost finished = self@;
        let mut cleared: bool = false;
        if self.window_participation(window) == WindowParticipation::TemporarilyFloating {
            match drop_context {
                Some(context) => {
                    self.reorder_window_by_drop_at(window, monitors, context.rect, context.cursor);
                },
                None => {
                    self.reorder_window_by_drop(window, monitors);
                },
            }
            proof {
                lemma_drop_keeps(finished, window, monitors@, drop_context);
            }
            cleared = self.clear_temporary_float(window);
        }
        proof {
            lemma_put_back_keeps_config(finished, window, monitors@, drop_context);
        }
        let ghost back = self@;
        let reabsorbed: bool = self.reabsorb_overflow_float_by_drop(window, monitors, drop_context);
        proof {
            lemma_reabsorb_keeps_config(back, window, monitors@, drop_context);
        }
        reabsorbed || (cleared && self.config.retile_on_drag_end)
    }

    /// Begins a drag with modifier keys; gives the tiles if they are computed anew.
    pub fn start_modifier_drag(
        &mut self,
        window: WindowHandle,
        cursor: Point,
        start_rect: Rect,
        reading: DragReading,
        monitors: &[MonitorInfo],
    ) -> (r: Option<Vec<TileAssignment>>)
        requires
            old(self).wf(),
            old(self).tile_order.len() <= i32::MAX,
        ensures
            final(self).wf(),
            ({
                let started = old(self)@.modifier_drag_started(
                    window,
                    cursor,
                    start_rect,
                    reading,
                    monitors@,
                );
                if started.modifier_drag.unwrap().started_temporary_float
                    && old(self)@.config.dynamic_retile {
                    &&& r matches Some(tiles)
                    &&& tiles@ == started.all_tiles(monitors@, reading.cursor)
                    &&& final(self)@ == started.retiled(monitors@, reading.cursor)
                } else {
                    r is None && final(self)@ == started
                }
            }),
    {
        self.foreground = Some(window);
        let dynamic: bool = self.config.dynamic_retile;
        let started_temporary_float: bool = self.handle_movesize_start(window, reading, monitors);
        self.active_modifier_drag =
        Some(
            ActiveModifierDrag {
                window,
                start_cursor: cursor,
                last_cursor: cursor,
                start_rect,
                move_count: 0,
                started_temporary_float,
            },
        );
        if started_temporary_float && dynamic {
            Some(self.tile_assignments(monitors, reading.cursor))
        } else {
            None
        }
    }

    /// Drags a window on with modifier keys; gives the rectangle that it is moved to.
    pub fn move_modifier_drag(&mut self, window: WindowHandle, cursor: Point) -> (r: Option<Rect>)
        requires
            old(self).wf(),
        ensures
            final(self).wf(),
            final(self)@ == old(self)@.modifier_drag_moved(window, cursor),
            r == if old(self)@.is_modifier_dragged(window) {
                Some(old(self)@.modifier_drag_rect(cursor))
            } else {
                None
            },
    {
        let drag: ActiveModifierDrag = match self.active_modifier_drag {
            Some(drag) => drag,
            None => {
                return None;
            },
        };
        if drag.window != window {
            return None;
        }
        let rect: Rect = offset_rect_by_cursor_delta(drag.start_rect, drag.start_cursor, cursor);
        let move_count: u32 = if drag.move_count == u32::MAX {
            u32::MAX
        } else {
            drag.move_count + 1
        };
        self.active_modifier_drag =
        Some(
            ActiveModifierDrag {
                window: drag.window,
                start_cursor: drag.start_cursor,
                last_cursor: cursor,
                start_rect: drag.start_rect,
                move_count,
                started_temporary_float: drag.started_temporary_float,
            },
        );
        self.update_window_rect(window, rect);
        Some(rect)
    }

    /// Ends a drag with modifier keys; gives the drag and the rectangle that the window is moved to, if
    /// it is the window of the drag.
    pub fn end_modifier_drag(&mut self, window: WindowHandle, cursor: Point) -> (r: Option<
        (ActiveModifierDrag, Rect),
    >)
        requires
            old(self).wf(),
        ensures
            final(self).wf(),
            final(self)@ == (DaemonView { modifier_drag: None, ..old(self)@ }),
            final(self).tile_order@ == old(self).tile_order@,
            r == if old(self)@.is_modifier_dragged(window) {
                Some(
                    (
                        old(self)@.modifier_drag.unwrap(),
                        old(self)@.modifier_drag_rect(cursor),
                    ),
                )
            } else {
                None
            },
    {
        let taken: Option<ActiveModifierDrag> = self.active_modifier_drag;
        self.active_modifier_drag = None;
        match taken {
            None => None,
            Some(drag) => if drag.window == window {
                Some(
                    (drag, offset_rect_by_cursor_delta(drag.start_rect, drag.start_cursor, cursor)),
                )
            } else {
                None
            },
        }
    }

    /// Drops a window that was dragged with modifier keys where the desktop put it; gives the tiles if
    /// they are computed anew.
    pub fn drop_modifier_drag(
        &mut self,
        drag: ActiveModifierDrag,
        cursor: Point,
        accepted_rect: Rect,
        monitors: &[MonitorInfo],
        cursor_position: Option<Point>,
    ) -> (r: Option<Vec<TileAssignment>>)
        requires
            old(self).wf(),
            old(self).tile_order.len() < i32::MAX,
        ensures
            final(self).wf(),
            ({
                let dropped = old(self)@.modifier_drag_dropped(
                    drag,
                    cursor,
                    accepted_rect,
                    monitors@,
                );
                if dropped.1 {
                    &&& r matches Some(tiles)
                    &&& tiles@ == dropped.0.all_tiles(monitors@, cursor_position)
                    &&& final(self)@ == dropped.0.retiled(
                        monitors@,
                        cursor_position,
                    ).with_drag_finished(drag.window)
                } else {
                    r is None && final(self)@ == dropped.0.with_drag_finished(drag.window)
                }
            }),
    {
        let window: WindowHandle = drag.window;
        self.update_cached_window_rect(window, accepted_rect, monitors);
        let ghost seen = self@;
        proof {
            lemma_without(seen.tile_order, window);
        }
        let mut tiles: Option<Vec<TileAssignment>> = None;
        if drag.started_temporary_float || self.should_try_overflow_float_drop(window) {
            let context: DropContext = DropContext { rect: accepted_rect, cursor: Some(cursor) };
            proof {
                lemma_ended_order(seen, window, monitors@, Some(context));
            }
            if self.handle_movesize_end(window, monitors, Some(context)) {
                self.suppressed_modifier_drag_events.insert(window.0, ());
                tiles = Some(self.tile_assignments(monitors, cursor_position));
            }
        }
        self.finish_interactive_drag(window);
        tiles
    }
}

proof fn lemma_drop_keeps(
    state: DaemonView,
    window: WindowHandle,
    monitors: Seq<MonitorInfo>,
    context: Option<DropContext>,
)
    ensures
        ({
            let place = state.drop_context(window, context);
            place is Some ==> {
                let dropped = state.dropped(
                    window,
                    monitors,
                    place.unwrap().rect,
                    place.unwrap().cursor,
                ).0;
                &&& dropped.config == state.config
                &&& dropped.participation == state.participation
                &&& dropped.promoted == state.promoted
                &&& dropped.windows == state.windows
            }
        }),
{
}

/// Letting a window go leaves all windows in the order of the tiles, and makes the order longer at most
/// by a window that was not in it; no other window comes to float.
pub proof fn lemma_ended_order(
    state: DaemonView,
    window: WindowHandle,
    monitors: Seq<MonitorInfo>,
    context: Option<DropContext>,
)
    ensures
        ({
            let after = state.movesize_ended(window, monitors, context).0;
            &&& after.tile_order.len() <= state.tile_order.len() || (after.tile_order.len() == without(
                state.tile_order,
                window,
            ).len() + 1 && (state.takes_part(window) == WindowParticipation::TemporarilyFloating
                || state.may_come_back(window)))
            &&& forall|other: WindowHandle|
                state.tile_order.contains(other) ==> #[trigger] after.tile_order.contains(other)
            &&& after.windows == state.windows
            &&& after.workspaces == state.workspaces
            &&& forall|key: u64| #[trigger]
                after.participation.contains_key(key) ==> state.participation.contains_key(key)
            &&& forall|key: u64| #[trigger]
                after.promoted.contains_key(key) ==> state.promoted.contains_key(key)
        }),
{
    let finished = state.with_drag_finished(window);
    if let Some(place) = finished.drop_context(window, context) {
        lemma_dropped_order(finished, window, monitors, place.rect, place.cursor);
        lemma_dropped_order(
            finished.with_participation(window, WindowParticipation::Tiled),
            window,
            monitors,
            place.rect,
            place.cursor,
        );
    }
}

proof fn lemma_put_back_keeps_config(
    state: DaemonView,
    window: WindowHandle,
    monitors: Seq<MonitorInfo>,
    context: Option<DropContext>,
)
    ensures
        state.put_back(window, monitors, context).config == state.config,
{
    lemma_drop_keeps(state, window, monitors, context);
}

proof fn lemma_reabsorb_keeps_config(
    state: DaemonView,
    window: WindowHandle,
    monitors: Seq<MonitorInfo>,
    context: Option<DropContext>,
)
    ensures
        state.reabsorbed(window, monitors, context).0.config == state.config,
{
}

/// A window that was taken out of the tiling for a while is tiled again once it was let go.
pub proof fn dragged_window_is_tiled_again(
    state: DaemonView,
    window: WindowHandle,
    monitors: Seq<MonitorInfo>,
    context: Option<DropContext>,
)
    requires
        state.takes_part(window) == WindowParticipation::TemporarilyFloating,
    ensures
        state.movesize_ended(window, monitors, context).0.takes_part(window)
            == WindowParticipation::Tiled,
        state.movesize_ended(window, monitors, context).1 == state.config.retile_on_drag_end,
{
    let finished = state.with_drag_finished(window);
    lemma_drop_keeps(finished, window, monitors, context);
}

/// Picking a window up leaves its place among the tiles alone.
pub proof fn picking_up_keeps_the_order(
    state: DaemonView,
    window: WindowHandle,
    reading: DragReading,
    monitors: Seq<MonitorInfo>,
)
    ensures
        state.movesize_started(window, reading, monitors).0.tile_order == state.tile_order,
        state.movesize_started(window, reading, monitors).0.windows.dom() == state.windows.dom(),
{
    assert(state.movesize_started(window, reading, monitors).0.windows.dom() =~= state.windows.dom());
}

/// A window that floats for good still does when it is picked up, and the tiles stay as they are.
pub proof fn floating_window_stays_floating_when_picked_up(
    state: DaemonView,
    window: WindowHandle,
    reading: DragReading,
    monitors: Seq<MonitorInfo>,
)
    requires
        state.takes_part(window) == WindowParticipation::Floating,
    ensures
        state.movesize_started(window, reading, monitors).0.takes_part(window)
            == WindowParticipation::Floating,
        !state.movesize_started(window, reading, monitors).1,
{
}

} // verus!
