//! Where a window goes among the tiles when it is dropped.

use vstd::prelude::*;

use crate::daemon_state::{DaemonState, DaemonView, DropContext};
use crate::dwindle::DwindleSplit;
use crate::geometry::{MonitorInfo, Point, Rect, TileAssignment, WindowHandle};
use crate::handles::{
    first_kept, first_position, handles_without, lemma_filter_ends, lemma_filter_step,
    lemma_filter_within, lemma_first_kept_step, lemma_position, lemma_without, other_than, position_of,
    without,
};
use crate::layout::{LayoutConfig, LayoutKind, SplitDirection, WindowParticipation};
use crate::monitors::{
    closest, distance_to_middle, find_monitor, monitor_for_point, monitor_for_rect, monitor_named,
    monitor_of_point, monitor_of_rect, nearest_assignment, squared_distance_to_center,
};
use crate::runtime_config::OverflowFloatPersistence;
use crate::smart_split::{drawn_to, split_direction_for_point};
use crate::split_memory::remembered;
use crate::tiling::{
    layout_splits, layout_tiles, tile_assignments_fit_work_area, tile_layout_windows_with_config,
    tile_layout_windows_with_state, tiles_fit, WindowLayoutInfo,
};
use crate::workspace::WorkspaceId;

verus! {

/// The point that a drop is judged by: the cursor, or else the middle of the window.
pub open spec fn drop_point(rect: Rect, cursor: Option<Point>) -> Point {
    match cursor {
        Some(point) => point,
        None => rect.middle(),
    }
}

/// Whether a tile covers a point.
pub open spec fn covers_point(point: Point) -> spec_fn(TileAssignment) -> bool {
    |tile: TileAssignment| tile.rect.covers(point.x as int, point.y as int)
}

/// Whether a tile is that of a window.
pub open spec fn tile_of_window(window: WindowHandle) -> spec_fn(TileAssignment) -> bool {
    |tile: TileAssignment| tile.window == window
}

/// The tile that a point falls on: the first that covers it, or else the nearest.
pub open spec fn tile_at(point: Point, tiles: Seq<TileAssignment>) -> Option<TileAssignment> {
    if first_kept(tiles, covers_point(point)) is Some {
        first_kept(tiles, covers_point(point))
    } else {
        closest(point, tiles)
    }
}

/// The place right behind a window in a list, or the end.
pub open spec fn place_behind(windows: Seq<WindowHandle>, window: WindowHandle) -> int {
    match first_position(windows, window) {
        Some(at) => at + 1,
        None => windows.len() as int,
    }
}

/// The place of a window in a list, or the end.
pub open spec fn place_of(windows: Seq<WindowHandle>, window: WindowHandle) -> int {
    match first_position(windows, window) {
        Some(at) => at,
        None => windows.len() as int,
    }
}

/// Where a window is put in the order of the tiles so that it stands at a place among some of them.
pub open spec fn place_among(order: Seq<WindowHandle>, among: Seq<WindowHandle>, place: int) -> int {
    if place < among.len() {
        place_of(order, among[place])
    } else if among.len() > 0 {
        place_behind(order, among.last())
    } else {
        order.len() as int
    }
}

impl DaemonView {
    /// Whether the windows in the order of the tiles can be counted by a layout once a window is among
    /// them.
    pub open spec fn can_take(self, window: WindowHandle) -> bool {
        without(self.tile_order, window).len() < i32::MAX
    }

    /// The monitor on which a window is dropped.
    pub open spec fn drop_monitor(
        self,
        rect: Rect,
        cursor: Option<Point>,
        monitors: Seq<MonitorInfo>,
    ) -> Option<MonitorInfo> {
        let of_cursor = match cursor {
            Some(point) => monitor_of_point(point, monitors),
            None => None,
        };
        let target = if of_cursor is Some {
            of_cursor
        } else {
            monitor_of_rect(rect, monitors)
        };
        match target {
            Some(id) => monitor_named(monitors, id),
            None => None,
        }
    }

    /// The other windows that are tiled on a monitor.
    pub open spec fn is_drop_target(
        self,
        window: WindowHandle,
        monitor: MonitorInfo,
        monitors: Seq<MonitorInfo>,
    ) -> spec_fn(WindowHandle) -> bool {
        |other: WindowHandle| other != window && self.is_tiled_on(monitor, monitors)(other)
    }

    /// The other windows that are tiled on a monitor, in their order.
    pub open spec fn drop_targets(
        self,
        window: WindowHandle,
        monitor: MonitorInfo,
        monitors: Seq<MonitorInfo>,
    ) -> Seq<WindowHandle> {
        self.tile_order.filter(self.is_drop_target(window, monitor, monitors))
    }

    /// The tiles that the targets of a drop have in the dwindle layout.
    pub open spec fn target_tiles(
        self,
        targets: Seq<WindowHandle>,
        monitor: MonitorInfo,
        layout: LayoutConfig,
    ) -> Seq<TileAssignment> {
        layout_tiles(
            monitor.work_area,
            self.layout_infos(targets),
            layout,
            None,
            remembered(self.dwindle_splits, self.split_key(monitor)),
        )
    }

    /// The splits that make room for a dropped window beside the tile that it falls on.
    pub open spec fn splits_with_drop(
        self,
        window: WindowHandle,
        point: Point,
        target: TileAssignment,
        targets: Seq<WindowHandle>,
        monitor: MonitorInfo,
        layout: LayoutConfig,
    ) -> Seq<DwindleSplit> {
        layout_splits(
            monitor.work_area,
            self.layout_infos(targets),
            layout,
            None,
            remembered(self.dwindle_splits, self.split_key(monitor)),
        ).push(
            DwindleSplit {
                target: target.window,
                new_window: window,
                direction: drawn_to(target.rect, point),
            },
        )
    }

    /// The tiles' order with a window right behind another.
    pub open spec fn order_behind(self, window: WindowHandle, target: WindowHandle) -> Seq<WindowHandle> {
        let rest = without(self.tile_order, window);
        rest.insert(place_behind(rest, target), window)
    }

    /// The tiles' order with a window at a place among some of them.
    pub open spec fn order_among(self, window: WindowHandle, among: Seq<WindowHandle>, place: int) -> Seq<
        WindowHandle,
    > {
        let rest = without(self.tile_order, window);
        rest.insert(place_among(rest, among, place), window)
    }

    /// The state after a drop in the dwindle layout, and whether anything changed.
    pub open spec fn retargeted(
        self,
        window: WindowHandle,
        rect: Rect,
        cursor: Option<Point>,
        targets: Seq<WindowHandle>,
        monitor: MonitorInfo,
        layout: LayoutConfig,
    ) -> (DaemonView, bool) {
        let point = drop_point(rect, cursor);
        match tile_at(point, self.target_tiles(targets, monitor, layout)) {
            None => (self, false),
            Some(target) => {
                let splits = self.splits_with_drop(window, point, target, targets, monitor, layout);
                let order = self.order_behind(window, target.window);
                (
                    DaemonView {
                        dwindle_splits: self.dwindle_splits.insert(self.split_key(monitor), splits),
                        tile_order: order,
                        ..self
                    },
                    order != self.tile_order || splits != remembered(
                        self.dwindle_splits,
                        self.split_key(monitor),
                    ),
                )
            },
        }
    }

    /// How far from a point a window's tile would be if it stood at a place among others; none if it
    /// would have no tile.
    pub open spec fn distance_at(
        self,
        window: WindowHandle,
        point: Point,
        targets: Seq<WindowHandle>,
        monitor: MonitorInfo,
        place: int,
    ) -> Option<int> {
        match first_kept(
            layout_tiles(
                monitor.work_area,
                self.layout_infos(targets.insert(place, window)),
                self.layout_of(monitor),
                None,
                Seq::empty(),
            ),
            tile_of_window(window),
        ) {
            Some(tile) => Some(distance_to_middle(point, tile.rect)),
            None => None,
        }
    }

    /// Among the first places, the one that brings a window's tile nearest to a point.
    pub open spec fn best_place(
        self,
        window: WindowHandle,
        point: Point,
        targets: Seq<WindowHandle>,
        monitor: MonitorInfo,
        places: int,
    ) -> Option<int>
        decreases places,
    {
        if places <= 0 {
            None
        } else {
            let before = self.best_place(window, point, targets, monitor, places - 1);
            match self.distance_at(window, point, targets, monitor, places - 1) {
                None => before,
                Some(distance) => match before {
                    None => Some(places - 1),
                    Some(best) => if distance < self.distance_at(
                        window,
                        point,
                        targets,
                        monitor,
                        best,
                    ).unwrap() {
                        Some(places - 1)
                    } else {
                        Some(best)
                    },
                },
            }
        }
    }

    /// The place among others that brings a window's tile nearest to a point, or the last one.
    pub open spec fn drop_place(
        self,
        window: WindowHandle,
        point: Point,
        targets: Seq<WindowHandle>,
        monitor: MonitorInfo,
    ) -> int {
        match self.best_place(window, point, targets, monitor, targets.len() as int + 1) {
            Some(place) => place,
            None => targets.len() as int,
        }
    }

    /// The state after a window was dropped, and whether the tiles changed.
    pub open spec fn dropped(
        self,
        window: WindowHandle,
        monitors: Seq<MonitorInfo>,
        rect: Rect,
        cursor: Option<Point>,
    ) -> (DaemonView, bool) {
        match self.drop_monitor(rect, cursor, monitors) {
            None => (self, false),
            Some(monitor) => {
                let put = DaemonView {
                    overrides: self.overrides.insert(window.0, monitor.id),
                    ..self
                };
                let targets = put.drop_targets(window, monitor, monitors);
                let retargeted = put.retargeted(
                    window,
                    rect,
                    cursor,
                    targets,
                    monitor,
                    put.layout_of(monitor),
                );
                if put.layout_of(monitor).kind is Dwindle && retargeted.1 {
                    retargeted
                } else {
                    let base = if put.layout_of(monitor).kind is Dwindle {
                        retargeted.0
                    } else {
                        put
                    };
                    let order = base.order_among(
                        window,
                        targets,
                        base.drop_place(window, drop_point(rect, cursor), targets, monitor),
                    );
                    (DaemonView { tile_order: order, ..base }, order != base.tile_order)
                }
            },
        }
    }

    /// Whether the tiles would fit if a window joined others on a monitor by a drop.
    pub open spec fn drop_fits(
        self,
        window: WindowHandle,
        monitors: Seq<MonitorInfo>,
        rect: Rect,
        cursor: Option<Point>,
    ) -> bool {
        match self.drop_monitor(rect, cursor, monitors) {
            None => false,
            Some(monitor) => {
                let targets = self.drop_targets(window, monitor, monitors);
                let layout = self.layout_of(monitor);
                if layout.kind is Dwindle && targets.len() > 0 {
                    self.dwindle_drop_fits(window, rect, cursor, targets, monitor, layout)
                } else {
                    let place = self.drop_place(window, drop_point(rect, cursor), targets, monitor);
                    tiles_fit(
                        monitor.work_area,
                        self.preview(monitor, targets.insert(place, window), layout, cursor),
                    )
                }
            },
        }
    }

    /// Whether the tiles would fit if a window joined others in the dwindle layout by a drop.
    pub open spec fn dwindle_drop_fits(
        self,
        window: WindowHandle,
        rect: Rect,
        cursor: Option<Point>,
        targets: Seq<WindowHandle>,
        monitor: MonitorInfo,
        layout: LayoutConfig,
    ) -> bool {
        let point = drop_point(rect, cursor);
        match tile_at(point, self.target_tiles(targets, monitor, layout)) {
            None => false,
            Some(target) => tiles_fit(
                monitor.work_area,
                layout_tiles(
                    monitor.work_area,
                    self.layout_infos(targets.insert(place_behind(targets, target.window), window)),
                    layout,
                    None,
                    self.splits_with_drop(window, point, target, targets, monitor, layout),
                ),
            ),
        }
    }

    /// Whether a window that gave way to others may come back by a drop.
    pub open spec fn may_come_back(self, window: WindowHandle) -> bool {
        &&& self.config.overflow_float_persistence == OverflowFloatPersistence::RetileOnDragEnd
        &&& self.promoted.contains_key(window.0)
        &&& self.takes_part(window) == WindowParticipation::Floating
    }

    /// Where a window was dropped: as told, or else where it is.
    pub open spec fn drop_context(self, window: WindowHandle, context: Option<DropContext>) -> Option<
        DropContext,
    > {
        match context {
            Some(context) => Some(context),
            None => if self.windows.contains_key(window.0) {
                Some(DropContext { rect: self.windows[window.0].rect, cursor: None })
            } else {
                None
            },
        }
    }

    /// The state after a window that gave way was dropped, and whether it came back.
    pub open spec fn reabsorbed(
        self,
        window: WindowHandle,
        monitors: Seq<MonitorInfo>,
        context: Option<DropContext>,
    ) -> (DaemonView, bool) {
        let place = self.drop_context(window, context);
        if !self.may_come_back(window) || place is None || !self.drop_fits(
            window,
            monitors,
            place.unwrap().rect,
            place.unwrap().cursor,
        ) {
            (self, false)
        } else {
            (
                self.with_participation(window, WindowParticipation::Tiled).dropped(
                    window,
                    monitors,
                    place.unwrap().rect,
                    place.unwrap().cursor,
                ).0,
                true,
            )
        }
    }
}

/// Whether two lists of splits are the same.
pub fn same_splits(a: &[DwindleSplit], b: &[DwindleSplit]) -> (r: bool)
    ensures
        r == (a@ == b@),
{
    if a.len() != b.len() {
        return false;
    }
    let mut index: usize = 0;
    while index < a.len()
        invariant
            index <= a.len(),
            a.len() == b.len(),
            forall|i: int| 0 <= i < index ==> #[trigger] a@[i] == b@[i],
        decreases a.len() - index,
    {
        if a[index] != b[index] {
            return false;
        }
        index = index + 1;
    }
    proof {
        assert(a@ =~= b@);
    }
    true
}

/// Whether two lists of windows are the same.
pub fn same_handles(a: &[WindowHandle], b: &[WindowHandle]) -> (r: bool)
    ensures
        r == (a@ == b@),
{
    if a.len() != b.len() {
        return false;
    }
    let mut index: usize = 0;
    while index < a.len()
        invariant
            index <= a.len(),
            a.len() == b.len(),
            forall|i: int| 0 <= i < index ==> #[trigger] a@[i] == b@[i],
        decreases a.len() - index,
    {
        if a[index] != b[index] {
            return false;
        }
        index = index + 1;
    }
    proof {
        assert(a@ =~= b@);
    }
    true
}

fn find_tile_at(point: Point, tiles: &[TileAssignment]) -> (r: Option<TileAssignment>)
    ensures
        r == tile_at(point, tiles@),
{
    let ghost keep = covers_point(point);
    let mut found: Option<TileAssignment> = None;
    let mut index: usize = 0;
    while index < tiles.len()
        invariant
            index <= tiles.len(),
            keep == covers_point(point),
            found == first_kept(tiles@.take(index as int), keep),
        decreases tiles.len() - index,
    {
        proof {
            lemma_first_kept_step(tiles@, index as int, keep);
        }
        if found.is_none() && tiles[index].rect.contains(point) {
            found = Some(tiles[index]);
        }
        index = index + 1;
    }
    proof {
        assert(tiles@.take(index as int) =~= tiles@);
    }
    match found {
        Some(tile) => Some(tile),
        None => nearest_assignment(point, tiles),
    }
}

fn find_tile_of(window: WindowHandle, tiles: &[TileAssignment]) -> (r: Option<TileAssignment>)
    ensures
        r == first_kept(tiles@, tile_of_window(window)),
{
    let ghost keep = tile_of_window(window);
    let mut found: Option<TileAssignment> = None;
    let mut index: usize = 0;
    while index < tiles.len()
        invariant
            index <= tiles.len(),
            keep == tile_of_window(window),
            found == first_kept(tiles@.take(index as int), keep),
        decreases tiles.len() - index,
    {
        proof {
            lemma_first_kept_step(tiles@, index as int, keep);
        }
        if found.is_none() && tiles[index].window == window {
            found = Some(tiles[index]);
        }
        index = index + 1;
    }
    proof {
        assert(tiles@.take(index as int) =~= tiles@);
    }
    found
}

fn find_place_behind(windows: &[WindowHandle], window: WindowHandle) -> (r: usize)
    ensures
        r == place_behind(windows@, window),
        r <= windows.len(),
{
    match position_of(windows, window) {
        Some(at) => at + 1,
        None => windows.len(),
    }
}

fn with_inserted(windows: &[WindowHandle], place: usize, window: WindowHandle) -> (r: Vec<WindowHandle>)
    requires
        place <= windows.len(),
    ensures
        r@ == windows@.insert(place as int, window),
        r.len() == windows.len() + 1,
{
    let mut all: Vec<WindowHandle> = Vec::new();
    all.extend_from_slice(windows);
    proof {
        assert(all@ =~= windows@);
    }
    all.insert(place, window);
    all
}

impl DaemonState {
    /// The monitor on which a window is dropped.
    pub fn drop_target_monitor(
        &self,
        dropped_rect: Rect,
        cursor_position: Option<Point>,
        monitors: &[MonitorInfo],
    ) -> (r: Option<MonitorInfo>)
        ensures
            r == self@.drop_monitor(dropped_rect, cursor_position, monitors@),
    {
        if let Some(point) = cursor_position {
            if let Some(id) = monitor_for_point(point, monitors) {
                return find_monitor(monitors, id);
            }
        }
        match monitor_for_rect(dropped_rect, monitors) {
            Some(id) => find_monitor(monitors, id),
            None => None,
        }
    }

    /// The other windows that are tiled on a monitor, in their order.
    pub fn drop_target_handles(
        &self,
        window: WindowHandle,
        monitor: &MonitorInfo,
        monitors: &[MonitorInfo],
    ) -> (r: Vec<WindowHandle>)
        requires
            self.wf(),
        ensures
            r@ == self@.drop_targets(window, *monitor, monitors@),
            r.len() <= without(self@.tile_order, window).len(),
    {
        let ghost keep = self@.is_drop_target(window, *monitor, monitors@);
        let mut kept: Vec<WindowHandle> = Vec::new();
        let mut index: usize = 0;
        proof {
            lemma_filter_ends(self.tile_order@, keep);
        }
        while index < self.tile_order.len()
            invariant
                index <= self.tile_order.len(),
                self.wf(),
                keep == self@.is_drop_target(window, *monitor, monitors@),
                kept@ == self.tile_order@.take(index as int).filter(keep),
            decreases self.tile_order.len() - index,
        {
            let handle: WindowHandle = self.tile_order[index];
            proof {
                lemma_filter_step(self.tile_order@, index as int, keep);
            }
            if handle != window && self.window_participation(handle).is_tiled() {
                if let Some(candidate) = self.windows.get(handle.0) {
                    if self.is_tilable_window_on_monitor(handle, monitor.id)
                        && self.monitor_owns_window_rect(
                        handle,
                        monitor,
                        self.window_layout_rect(handle, candidate),
                        monitors,
                    ) {
                        kept.push(handle);
                    }
                }
            }
            index = index + 1;
        }
        proof {
            lemma_filter_ends(self.tile_order@, keep);
            lemma_filter_within(self.tile_order@, keep, other_than(window));
        }
        kept
    }

    /// Puts a window right behind another in the order of the tiles; says whether that changed it.
    pub fn reinsert_window_after_target(&mut self, window: WindowHandle, target: WindowHandle) -> (r: bool)
        requires
            old(self).wf(),
        ensures
            final(self).wf(),
            final(self)@ == (DaemonView {
                tile_order: old(self)@.order_behind(window, target),
                ..old(self)@
            }),
            r == (old(self)@.order_behind(window, target) != old(self)@.tile_order),
    {
        let rest: Vec<WindowHandle> = handles_without(&self.tile_order, window);
        let place: usize = find_place_behind(&rest, target);
        let order: Vec<WindowHandle> = with_inserted(&rest, place, window);
        let changed: bool = !same_handles(&order, &self.tile_order);
        self.tile_order = order;
        changed
    }

    /// Puts a window at a place among others in the order of the tiles; says whether that changed it.
    pub fn reinsert_window_at_local_index(
        &mut self,
        window: WindowHandle,
        target_handles: &[WindowHandle],
        local_index: usize,
    ) -> (r: bool)
        requires
            old(self).wf(),
        ensures
            final(self).wf(),
            final(self)@ == (DaemonView {
                tile_order: old(self)@.order_among(window, target_handles@, local_index as int),
                ..old(self)@
            }),
            r == (old(self)@.order_among(window, target_handles@, local_index as int) != old(
                self,
            )@.tile_order),
    {
        let rest: Vec<WindowHandle> = handles_without(&self.tile_order, window);
        let place: usize = if local_index < target_handles.len() {
            match position_of(&rest, target_handles[local_index]) {
                Some(at) => at,
                None => rest.len(),
            }
        } else if target_handles.len() > 0 {
            find_place_behind(&rest, target_handles[target_handles.len() - 1])
        } else {
            rest.len()
        };
        let order: Vec<WindowHandle> = with_inserted(&rest, place, window);
        let changed: bool = !same_handles(&order, &self.tile_order);
        self.tile_order = order;
        changed
    }

    /// Makes room for a dropped window beside the tile that it falls on, in the dwindle layout; says
    /// whether that changed anything.
    pub fn retarget_dwindle_drop(
        &mut self,
        window: WindowHandle,
        dropped_rect: Rect,
        cursor_position: Option<Point>,
        target_handles: &[WindowHandle],
        monitor: &MonitorInfo,
        layout: LayoutConfig,
    ) -> (r: bool)
        requires
            old(self).wf(),
            target_handles.len() <= i32::MAX,
            layout.kind is Dwindle,
        ensures
            final(self).wf(),
            (final(self)@, r) == old(self)@.retargeted(
                window,
                dropped_rect,
                cursor_position,
                target_handles@,
                *monitor,
                layout,
            ),
    {
        let point: Point = match cursor_position {
            Some(point) => point,
            None => dropped_rect.center(),
        };
        let workspace: WorkspaceId = self.workspaces.active_workspace_for_monitor(monitor.id);
        let held: Vec<DwindleSplit> = self.dwindle_splits.get(workspace, monitor.id);
        let mut splits: Vec<DwindleSplit> = self.dwindle_splits.get(workspace, monitor.id);
        let infos: Vec<WindowLayoutInfo> = self.layout_windows_for_handles(target_handles);
        let tiles: Vec<TileAssignment> = tile_layout_windows_with_state(
            monitor.work_area,
            &infos,
            layout,
            None,
            &mut splits,
        );
        let target: TileAssignment = match find_tile_at(point, &tiles) {
            Some(tile) => tile,
            None => {
                return false;
            },
        };
        let direction: SplitDirection = split_direction_for_point(target.rect, point);
        splits.push(DwindleSplit { target: target.window, new_window: window, direction });
        let splits_changed: bool = !same_splits(&splits, &held);
        self.dwindle_splits.insert(workspace, monitor.id, splits);
        let order_changed: bool = self.reinsert_window_after_target(window, target.window);
        order_changed || splits_changed
    }

    /// The place among others that brings a window's tile nearest to a point.
    pub fn drop_insert_index_at_point(
        &self,
        window: WindowHandle,
        drop_point: Point,
        target_handles: &[WindowHandle],
        monitor: &MonitorInfo,
    ) -> (r: usize)
        requires
            self.wf(),
            target_handles.len() < i32::MAX,
        ensures
            r == self@.drop_place(window, drop_point, target_handles@, *monitor),
            r <= target_handles.len(),
    {
        let workspace: WorkspaceId = self.workspaces.active_workspace_for_monitor(monitor.id);
        let layout: LayoutConfig = self.config.layout_for_monitor(monitor, workspace);
        let mut best: Option<(usize, i128)> = None;
        let mut index: usize = 0;
        while index <= target_handles.len()
            invariant
                index <= target_handles.len() + 1,
                target_handles.len() < i32::MAX,
                self.wf(),
                layout == self@.layout_of(*monitor),
                match best {
                    Some(held) => {
                        &&& self@.best_place(
                            window,
                            drop_point,
                            target_handles@,
                            *monitor,
                            index as int,
                        ) == Some(held.0 as int)
                        &&& self@.distance_at(
                            window,
                            drop_point,
                            target_handles@,
                            *monitor,
                            held.0 as int,
                        ) == Some(held.1 as int)
                        &&& held.0 <= target_handles.len()
                    },
                    None => self@.best_place(
                        window,
                        drop_point,
                        target_handles@,
                        *monitor,
                        index as int,
                    ) is None,
                },
            decreases target_handles.len() + 1 - index,
        {
            let handles: Vec<WindowHandle> = with_inserted(target_handles, index, window);
            let infos: Vec<WindowLayoutInfo> = self.layout_windows_for_handles(&handles);
            let tiles: Vec<TileAssignment> = tile_layout_windows_with_config(
                monitor.work_area,
                &infos,
                layout,
            );
            if let Some(tile) = find_tile_of(window, &tiles) {
                let distance: i128 = squared_distance_to_center(drop_point, tile.rect);
                best =
                match best {
                    None => Some((index, distance)),
                    Some(held) => if distance < held.1 {
                        Some((index, distance))
                    } else {
                        Some(held)
                    },
                };
            }
            index = index + 1;
        }
        match best {
            Some(held) => held.0,
            None => target_handles.len(),
        }
    }

    /// Puts a window that was dropped in its place among the tiles; says whether that changed them.
    pub fn reorder_window_by_drop_at(
        &mut self,
        window: WindowHandle,
        monitors: &[MonitorInfo],
        dropped_rect: Rect,
        cursor_position: Option<Point>,
    ) -> (r: bool)
        requires
            old(self).wf(),
            old(self)@.can_take(window),
        ensures
            final(self).wf(),
            (final(self)@, r) == old(self)@.dropped(window, monitors@, dropped_rect, cursor_position),
    {
        let monitor: MonitorInfo = match self.drop_target_monitor(
            dropped_rect,
            cursor_position,
            monitors,
        ) {
            Some(monitor) => monitor,
            None => {
                return false;
            },
        };
        self.window_monitor_overrides.insert(window.0, monitor.id);
        let targets: Vec<WindowHandle> = self.drop_target_handles(window, &monitor, monitors);
        let workspace: WorkspaceId = self.workspaces.active_workspace_for_monitor(monitor.id);
        let layout: LayoutConfig = self.config.layout_for_monitor(&monitor, workspace);
        let ghost put = self@;
        match layout.kind {
            LayoutKind::Dwindle => {
                if self.retarget_dwindle_drop(
                    window,
                    dropped_rect,
                    cursor_position,
                    &targets,
                    &monitor,
                    layout,
                ) {
                    return true;
                }
                proof {
                    lemma_unchanged_order(put, window, dropped_rect, cursor_position, targets@, monitor, layout);
                }
            },
            _ => {},
        }
        let point: Point = match cursor_position {
            Some(point) => point,
            None => dropped_rect.center(),
        };
        let place: usize = self.drop_insert_index_at_point(window, point, &targets, &monitor);
        self.reinsert_window_at_local_index(window, &targets, place)
    }

    /// Puts a window that was dropped where it is in its place among the tiles.
    pub fn reorder_window_by_drop(&mut self, window: WindowHandle, monitors: &[MonitorInfo]) -> (r: bool)
        requires
            old(self).wf(),
            old(self)@.can_take(window),
        ensures
            final(self).wf(),
            (final(self)@, r) == if old(self)@.windows.contains_key(window.0) {
                old(self)@.dropped(window, monitors@, old(self)@.windows[window.0].rect, None)
            } else {
                (old(self)@, false)
            },
    {
        let rect: Rect = match self.windows.get(window.0) {
            Some(info) => info.rect,
            None => {
                return false;
            },
        };
        self.reorder_window_by_drop_at(window, monitors, rect, None)
    }

    /// Whether the tiles would fit if a window joined others in the dwindle layout by a drop.
    pub fn dwindle_drop_would_fit(
        &self,
        window: WindowHandle,
        dropped_rect: Rect,
        cursor_position: Option<Point>,
        target_handles: &[WindowHandle],
        monitor: &MonitorInfo,
        layout: LayoutConfig,
    ) -> (r: bool)
        requires
            self.wf(),
            target_handles.len() < i32::MAX,
        ensures
            r == self@.dwindle_drop_fits(
                window,
                dropped_rect,
                cursor_position,
                target_handles@,
                *monitor,
                layout,
            ),
    {
        let point: Point = match cursor_position {
            Some(point) => point,
            None => dropped_rect.center(),
        };
        let workspace: WorkspaceId = self.workspaces.active_workspace_for_monitor(monitor.id);
        let mut splits: Vec<DwindleSplit> = self.dwindle_splits.get(workspace, monitor.id);
        let infos: Vec<WindowLayoutInfo> = self.layout_windows_for_handles(target_handles);
        let tiles: Vec<TileAssignment> = tile_layout_windows_with_state(
            monitor.work_area,
            &infos,
            layout,
            None,
            &mut splits,
        );
        let target: TileAssignment = match find_tile_at(point, &tiles) {
            Some(tile) => tile,
            None => {
                return false;
            },
        };
        let direction: SplitDirection = split_direction_for_point(target.rect, point);
        let place: usize = find_place_behind(target_handles, target.window);
        let handles: Vec<WindowHandle> = with_inserted(target_handles, place, window);
        splits.push(DwindleSplit { target: target.window, new_window: window, direction });
        let joined: Vec<WindowLayoutInfo> = self.layout_windows_for_handles(&handles);
        let preview: Vec<TileAssignment> = tile_layout_windows_with_state(
            monitor.work_area,
            &joined,
            layout,
            None,
            &mut splits,
        );
        tile_assignments_fit_work_area(monitor.work_area, &preview)
    }

    /// Whether the tiles would fit if a window joined others by a drop.
    pub fn overflow_float_drop_would_fit(
        &self,
        window: WindowHandle,
        monitors: &[MonitorInfo],
        dropped_rect: Rect,
        cursor_position: Option<Point>,
    ) -> (r: bool)
        requires
            self.wf(),
            self@.can_take(window),
        ensures
            r == self@.drop_fits(window, monitors@, dropped_rect, cursor_position),
    {
        let monitor: MonitorInfo = match self.drop_target_monitor(
            dropped_rect,
            cursor_position,
            monitors,
        ) {
            Some(monitor) => monitor,
            None => {
                return false;
            },
        };
        let targets: Vec<WindowHandle> = self.drop_target_handles(window, &monitor, monitors);
        let workspace: WorkspaceId = self.workspaces.active_workspace_for_monitor(monitor.id);
        let layout: LayoutConfig = self.config.layout_for_monitor(&monitor, workspace);
        let dwindles: bool = match layout.kind {
            LayoutKind::Dwindle => true,
            _ => false,
        };
        if dwindles && targets.len() > 0 {
            return self.dwindle_drop_would_fit(
                window,
                dropped_rect,
                cursor_position,
                &targets,
                &monitor,
                layout,
            );
        }
        let point: Point = match cursor_position {
            Some(point) => point,
            None => dropped_rect.center(),
        };
        let place: usize = self.drop_insert_index_at_point(window, point, &targets, &monitor);
        let handles: Vec<WindowHandle> = with_inserted(&targets, place, window);
        let preview: Vec<TileAssignment> = self.preview_tile_assignments(
            &monitor,
            &handles,
            layout,
            cursor_position,
        );
        tile_assignments_fit_work_area(monitor.work_area, &preview)
    }

    /// Whether a window that gave way to others may come back by a drop.
    pub fn should_try_overflow_float_drop(&self, window: WindowHandle) -> (r: bool)
        requires
            self.wf(),
        ensures
            r == self@.may_come_back(window),
    {
        self.config.overflow_float_persistence == OverflowFloatPersistence::RetileOnDragEnd
            && self.overflow_promoted_floating.contains_key(window.0) && self.window_participation(
            window,
        ) == WindowParticipation::Floating
    }

    /// Tiles a window that gave way to others again if it was dropped where it fits; says whether.
    pub fn reabsorb_overflow_float_by_drop(
        &mut self,
        window: WindowHandle,
        monitors: &[MonitorInfo],
        drop_context: Option<DropContext>,
    ) -> (r: bool)
        requires
            old(self).wf(),
            old(self)@.may_come_back(window) ==> old(self)@.can_take(window),
        ensures
            final(self).wf(),
            (final(self)@, r) == old(self)@.reabsorbed(window, monitors@, drop_context),
    {
        if !self.should_try_overflow_float_drop(window) {
            return false;
        }
        let context: DropContext = match drop_context {
            Some(context) => context,
            None => match self.windows.get(window.0) {
                Some(info) => DropContext { rect: info.rect, cursor: None },
                None => {
                    return false;
                },
            },
        };
        if !self.overflow_float_drop_would_fit(window, monitors, context.rect, context.cursor) {
            return false;
        }
        self.set_window_participation(window, WindowParticipation::Tiled);
        self.reorder_window_by_drop_at(window, monitors, context.rect, context.cursor);
        true
    }
}

/// A drop leaves all windows in the order of the tiles, and makes the order longer at most by a window
/// that was not in it.
pub proof fn lemma_dropped_order(
    state: DaemonView,
    window: WindowHandle,
    monitors: Seq<MonitorInfo>,
    rect: Rect,
    cursor: Option<Point>,
)
    ensures
        ({
            let after = state.dropped(window, monitors, rect, cursor).0;
            &&& after.tile_order.len() <= state.tile_order.len() || after.tile_order.len() == without(
                state.tile_order,
                window,
            ).len() + 1
            &&& forall|other: WindowHandle|
                state.tile_order.contains(other) ==> #[trigger] after.tile_order.contains(other)
            &&& after.windows == state.windows
            &&& after.workspaces == state.workspaces
            &&& after.participation == state.participation
            &&& after.promoted == state.promoted
        }),
{
    if let Some(monitor) = state.drop_monitor(rect, cursor, monitors) {
        let put = DaemonView {
            overrides: state.overrides.insert(window.0, monitor.id),
            ..state
        };
        let rest = without(state.tile_order, window);
        let targets = put.drop_targets(window, monitor, monitors);
        let layout = put.layout_of(monitor);
        lemma_without(state.tile_order, window);
        if let Some(target) = tile_at(
            drop_point(rect, cursor),
            put.target_tiles(targets, monitor, layout),
        ) {
            lemma_position(rest, target.window, 0);
            lemma_inserted(rest, place_behind(rest, target.window), window);
        }
        if !(layout.kind is Dwindle && put.retargeted(
            window,
            rect,
            cursor,
            targets,
            monitor,
            layout,
        ).1) {
            let base = if layout.kind is Dwindle {
                put.retargeted(window, rect, cursor, targets, monitor, layout).0
            } else {
                put
            };
            let place = base.drop_place(window, drop_point(rect, cursor), targets, monitor);
            if place < targets.len() {
                lemma_position(rest, targets[place], 0);
            } else if targets.len() > 0 {
                lemma_position(rest, targets.last(), 0);
            }
            lemma_inserted(rest, place_among(rest, targets, place), window);
        }
    }
}

proof fn lemma_inserted(rest: Seq<WindowHandle>, place: int, window: WindowHandle)
    requires
        0 <= place <= rest.len(),
    ensures
        rest.insert(place, window).len() == rest.len() + 1,
        rest.insert(place, window).contains(window),
        forall|other: WindowHandle|
            rest.contains(other) ==> #[trigger] rest.insert(place, window).contains(other),
{
    let longer = rest.insert(place, window);
    assert(longer[place] == window);
    assert forall|other: WindowHandle| rest.contains(other) implies #[trigger] longer.contains(
        other,
    ) by {
        let i = rest.index_of(other);
        if i < place {
            assert(longer[i] == other);
        } else {
            assert(longer[i + 1] == other);
        }
    }
}

/// A drop that changes nothing leaves the tiles' order as it is.
proof fn lemma_unchanged_order(
    state: DaemonView,
    window: WindowHandle,
    rect: Rect,
    cursor: Option<Point>,
    targets: Seq<WindowHandle>,
    monitor: MonitorInfo,
    layout: LayoutConfig,
)
    requires
        !state.retargeted(window, rect, cursor, targets, monitor, layout).1,
    ensures
        state.retargeted(window, rect, cursor, targets, monitor, layout).0.tile_order
            == state.tile_order,
{
}

} // verus!
