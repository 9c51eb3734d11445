//! Which windows are tiled where, and which ones give way when the tiles do not fit.

use vstd::prelude::*;

use crate::daemon_state::{DaemonState, DaemonView};
use crate::dwindle::DwindleSplit;
use crate::geometry::{MonitorInfo, Point, TileAssignment, WindowHandle};
use crate::handles::{
    contains_handle, handles_without, lemma_filter_ends, lemma_filter_step, lemma_without, without,
};
use crate::layout::{LayoutConfig, LayoutKind, WindowParticipation};
use crate::runtime_config::OverflowFocusPolicy;
use crate::split_memory::remembered;
use crate::tiling::{
    layout_splits, layout_tiles, tile_assignments_fit_work_area, tile_layout_windows_with_config,
    tile_layout_windows_with_state, tiles_fit, WindowLayoutInfo,
};
use crate::workspace::WorkspaceId;

verus! {

/// The windows that stay tiled on a monitor, and those that give way.
#[derive(Debug, Clone, PartialEq, Eq)]
pub struct MonitorOverflowPlan {
    pub tiled_windows: Vec<WindowHandle>,
    pub overflow_windows: Vec<WindowHandle>,
}

/// The last window that is not the given one.
pub open spec fn last_other(windows: Seq<WindowHandle>, focused: Option<WindowHandle>) -> Option<
    WindowHandle,
>
    decreases windows.len(),
{
    if windows.len() == 0 {
        None
    } else if Some(windows.last()) != focused {
        Some(windows.last())
    } else {
        last_other(windows.drop_last(), focused)
    }
}

proof fn lemma_last_other(windows: Seq<WindowHandle>, focused: Option<WindowHandle>)
    ensures
        last_other(windows, focused) matches Some(window) ==> windows.contains(window) && Some(window)
            != focused,
        last_other(windows, focused) is None ==> forall|i: int|
            0 <= i < windows.len() ==> Some(#[trigger] windows[i]) == focused,
    decreases windows.len(),
{
    if windows.len() > 0 {
        let rest = windows.drop_last();
        lemma_last_other(rest, focused);
        assert(windows[windows.len() - 1] == windows.last());
        if last_other(rest, focused) is Some {
            let i = rest.index_of(last_other(rest, focused).unwrap());
            assert(windows[i] == rest[i]);
        }
        if last_other(windows, focused) is None {
            assert forall|i: int| 0 <= i < windows.len() implies Some(#[trigger] windows[i])
                == focused by {
                if i < rest.len() {
                    assert(rest[i] == windows[i]);
                }
            }
        }
    }
}

impl DaemonView {
    /// The windows that are tiled on a monitor: those that take part, may be tiled there, and belong
    /// there.
    pub open spec fn is_tiled_on(self, monitor: MonitorInfo, monitors: Seq<MonitorInfo>) -> spec_fn(
        WindowHandle,
    ) -> bool {
        |window: WindowHandle|
            {
                &&& self.takes_part(window) == WindowParticipation::Tiled
                &&& self.tilable(window, monitor.id)
                &&& self.owns_rect(window, monitor.id, self.layout_rect(window), monitors)
            }
    }

    /// The windows that are tiled on a monitor, in their order.
    pub open spec fn tiled_on(self, monitor: MonitorInfo, monitors: Seq<MonitorInfo>) -> Seq<
        WindowHandle,
    > {
        self.tile_order.filter(self.is_tiled_on(monitor, monitors))
    }

    /// The windows that are to be placed, with their limits; windows that are gone are left out.
    pub open spec fn layout_infos(self, handles: Seq<WindowHandle>) -> Seq<WindowLayoutInfo>
        decreases handles.len(),
    {
        if handles.len() == 0 {
            Seq::empty()
        } else {
            let before = self.layout_infos(handles.drop_last());
            if self.windows.contains_key(handles.last().0) {
                before.push(
                    WindowLayoutInfo {
                        handle: handles.last(),
                        size_constraints: self.limits(handles.last()),
                    },
                )
            } else {
                before
            }
        }
    }

    /// Under what the splits of a monitor are remembered: the workspace that it shows, and the
    /// monitor.
    pub open spec fn split_key(self, monitor: MonitorInfo) -> (u16, u64) {
        (self.workspaces.active_on(monitor.id).0, monitor.id.0)
    }

    /// The tiles that windows would get on a monitor.
    pub open spec fn preview(
        self,
        monitor: MonitorInfo,
        handles: Seq<WindowHandle>,
        layout: LayoutConfig,
        cursor: Option<Point>,
    ) -> Seq<TileAssignment> {
        if layout.kind is Dwindle {
            layout_tiles(
                monitor.work_area,
                self.layout_infos(handles),
                layout,
                cursor,
                remembered(self.dwindle_splits, self.split_key(monitor)),
            )
        } else {
            layout_tiles(
                monitor.work_area,
                self.layout_infos(handles),
                layout,
                None,
                Seq::empty(),
            )
        }
    }

    /// The window that gives way when the tiles do not fit: the focused one if the settings say so,
    /// or else the last one that is not focused, or else the last one.
    pub open spec fn next_overflow(self, windows: Seq<WindowHandle>) -> Option<WindowHandle> {
        let focused = if self.foreground is Some && windows.contains(self.foreground.unwrap()) {
            self.foreground
        } else {
            None
        };
        if self.config.overflow_focus_policy == OverflowFocusPolicy::FloatFocused && focused is Some {
            focused
        } else if last_other(windows, focused) is Some {
            last_other(windows, focused)
        } else if windows.len() > 0 {
            Some(windows.last())
        } else {
            None
        }
    }

    /// The windows that stay tiled and those that give way, one after another until the tiles fit.
    pub open spec fn fitted(
        self,
        monitor: MonitorInfo,
        windows: Seq<WindowHandle>,
        overflow: Seq<WindowHandle>,
        layout: LayoutConfig,
        cursor: Option<Point>,
    ) -> (Seq<WindowHandle>, Seq<WindowHandle>)
        decreases windows.len(),
    {
        if tiles_fit(monitor.work_area, self.preview(monitor, windows, layout, cursor)) {
            (windows, overflow)
        } else {
            match self.next_overflow(windows) {
                None => (Seq::empty(), overflow),
                Some(window) => {
                    proof {
                        lemma_next_overflow(self, windows);
                        lemma_without(windows, window);
                    }
                    self.fitted(
                        monitor,
                        without(windows, window),
                        overflow.push(window),
                        layout,
                        cursor,
                    )
                },
            }
        }
    }

    /// The state after windows gave way; those that float already stay as they are.
    pub open spec fn promoting(self, windows: Seq<WindowHandle>) -> DaemonView
        decreases windows.len(),
    {
        if windows.len() == 0 {
            self
        } else {
            let before = self.promoting(windows.drop_last());
            if before.takes_part(windows.last()) == WindowParticipation::Tiled {
                before.with_promoted(windows.last())
            } else {
                before
            }
        }
    }

    /// The layout of a monitor.
    pub open spec fn layout_of(self, monitor: MonitorInfo) -> LayoutConfig {
        self.config.spec_layout(monitor, self.workspaces.active_on(monitor.id))
    }

    /// The windows that stay tiled on a monitor and those that give way.
    pub open spec fn overflow_on(
        self,
        monitor: MonitorInfo,
        monitors: Seq<MonitorInfo>,
        cursor: Option<Point>,
    ) -> (Seq<WindowHandle>, Seq<WindowHandle>) {
        self.fitted(
            monitor,
            self.tiled_on(monitor, monitors),
            Seq::empty(),
            self.layout_of(monitor),
            cursor,
        )
    }

    /// The state after a monitor was tiled.
    pub open spec fn after_tiling_on(
        self,
        monitor: MonitorInfo,
        monitors: Seq<MonitorInfo>,
        cursor: Option<Point>,
    ) -> DaemonView {
        let plan = self.overflow_on(monitor, monitors, cursor);
        let promoted = self.promoting(plan.1);
        let key = self.split_key(monitor);
        DaemonView {
            dwindle_splits: if self.layout_of(monitor).kind is Dwindle {
                promoted.dwindle_splits.insert(
                    key,
                    layout_splits(
                        monitor.work_area,
                        promoted.layout_infos(plan.0),
                        self.layout_of(monitor),
                        cursor,
                        remembered(promoted.dwindle_splits, key),
                    ),
                )
            } else {
                promoted.dwindle_splits.remove(key)
            },
            ..promoted
        }
    }

    /// The tiles of a monitor.
    pub open spec fn tiles_on(
        self,
        monitor: MonitorInfo,
        monitors: Seq<MonitorInfo>,
        cursor: Option<Point>,
    ) -> Seq<TileAssignment> {
        let plan = self.overflow_on(monitor, monitors, cursor);
        self.promoting(plan.1).preview(monitor, plan.0, self.layout_of(monitor), cursor)
    }

    /// The state after the first monitors of a list were tiled.
    pub open spec fn after_tiling(
        self,
        done: Seq<MonitorInfo>,
        monitors: Seq<MonitorInfo>,
        cursor: Option<Point>,
    ) -> DaemonView
        decreases done.len(),
    {
        if done.len() == 0 {
            self
        } else {
            let before = self.after_tiling(done.drop_last(), monitors, cursor);
            if before.game_mode.pauses_monitor(done.last().id) {
                before
            } else {
                before.after_tiling_on(done.last(), monitors, cursor)
            }
        }
    }

    /// The tiles of the first monitors of a list.
    pub open spec fn tiles(
        self,
        done: Seq<MonitorInfo>,
        monitors: Seq<MonitorInfo>,
        cursor: Option<Point>,
    ) -> Seq<TileAssignment>
        decreases done.len(),
    {
        if done.len() == 0 {
            Seq::empty()
        } else {
            let before = self.after_tiling(done.drop_last(), monitors, cursor);
            let tiles = self.tiles(done.drop_last(), monitors, cursor);
            if before.game_mode.pauses_monitor(done.last().id) {
                tiles
            } else {
                tiles + before.tiles_on(done.last(), monitors, cursor)
            }
        }
    }

    /// The state after all monitors were tiled; nothing happens while a game pauses the layouts.
    pub open spec fn retiled(self, monitors: Seq<MonitorInfo>, cursor: Option<Point>) -> DaemonView {
        if self.game_mode.pauses_layouts() {
            self
        } else {
            self.after_tiling(monitors, monitors, cursor)
        }
    }

    /// The tiles of all monitors; none while a game pauses the layouts.
    pub open spec fn all_tiles(self, monitors: Seq<MonitorInfo>, cursor: Option<Point>) -> Seq<
        TileAssignment,
    > {
        if self.game_mode.pauses_layouts() {
            Seq::empty()
        } else {
            self.tiles(monitors, monitors, cursor)
        }
    }
}

/// The window that gives way is one of the windows, and there is one as long as there are windows.
pub proof fn lemma_next_overflow(state: DaemonView, windows: Seq<WindowHandle>)
    ensures
        state.next_overflow(windows) matches Some(window) ==> windows.contains(window),
        state.next_overflow(windows) is None <==> windows.len() == 0,
{
    let focused = if state.foreground is Some && windows.contains(state.foreground.unwrap()) {
        state.foreground
    } else {
        None
    };
    lemma_last_other(windows, focused);
    if windows.len() > 0 {
        assert(windows.contains(windows.last()));
    }
}

/// The windows that are to be placed are no more than the handles.
pub proof fn lemma_layout_infos_len(state: DaemonView, handles: Seq<WindowHandle>)
    ensures
        state.layout_infos(handles).len() <= handles.len(),
    decreases handles.len(),
{
    if handles.len() > 0 {
        lemma_layout_infos_len(state, handles.drop_last());
    }
}

impl DaemonState {
    /// The windows that are tiled on a monitor, in their order.
    pub fn tiled_handles_for_monitor(&self, monitor: &MonitorInfo, monitors: &[MonitorInfo]) -> (r: Vec<
        WindowHandle,
    >)
        requires
            self.wf(),
        ensures
            r@ == self@.tiled_on(*monitor, monitors@),
            r.len() <= self.tile_order.len(),
    {
        let ghost keep = self@.is_tiled_on(*monitor, monitors@);
        let mut kept: Vec<WindowHandle> = Vec::new();
        let mut index: usize = 0;
        proof {
            lemma_filter_ends(self.tile_order@, keep);
        }
        while index < self.tile_order.len()
            invariant
                index <= self.tile_order.len(),
                self.wf(),
                keep == self@.is_tiled_on(*monitor, monitors@),
                kept@ == self.tile_order@.take(index as int).filter(keep),
                kept.len() <= index,
            decreases self.tile_order.len() - index,
        {
            let handle: WindowHandle = self.tile_order[index];
            proof {
                lemma_filter_step(self.tile_order@, index as int, keep);
            }
            if self.window_participation(handle).is_tiled() {
                if let Some(window) = self.windows.get(handle.0) {
                    if self.is_tilable_window_on_monitor(handle, monitor.id)
                        && self.monitor_owns_window_rect(
                        handle,
                        monitor,
                        self.window_layout_rect(handle, window),
                        monitors,
                    ) {
                        kept.push(handle);
                    }
                }
            }
            index = index + 1;
        }
        proof {
            lemma_filter_ends(self.tile_order@, keep);
        }
        kept
    }

    /// The windows that are to be placed, with their limits.
    pub fn layout_windows_for_handles(&self, handles: &[WindowHandle]) -> (r: Vec<WindowLayoutInfo>)
        requires
            self.wf(),
        ensures
            r@ == self@.layout_infos(handles@),
            r.len() <= handles.len(),
    {
        let mut infos: Vec<WindowLayoutInfo> = Vec::new();
        let mut index: usize = 0;
        while index < handles.len()
            invariant
                index <= handles.len(),
                self.wf(),
                infos@ == self@.layout_infos(handles@.take(index as int)),
                infos.len() <= index,
            decreases handles.len() - index,
        {
            proof {
                assert(handles@.take(index + 1).drop_last() =~= handles@.take(index as int));
                assert(handles@.take(index + 1).last() == handles@[index as int]);
            }
            let handle: WindowHandle = handles[index];
            if self.windows.contains_key(handle.0) {
                infos.push(
                    WindowLayoutInfo { handle, size_constraints: self.window_limits(handle) },
                );
            }
            index = index + 1;
        }
        proof {
            assert(handles@.take(index as int) =~= handles@);
        }
        infos
    }

    /// The tiles that windows would get on a monitor.
    pub fn preview_tile_assignments(
        &self,
        monitor: &MonitorInfo,
        handles: &[WindowHandle],
        layout: LayoutConfig,
        cursor_position: Option<Point>,
    ) -> (r: Vec<TileAssignment>)
        requires
            self.wf(),
            handles.len() <= i32::MAX,
        ensures
            r@ == self@.preview(*monitor, handles@, layout, cursor_position),
    {
        let infos: Vec<WindowLayoutInfo> = self.layout_windows_for_handles(handles);
        match layout.kind {
            LayoutKind::Dwindle => {
                let workspace: WorkspaceId = self.workspaces.active_workspace_for_monitor(monitor.id);
                let mut splits: Vec<DwindleSplit> = self.dwindle_splits.get(workspace, monitor.id);
                tile_layout_windows_with_state(
                    monitor.work_area,
                    &infos,
                    layout,
                    cursor_position,
                    &mut splits,
                )
            },
            _ => tile_layout_windows_with_config(monitor.work_area, &infos, layout),
        }
    }

    /// The window that gives way when the tiles do not fit.
    pub fn next_overflow_window(&self, tiled_windows: &[WindowHandle]) -> (r: Option<WindowHandle>)
        ensures
            r == self@.next_overflow(tiled_windows@),
            r matches Some(window) ==> tiled_windows@.contains(window),
    {
        proof {
            lemma_next_overflow(self@, tiled_windows@);
        }
        let focused: Option<WindowHandle> = match self.foreground {
            Some(window) => if contains_handle(tiled_windows, window) {
                Some(window)
            } else {
                None
            },
            None => None,
        };
        if self.config.overflow_focus_policy == OverflowFocusPolicy::FloatFocused && focused.is_some() {
            return focused;
        }
        let mut index: usize = tiled_windows.len();
        proof {
            assert(tiled_windows@.take(index as int) =~= tiled_windows@);
        }
        while index > 0
            invariant
                index <= tiled_windows.len(),
                last_other(tiled_windows@, focused) == last_other(
                    tiled_windows@.take(index as int),
                    focused,
                ),
                self@.next_overflow(tiled_windows@) == (if last_other(tiled_windows@, focused) is Some {
                    last_other(tiled_windows@, focused)
                } else if tiled_windows@.len() > 0 {
                    Some(tiled_windows@.last())
                } else {
                    None
                }),
                self@.next_overflow(tiled_windows@) matches Some(window) ==> tiled_windows@.contains(
                    window,
                ),
            decreases index,
        {
            proof {
                assert(tiled_windows@.take(index as int).drop_last() =~= tiled_windows@.take(
                    index - 1,
                ));
                assert(tiled_windows@.take(index as int).last() == tiled_windows@[index - 1]);
            }
            index = index - 1;
            let window: WindowHandle = tiled_windows[index];
            let is_focused: bool = match focused {
                Some(focused) => focused == window,
                None => false,
            };
            if !is_focused {
                return Some(window);
            }
        }
        if tiled_windows.len() > 0 {
            Some(tiled_windows[tiled_windows.len() - 1])
        } else {
            None
        }
    }

    /// The windows that stay tiled on a monitor, and those that give way.
    pub fn resolve_overflow_for_monitor(
        &self,
        monitor: &MonitorInfo,
        handles: &[WindowHandle],
        layout: LayoutConfig,
        cursor_position: Option<Point>,
    ) -> (r: MonitorOverflowPlan)
        requires
            self.wf(),
            handles.len() <= i32::MAX,
        ensures
            (r.tiled_windows@, r.overflow_windows@) == self@.fitted(
                *monitor,
                handles@,
                Seq::empty(),
                layout,
                cursor_position,
            ),
            r.tiled_windows.len() <= handles.len(),
    {
        let mut windows: Vec<WindowHandle> = Vec::new();
        windows.extend_from_slice(handles);
        let mut overflow: Vec<WindowHandle> = Vec::new();
        proof {
            assert(windows@ =~= handles@);
        }
        loop
            invariant
                self.wf(),
                windows.len() <= handles.len() <= i32::MAX,
                self@.fitted(*monitor, windows@, overflow@, layout, cursor_position) == self@.fitted(
                    *monitor,
                    handles@,
                    Seq::empty(),
                    layout,
                    cursor_position,
                ),
            decreases windows.len(),
        {
            let assignments: Vec<TileAssignment> = self.preview_tile_assignments(
                monitor,
                &windows,
                layout,
                cursor_position,
            );
            if tile_assignments_fit_work_area(monitor.work_area, &assignments) {
                return MonitorOverflowPlan { tiled_windows: windows, overflow_windows: overflow };
            }
            match self.next_overflow_window(&windows) {
                None => {
                    return MonitorOverflowPlan {
                        tiled_windows: Vec::new(),
                        overflow_windows: overflow,
                    };
                },
                Some(window) => {
                    windows = handles_without(&windows, window);
                    overflow.push(window);
                },
            }
        }
    }

    /// Tiles one monitor.
    fn tile_monitor(
        &mut self,
        monitor: &MonitorInfo,
        monitors: &[MonitorInfo],
        cursor_position: Option<Point>,
    ) -> (r: Vec<TileAssignment>)
        requires
            old(self).wf(),
            old(self).tile_order.len() <= i32::MAX,
        ensures
            final(self).wf(),
            final(self)@ == old(self)@.after_tiling_on(*monitor, monitors@, cursor_position),
            r@ == old(self)@.tiles_on(*monitor, monitors@, cursor_position),
            final(self).tile_order@ == old(self).tile_order@,
    {
        let workspace: WorkspaceId = self.workspaces.active_workspace_for_monitor(monitor.id);
        let handles: Vec<WindowHandle> = self.tiled_handles_for_monitor(monitor, monitors);
        let layout: LayoutConfig = self.config.layout_for_monitor(monitor, workspace);
        let plan: MonitorOverflowPlan = self.resolve_overflow_for_monitor(
            monitor,
            &handles,
            layout,
            cursor_position,
        );
        let ghost base = self@;
        let mut index: usize = 0;
        proof {
            assert(plan.overflow_windows@.take(0) =~= Seq::empty());
        }
        while index < plan.overflow_windows.len()
            invariant
                index <= plan.overflow_windows.len(),
                self.wf(),
                self@ == base.promoting(plan.overflow_windows@.take(index as int)),
                self.tile_order@ == old(self).tile_order@,
                self@.workspaces == base.workspaces,
                self@.dwindle_splits == base.dwindle_splits,
                self@.config == base.config,
            decreases plan.overflow_windows.len() - index,
        {
            proof {
                assert(plan.overflow_windows@.take(index + 1).drop_last()
                    =~= plan.overflow_windows@.take(index as int));
                assert(plan.overflow_windows@.take(index + 1).last()
                    == plan.overflow_windows@[index as int]);
            }
            let window: WindowHandle = plan.overflow_windows[index];
            if self.window_participation(window).is_tiled() {
                self.promote_overflow_window_to_floating(window);
            }
            index = index + 1;
        }
        proof {
            assert(plan.overflow_windows@.take(index as int) =~= plan.overflow_windows@);
        }
        let infos: Vec<WindowLayoutInfo> = self.layout_windows_for_handles(&plan.tiled_windows);
        match layout.kind {
            LayoutKind::Dwindle => {
                let mut splits: Vec<DwindleSplit> = self.dwindle_splits.get(workspace, monitor.id);
                let tiles: Vec<TileAssignment> = tile_layout_windows_with_state(
                    monitor.work_area,
                    &infos,
                    layout,
                    cursor_position,
                    &mut splits,
                );
                self.dwindle_splits.insert(workspace, monitor.id, splits);
                tiles
            },
            _ => {
                self.dwindle_splits.remove(workspace, monitor.id);
                tile_layout_windows_with_config(monitor.work_area, &infos, layout)
            },
        }
    }

    /// Tiles all monitors; the cursor's position matters to the dwindle layout.
    pub fn tile_assignments(&mut self, monitors: &[MonitorInfo], cursor_position: Option<Point>) -> (r: Vec<
        TileAssignment,
    >)
        requires
            old(self).wf(),
            old(self).tile_order.len() <= i32::MAX,
        ensures
            final(self).wf(),
            final(self)@ == old(self)@.retiled(monitors@, cursor_position),
            r@ == old(self)@.all_tiles(monitors@, cursor_position),
            final(self).tile_order@ == old(self).tile_order@,
    {
        let mut assignments: Vec<TileAssignment> = Vec::new();
        if self.game_mode_pauses_layouts() {
            return assignments;
        }
        let mut index: usize = 0;
        proof {
            assert(monitors@.take(0) =~= Seq::empty());
        }
        while index < monitors.len()
            invariant
                index <= monitors.len(),
                self.wf(),
                self.tile_order.len() <= i32::MAX,
                self.tile_order@ == old(self).tile_order@,
                self@ == old(self)@.after_tiling(
                    monitors@.take(index as int),
                    monitors@,
                    cursor_position,
                ),
                assignments@ == old(self)@.tiles(
                    monitors@.take(index as int),
                    monitors@,
                    cursor_position,
                ),
            decreases monitors.len() - index,
        {
            proof {
                assert(monitors@.take(index + 1).drop_last() =~= monitors@.take(index as int));
                assert(monitors@.take(index + 1).last() == monitors@[index as int]);
            }
            if !self.game_mode_pauses_monitor(monitors[index].id) {
                let mut tiles: Vec<TileAssignment> = self.tile_monitor(
                    &monitors[index],
                    monitors,
                    cursor_position,
                );
                assignments.append(&mut tiles);
            }
            index = index + 1;
        }
        proof {
            assert(monitors@.take(index as int) =~= monitors@);
        }
        assignments
    }
}

} // verus!
