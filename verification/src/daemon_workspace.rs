//! Commands that change what is shown where.

use vstd::prelude::*;

use crate::commands::CycleDirection;
use crate::daemon_state::{DaemonState, DaemonView};
use crate::daemon_sync::lemma_synced_keeps;
use crate::geometry::{MonitorId, MonitorInfo, Point, Rect, TileAssignment, WindowHandle};
use crate::handles::{lemma_filter_ends, lemma_filter_step};
use crate::workspace::{WorkspaceId, WorkspaceSwitchPlan, WorkspaceVisibilityChange};

verus! {

/// What a command calls for: the window that gets the focus, the windows to hide, to show and to move,
/// and whether the settings are to be reloaded or the daemon is to end.
#[derive(Debug, Clone, PartialEq, Eq)]
pub struct CommandPlan {
    pub focus: Option<WindowHandle>,
    pub hide: Vec<WindowHandle>,
    pub show: Vec<WorkspaceVisibilityChange>,
    pub moves: Vec<TileAssignment>,
    pub reload: bool,
    pub quit: bool,
}

/// A plan as a value.
pub ghost struct PlanView {
    pub focus: Option<WindowHandle>,
    pub hide: Seq<WindowHandle>,
    pub show: Seq<WorkspaceVisibilityChange>,
    pub moves: Seq<TileAssignment>,
    pub reload: bool,
    pub quit: bool,
}

impl View for CommandPlan {
    type V = PlanView;

    open spec fn view(&self) -> PlanView {
        PlanView {
            focus: self.focus,
            hide: self.hide@,
            show: self.show@,
            moves: self.moves@,
            reload: self.reload,
            quit: self.quit,
        }
    }
}

impl PlanView {
    /// Nothing to do.
    pub open spec fn nothing() -> PlanView {
        PlanView {
            focus: None,
            hide: Seq::empty(),
            show: Seq::empty(),
            moves: Seq::empty(),
            reload: false,
            quit: false,
        }
    }
}

impl Default for CommandPlan {
    fn default() -> (r: Self)
        ensures
            r@ == PlanView::nothing(),
    {
        CommandPlan {
            focus: None,
            hide: Vec::new(),
            show: Vec::new(),
            moves: Vec::new(),
            reload: false,
            quit: false,
        }
    }
}

/// What a change of workspaces calls for: the window that was taken along, and the windows to hide and
/// to show.
#[derive(Debug, Clone, PartialEq, Eq)]
pub struct WorkspaceCommandPlan {
    pub focus: Option<WindowHandle>,
    pub hide: Vec<WindowHandle>,
    pub show: Vec<WorkspaceVisibilityChange>,
}

impl DaemonView {
    /// Whether a window belongs to a monitor, or no monitor is meant.
    pub open spec fn belongs(
        self,
        window: WindowHandle,
        monitor: Option<MonitorId>,
        monitors: Seq<MonitorInfo>,
    ) -> bool {
        monitor is None || self.owner(window, monitors) == monitor
    }

    /// The window that is dragged and may be moved by a command.
    pub open spec fn movable_dragged(self, monitors: Seq<MonitorInfo>) -> Option<WindowHandle> {
        match self.dragged_window() {
            Some(window) => if self.movable(window, monitors) {
                Some(window)
            } else {
                None
            },
            None => None,
        }
    }

    /// The monitor of the window that is dragged.
    pub open spec fn drag_monitor(self, monitors: Seq<MonitorInfo>) -> Option<MonitorId> {
        match self.movable_dragged(monitors) {
            Some(window) => self.owner(window, monitors),
            None => None,
        }
    }

    /// The monitor on which the workspace is changed: the one of the dragged window, or else the one
    /// that commands mean, or else the first.
    pub open spec fn switch_monitor(self, monitors: Seq<MonitorInfo>) -> Option<MonitorId> {
        if self.drag_monitor(monitors) is Some {
            self.drag_monitor(monitors)
        } else if self.command_monitor(monitors) is Some {
            self.command_monitor(monitors)
        } else if monitors.len() > 0 {
            Some(monitors[0].id)
        } else {
            None
        }
    }

    /// The dragged window, if it is taken along.
    pub open spec fn taken_along(self, monitor: Option<MonitorId>, monitors: Seq<MonitorInfo>) -> Option<
        WindowHandle,
    > {
        match self.movable_dragged(monitors) {
            Some(window) => if self.belongs(window, monitor, monitors) {
                Some(window)
            } else {
                None
            },
            None => None,
        }
    }

    /// The state after the rectangle of a window was noted for its workspace.
    pub open spec fn with_rect_noted(self, window: WindowHandle) -> DaemonView {
        if self.windows.contains_key(window.0) {
            self.with_last_rect(window, self.windows[window.0].rect)
        } else {
            self
        }
    }

    /// The state after a window was moved to a workspace.
    pub open spec fn with_window_on(self, window: WindowHandle, workspace: WorkspaceId) -> DaemonView {
        DaemonView { workspaces: self.workspaces.moving(window, workspace), ..self }
    }

    /// Whether moving a window to a workspace changes its workspace.
    pub open spec fn would_move(self, window: WindowHandle, workspace: WorkspaceId) -> bool {
        self.workspaces.windows.contains_key(window.0) && self.workspaces.windows[window.0].workspace
            != workspace
    }

    /// The state after the workspace was changed on a monitor, or on the one that has the focus.
    pub open spec fn with_workspace_shown(self, monitor: Option<MonitorId>, workspace: WorkspaceId) -> DaemonView {
        DaemonView {
            workspaces: match monitor {
                Some(monitor) => self.workspaces.switched_on(monitor, workspace),
                None => self.workspaces.switched(workspace),
            },
            ..self
        }
    }

    /// The workspace that is shown on a monitor, or on the one that has the focus.
    pub open spec fn shown_before(self, monitor: Option<MonitorId>) -> WorkspaceId {
        match monitor {
            Some(monitor) => self.workspaces.active_on(monitor),
            None => self.workspaces.active,
        }
    }

    /// The windows that a change of workspaces may hide on a monitor.
    pub open spec fn is_hidden_on(
        self,
        except: Option<WindowHandle>,
        monitor: Option<MonitorId>,
        monitors: Seq<MonitorInfo>,
    ) -> spec_fn(WindowHandle) -> bool {
        |window: WindowHandle|
            except != Some(window) && self.safe_to_move(window, monitors) && self.belongs(
                window,
                monitor,
                monitors,
            )
    }

    /// The changes that concern windows of a monitor.
    pub open spec fn is_shown_on(self, monitor: Option<MonitorId>, monitors: Seq<MonitorInfo>) -> spec_fn(
        WorkspaceVisibilityChange,
    ) -> bool {
        |change: WorkspaceVisibilityChange| self.belongs(change.window, monitor, monitors)
    }

    /// A window that is to be shown where it was last, if it is known where.
    pub open spec fn shown_again(self, window: WindowHandle) -> WorkspaceVisibilityChange {
        WorkspaceVisibilityChange {
            window,
            restore_rect: if self.workspaces.windows.contains_key(window.0) {
                self.workspaces.windows[window.0].last_rect
            } else {
                None
            },
        }
    }

    /// The state before a change of workspaces: all in line, and the dragged window on the target
    /// workspace.
    pub open spec fn before_switch(self, workspace: WorkspaceId, monitors: Seq<MonitorInfo>) -> DaemonView {
        let synced = self.synced(monitors);
        match synced.taken_along(synced.switch_monitor(monitors), monitors) {
            Some(window) => synced.with_rect_noted(window).with_window_on(window, workspace),
            None => synced,
        }
    }

    /// The dragged window that was moved to the target workspace.
    pub open spec fn moved_along(self, workspace: WorkspaceId, monitors: Seq<MonitorInfo>) -> Option<
        WindowHandle,
    > {
        let synced = self.synced(monitors);
        match synced.taken_along(synced.switch_monitor(monitors), monitors) {
            Some(window) => if synced.with_rect_noted(window).would_move(window, workspace) {
                Some(window)
            } else {
                None
            },
            None => None,
        }
    }

    /// The state right after a change of workspaces, before the focus is settled.
    pub open spec fn just_switched(self, workspace: WorkspaceId, monitors: Seq<MonitorInfo>) -> DaemonView {
        self.before_switch(workspace, monitors).with_workspace_shown(
            self.synced(monitors).switch_monitor(monitors),
            workspace,
        )
    }

    /// The state after a change of workspaces; a foreground window that is not visible any more loses
    /// the focus.
    pub open spec fn after_switch(self, workspace: WorkspaceId, monitors: Seq<MonitorInfo>) -> DaemonView {
        let switched = self.just_switched(workspace, monitors);
        if switched.foreground is Some && !switched.visible(switched.foreground.unwrap(), monitors) {
            DaemonView { foreground: None, ..switched }
        } else {
            switched
        }
    }

    /// The windows that a change of workspaces hides.
    pub open spec fn switch_hides(self, workspace: WorkspaceId, monitors: Seq<MonitorInfo>) -> Seq<
        WindowHandle,
    > {
        let monitor = self.synced(monitors).switch_monitor(monitors);
        let before = self.before_switch(workspace, monitors);
        before.workspaces.hidden_by(before.shown_before(monitor), workspace).filter(
            self.just_switched(workspace, monitors).is_hidden_on(
                self.moved_along(workspace, monitors),
                monitor,
                monitors,
            ),
        )
    }

    /// The windows that a change of workspaces shows; the one that was taken along comes last if it is
    /// not among them.
    pub open spec fn switch_shows(self, workspace: WorkspaceId, monitors: Seq<MonitorInfo>) -> Seq<
        WorkspaceVisibilityChange,
    > {
        let monitor = self.synced(monitors).switch_monitor(monitors);
        let before = self.before_switch(workspace, monitors);
        let after = self.just_switched(workspace, monitors);
        let shown = before.workspaces.shown_by(before.shown_before(monitor), workspace).filter(
            after.is_shown_on(monitor, monitors),
        );
        match self.moved_along(workspace, monitors) {
            Some(window) => if !shows_window(shown, window) && after.belongs(window, monitor, monitors) {
                shown.push(after.shown_again(window))
            } else {
                shown
            },
            None => shown,
        }
    }

    /// The state after a command to change the workspace: the focus goes to the window that was taken
    /// along, or else to the first one on the monitor; then all is tiled.
    #[verifier::opaque]
    pub open spec fn switching(
        self,
        workspace: WorkspaceId,
        monitors: Seq<MonitorInfo>,
        cursor: Option<Point>,
    ) -> (DaemonView, PlanView) {
        let after = self.after_switch(workspace, monitors);
        let focus = if self.moved_along(workspace, monitors) is Some {
            self.moved_along(workspace, monitors)
        } else {
            after.candidate_on_focused(monitors)
        };
        let focused = DaemonView { foreground: focus, ..after };
        (
            focused.retiled(monitors, cursor),
            PlanView {
                focus,
                hide: self.switch_hides(workspace, monitors),
                show: self.switch_shows(workspace, monitors),
                moves: focused.all_tiles(monitors, cursor),
                ..PlanView::nothing()
            },
        )
    }

    /// The workspace that a command to change to the next or previous one means.
    pub open spec fn switch_target(self, direction: CycleDirection, monitors: Seq<MonitorInfo>) -> WorkspaceId {
        self.relative_workspace(
            direction,
            if self.drag_monitor(monitors) is Some {
                self.drag_monitor(monitors)
            } else {
                self.command_monitor(monitors)
            },
        )
    }
}

/// Whether one of the changes shows a window.
pub open spec fn shows_window(changes: Seq<WorkspaceVisibilityChange>, window: WindowHandle) -> bool {
    exists|i: int| 0 <= i < changes.len() && (#[trigger] changes[i]).window == window
}

/// Whether one of the changes shows a window.
pub fn has_change_for(changes: &[WorkspaceVisibilityChange], window: WindowHandle) -> (r: bool)
    ensures
        r == shows_window(changes@, window),
{
    let mut index: usize = 0;
    while index < changes.len()
        invariant
            index <= changes.len(),
            forall|i: int| 0 <= i < index ==> (#[trigger] changes@[i]).window != window,
        decreases changes.len() - index,
    {
        if changes[index].window == window {
            return true;
        }
        index = index + 1;
    }
    false
}

impl DaemonState {
    /// Whether a window belongs to a monitor, or no monitor is meant.
    pub fn belongs_to(
        &self,
        window: WindowHandle,
        monitor: Option<MonitorId>,
        monitors: &[MonitorInfo],
    ) -> (r: bool)
        requires
            self.wf(),
        ensures
            r == self@.belongs(window, monitor, monitors@),
    {
        match monitor {
            Some(monitor) => self.window_belongs_to_monitor(window, monitor, monitors),
            None => true,
        }
    }

    /// The windows of a list that a change of workspaces may hide on a monitor.
    pub fn hidden_on(
        &self,
        windows: &[WindowHandle],
        except: Option<WindowHandle>,
        monitor: Option<MonitorId>,
        monitors: &[MonitorInfo],
    ) -> (r: Vec<WindowHandle>)
        requires
            self.wf(),
        ensures
            r@ == windows@.filter(self@.is_hidden_on(except, monitor, monitors@)),
    {
        let ghost keep = self@.is_hidden_on(except, monitor, monitors@);
        let mut kept: Vec<WindowHandle> = Vec::new();
        let mut index: usize = 0;
        proof {
            lemma_filter_ends(windows@, keep);
        }
        while index < windows.len()
            invariant
                index <= windows.len(),
                self.wf(),
                keep == self@.is_hidden_on(except, monitor, monitors@),
                kept@ == windows@.take(index as int).filter(keep),
            decreases windows.len() - index,
        {
            proof {
                lemma_filter_step(windows@, index as int, keep);
            }
            let window: WindowHandle = windows[index];
            let excepted: bool = match except {
                Some(except) => except == window,
                None => false,
            };
            if !excepted && self.should_hide_for_workspace(window, monitors) && self.belongs_to(
                window,
                monitor,
                monitors,
            ) {
                kept.push(window);
            }
            index = index + 1;
        }
        proof {
            lemma_filter_ends(windows@, keep);
        }
        kept
    }

    /// The changes of a list that concern windows of a monitor.
    pub fn shown_on(
        &self,
        changes: &[WorkspaceVisibilityChange],
        monitor: Option<MonitorId>,
        monitors: &[MonitorInfo],
    ) -> (r: Vec<WorkspaceVisibilityChange>)
        requires
            self.wf(),
        ensures
            r@ == changes@.filter(self@.is_shown_on(monitor, monitors@)),
    {
        let ghost keep = self@.is_shown_on(monitor, monitors@);
        let mut kept: Vec<WorkspaceVisibilityChange> = Vec::new();
        let mut index: usize = 0;
        proof {
            lemma_filter_ends(changes@, keep);
        }
        while index < changes.len()
            invariant
                index <= changes.len(),
                self.wf(),
                keep == self@.is_shown_on(monitor, monitors@),
                kept@ == changes@.take(index as int).filter(keep),
            decreases changes.len() - index,
        {
            proof {
                lemma_filter_step(changes@, index as int, keep);
            }
            if self.belongs_to(changes[index].window, monitor, monitors) {
                kept.push(changes[index]);
            }
            index = index + 1;
        }
        proof {
            lemma_filter_ends(changes@, keep);
        }
        kept
    }

    /// The change that shows a window where it was last.
    pub fn change_for(&self, window: WindowHandle) -> (r: WorkspaceVisibilityChange)
        requires
            self.wf(),
        ensures
            r == self@.shown_again(window),
    {
        WorkspaceVisibilityChange {
            window,
            restore_rect: match self.workspaces.window_state(window) {
                Some(state) => state.last_rect,
                None => None,
            },
        }
    }

    fn movable_dragged_window(&self, monitors: &[MonitorInfo]) -> (r: Option<WindowHandle>)
        requires
            self.wf(),
        ensures
            r == self@.movable_dragged(monitors@),
    {
        match self.active_drag_window() {
            Some(window) => if self.is_command_movable_window(window, monitors) {
                Some(window)
            } else {
                None
            },
            None => None,
        }
    }

    /// The monitor of the window that is dragged.
    pub fn dragged_window_monitor(&self, monitors: &[MonitorInfo]) -> (r: Option<MonitorId>)
        requires
            self.wf(),
        ensures
            r == self@.drag_monitor(monitors@),
    {
        match self.movable_dragged_window(monitors) {
            Some(window) => self.window_owner_monitor(window, monitors),
            None => None,
        }
    }

    /// The dragged window, if a change of workspaces on a monitor takes it along.
    pub fn workspace_switch_drag_window(
        &self,
        target_monitor: Option<MonitorId>,
        monitors: &[MonitorInfo],
    ) -> (r: Option<WindowHandle>)
        requires
            self.wf(),
        ensures
            r == self@.taken_along(target_monitor, monitors@),
    {
        match self.movable_dragged_window(monitors) {
            Some(window) => if self.belongs_to(window, target_monitor, monitors) {
                Some(window)
            } else {
                None
            },
            None => None,
        }
    }

    /// Notes the rectangle of a window for its workspace.
    pub fn note_window_rect(&mut self, window: WindowHandle)
        requires
            old(self).wf(),
        ensures
            final(self).wf(),
            final(self)@ == old(self)@.with_rect_noted(window),
    {
        let rect: Option<Rect> = match self.windows.get(window.0) {
            Some(info) => Some(info.rect),
            None => None,
        };
        if let Some(rect) = rect {
            self.workspaces.update_window_rect(window, rect);
        }
    }

    /// Shows a workspace on a monitor, or on the one that has the focus.
    pub fn show_workspace(&mut self, monitor: Option<MonitorId>, workspace: WorkspaceId) -> (r:
        WorkspaceSwitchPlan)
        requires
            old(self).wf(),
        ensures
            final(self).wf(),
            final(self)@ == old(self)@.with_workspace_shown(monitor, workspace),
            r.hide@ == old(self)@.workspaces.hidden_by(old(self)@.shown_before(monitor), workspace),
            r.show@ == old(self)@.workspaces.shown_by(old(self)@.shown_before(monitor), workspace),
    {
        match monitor {
            Some(monitor) => self.workspaces.switch_monitor_to(monitor, workspace),
            None => self.workspaces.switch_to(workspace),
        }
    }

    /// Changes the workspace on the monitor that is meant; a dragged window goes along.
    pub fn switch_workspace(&mut self, workspace: WorkspaceId, monitors: &[MonitorInfo]) -> (r:
        WorkspaceCommandPlan)
        requires
            old(self).wf(),
        ensures
            final(self).wf(),
            final(self)@ == old(self)@.after_switch(workspace, monitors@),
            r.focus == old(self)@.moved_along(workspace, monitors@),
            r.hide@ == old(self)@.switch_hides(workspace, monitors@),
            r.show@ == old(self)@.switch_shows(workspace, monitors@),
    {
        self.sync_workspace_state(monitors);
        let monitor: Option<MonitorId> = match self.dragged_window_monitor(monitors) {
            Some(monitor) => Some(monitor),
            None => match self.command_monitor(monitors) {
                Some(monitor) => Some(monitor),
                None => if monitors.len() > 0 {
                    Some(monitors[0].id)
                } else {
                    None
                },
            },
        };
        let mut moved: Option<WindowHandle> = None;
        if let Some(window) = self.workspace_switch_drag_window(monitor, monitors) {
            self.note_window_rect(window);
            if self.workspaces.move_window_to_workspace(window, workspace) {
                moved = Some(window);
            }
        }
        proof {
            assert(self@ == old(self)@.before_switch(workspace, monitors@));
            assert(moved == old(self)@.moved_along(workspace, monitors@));
        }
        let plan: WorkspaceSwitchPlan = self.show_workspace(monitor, workspace);
        let hidden: Vec<WindowHandle> = self.hidden_on(&plan.hide, moved, monitor, monitors);
        let mut shown: Vec<WorkspaceVisibilityChange> = self.shown_on(&plan.show, monitor, monitors);
        if let Some(window) = moved {
            if !has_change_for(&shown, window) && self.belongs_to(window, monitor, monitors) {
                shown.push(self.change_for(window));
            }
        }
        if let Some(window) = self.foreground {
            if !self.is_window_visible_on_owned_monitor(window, monitors) {
                self.foreground = None;
            }
        }
        WorkspaceCommandPlan { focus: moved, hide: hidden, show: shown }
    }

    /// Changes the workspace, gives the focus, and tiles.
    pub fn plan_switch(
        &mut self,
        workspace: WorkspaceId,
        monitors: &[MonitorInfo],
        cursor_position: Option<Point>,
    ) -> (r: CommandPlan)
        requires
            old(self).wf(),
            old(self).tile_order.len() <= i32::MAX,
        ensures
            final(self).wf(),
            final(self).tile_order@ == old(self).tile_order@,
            (final(self)@, r@) == old(self)@.switching(workspace, monitors@, cursor_position),
    {
        proof {
            reveal(DaemonView::switching);
            lemma_synced_keeps(old(self)@, monitors@);
        }
        let plan: WorkspaceCommandPlan = self.switch_workspace(workspace, monitors);
        let focus: Option<WindowHandle> = match plan.focus {
            Some(window) => Some(window),
            None => self.focus_candidate_for_focused_monitor(monitors),
        };
        self.foreground = focus;
        let moves: Vec<TileAssignment> = self.tile_assignments(monitors, cursor_position);
        CommandPlan { focus, hide: plan.hide, show: plan.show, moves, reload: false, quit: false }
    }
}

} // verus!
