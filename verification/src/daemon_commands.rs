//! Carrying commands out.

use vstd::prelude::*;

use crate::commands::{DaemonCommand, MonitorSelector};
use crate::daemon_state::{DaemonState, DaemonView};
use crate::daemon_sync::lemma_synced_keeps;
use crate::daemon_workspace::{has_change_for, shows_window, CommandPlan, PlanView};
use crate::geometry::{MonitorId, MonitorInfo, Point, Rect, TileAssignment, WindowHandle};
use crate::handles::{lemma_filter_ends, lemma_filter_step, ordered_handles};
use crate::monitors::{find_monitor, monitor_named, translate_rect_to_monitor, translated};
use crate::workspace::{WorkspaceId, WorkspaceSwitchPlan, WorkspaceVisibilityChange};

verus! {

/// Where a command goes.
#[derive(Debug, Clone, Copy, PartialEq, Eq, Structural)]
pub enum CommandRoute {
    Launch,
    Reload,
    Ignore,
    Plan,
}

impl DaemonView {
    /// The foreground window, if a command may move it.
    pub open spec fn movable_foreground(self, monitors: Seq<MonitorInfo>) -> Option<WindowHandle> {
        if self.foreground is Some && self.movable(self.foreground.unwrap(), monitors) {
            self.foreground
        } else {
            None
        }
    }

    /// The monitor of a window, or else the one that commands mean.
    pub open spec fn owner_or_command_monitor(self, window: WindowHandle, monitors: Seq<MonitorInfo>) -> Option<
        MonitorId,
    > {
        if self.owner(window, monitors) is Some {
            self.owner(window, monitors)
        } else {
            self.command_monitor(monitors)
        }
    }

    /// What becomes of a command to move the focused window to a workspace and to go there too.
    pub open spec fn following(
        self,
        current: WindowHandle,
        workspace: WorkspaceId,
        monitor: Option<MonitorId>,
        monitors: Seq<MonitorInfo>,
        cursor: Option<Point>,
    ) -> (DaemonView, PlanView) {
        let after = self.with_workspace_shown(monitor, workspace);
        let focused = DaemonView { foreground: Some(current), ..after };
        (
            focused.retiled(monitors, cursor),
            PlanView {
                focus: Some(current),
                hide: self.workspaces.hidden_by(self.shown_before(monitor), workspace).filter(
                    after.is_hidden_on(Some(current), monitor, monitors),
                ),
                show: self.workspaces.shown_by(self.shown_before(monitor), workspace).filter(
                    after.is_shown_on(monitor, monitors),
                ),
                moves: focused.all_tiles(monitors, cursor),
                ..PlanView::nothing()
            },
        )
    }

    /// What becomes of a command to move the focused window to a workspace and to stay.
    pub open spec fn leaving(
        self,
        current: WindowHandle,
        was_visible: bool,
        monitor: Option<MonitorId>,
        monitors: Seq<MonitorInfo>,
        cursor: Option<Point>,
    ) -> (DaemonView, PlanView) {
        let focus = match monitor {
            Some(monitor) => self.candidate_on(monitor, monitors),
            None => None,
        };
        let focused = DaemonView { foreground: focus, ..self };
        (
            focused.retiled(monitors, cursor),
            PlanView {
                focus,
                hide: if was_visible && !self.visible(current, monitors) && self.safe_to_move(
                    current,
                    monitors,
                ) {
                    seq![current]
                } else {
                    Seq::empty()
                },
                moves: focused.all_tiles(monitors, cursor),
                ..PlanView::nothing()
            },
        )
    }

    /// What becomes of a command to move the focused window to a workspace.
    #[verifier::opaque]
    pub open spec fn moving_focused(
        self,
        workspace: WorkspaceId,
        follow: bool,
        monitors: Seq<MonitorInfo>,
        cursor: Option<Point>,
    ) -> (DaemonView, PlanView) {
        match self.movable_foreground(monitors) {
            None => (self, PlanView::nothing()),
            Some(current) => {
                let noted = self.synced(monitors).with_rect_noted(current);
                let monitor = noted.owner_or_command_monitor(current, monitors);
                let moved = noted.with_window_on(current, workspace);
                if !noted.would_move(current, workspace) {
                    (moved, PlanView::nothing())
                } else if follow {
                    moved.following(current, workspace, monitor, monitors, cursor)
                } else {
                    moved.leaving(current, noted.visible(current, monitors), monitor, monitors, cursor)
                }
            },
        }
    }

    /// Where a window goes when it is moved to a monitor; none if the window or the monitor is not
    /// known.
    pub open spec fn translated_rect(
        self,
        window: WindowHandle,
        source: Option<MonitorId>,
        target: MonitorId,
        monitors: Seq<MonitorInfo>,
    ) -> Option<Rect> {
        if !self.windows.contains_key(window.0) {
            None
        } else {
            match monitor_named(monitors, target) {
                None => None,
                Some(monitor) => Some(
                    translated(
                        self.windows[window.0].rect,
                        match source {
                            Some(source) => monitor_named(monitors, source),
                            None => None,
                        },
                        monitor,
                    ),
                ),
            }
        }
    }

    /// What becomes of a command to move the focused window to a monitor.
    #[verifier::opaque]
    pub open spec fn moving_to_monitor(
        self,
        selector: MonitorSelector,
        monitors: Seq<MonitorInfo>,
        cursor: Option<Point>,
    ) -> (DaemonView, PlanView) {
        match (self.movable_foreground(monitors), self.selected(selector, monitors)) {
            (Some(current), Some(target)) => {
                let source = self.owner(current, monitors);
                let workspace = self.workspaces.active_on(target);
                let moved = self.with_rect_noted(current).with_window_on(current, workspace);
                let focused = DaemonView {
                    overrides: moved.overrides.insert(current.0, target),
                    workspaces: moved.workspaces.focused_on(target),
                    foreground: Some(current),
                    ..moved
                };
                let after = focused.retiled(monitors, cursor);
                let tiles = focused.all_tiles(monitors, cursor);
                (
                    after,
                    PlanView {
                        focus: Some(current),
                        moves: match after.translated_rect(current, source, target, monitors) {
                            Some(rect) => if after.floats(current) {
                                tiles.push(TileAssignment { window: current, rect })
                            } else {
                                tiles
                            },
                            None => tiles,
                        },
                        ..PlanView::nothing()
                    },
                )
            },
            _ => (self, PlanView::nothing()),
        }
    }

    /// The windows of a workspace that the daemon may move.
    pub open spec fn is_sent(self, workspace: WorkspaceId, monitors: Seq<MonitorInfo>) -> spec_fn(
        WindowHandle,
    ) -> bool {
        |window: WindowHandle|
            self.workspaces.windows.contains_key(window.0)
                && self.workspaces.windows[window.0].workspace == workspace && self.safe_to_move(
                window,
                monitors,
            )
    }

    /// Where the floating ones among windows go when they are moved to a monitor.
    pub open spec fn floating_moves(
        self,
        windows: Seq<WindowHandle>,
        target: MonitorId,
        monitors: Seq<MonitorInfo>,
    ) -> Seq<TileAssignment>
        decreases windows.len(),
    {
        if windows.len() == 0 {
            Seq::empty()
        } else {
            let before = self.floating_moves(windows.drop_last(), target, monitors);
            let window = windows.last();
            match self.translated_rect(window, self.owner(window, monitors), target, monitors) {
                Some(rect) => if self.floats(window) {
                    before.push(TileAssignment { window, rect })
                } else {
                    before
                },
                None => before,
            }
        }
    }

    /// The state after windows were put on a monitor.
    pub open spec fn with_windows_on(self, windows: Seq<WindowHandle>, target: MonitorId) -> DaemonView
        decreases windows.len(),
    {
        if windows.len() == 0 {
            self
        } else {
            let before = self.with_windows_on(windows.drop_last(), target);
            DaemonView { overrides: before.overrides.insert(windows.last().0, target), ..before }
        }
    }

    /// Changes with those for windows that are not among them yet.
    pub open spec fn with_changes_for(
        self,
        changes: Seq<WorkspaceVisibilityChange>,
        windows: Seq<WindowHandle>,
    ) -> Seq<WorkspaceVisibilityChange>
        decreases windows.len(),
    {
        if windows.len() == 0 {
            changes
        } else {
            let before = self.with_changes_for(changes, windows.drop_last());
            if shows_window(before, windows.last()) {
                before
            } else {
                before.push(self.shown_again(windows.last()))
            }
        }
    }

    /// What becomes of a command to send a workspace to a monitor.
    #[verifier::opaque]
    pub open spec fn sending(
        self,
        workspace: WorkspaceId,
        selector: MonitorSelector,
        monitors: Seq<MonitorInfo>,
        cursor: Option<Point>,
    ) -> (DaemonView, PlanView) {
        match self.selected(selector, monitors) {
            None => (self, PlanView::nothing()),
            Some(target) => {
                let windows = ordered_handles(self.workspaces.windows).filter(
                    self.is_sent(workspace, monitors),
                );
                let put = self.with_windows_on(windows, target);
                let after = put.with_workspace_shown(Some(target), workspace);
                let from = put.workspaces.active_on(target);
                let focus = after.candidate_on(target, monitors);
                let focused = DaemonView { foreground: focus, ..after };
                (
                    focused.retiled(monitors, cursor),
                    PlanView {
                        focus,
                        hide: put.workspaces.hidden_by(from, workspace).filter(
                            after.is_hidden_on(None, Some(target), monitors),
                        ),
                        show: after.with_changes_for(
                            put.workspaces.shown_by(from, workspace).filter(
                                after.is_shown_on(Some(target), monitors),
                            ),
                            windows,
                        ),
                        moves: focused.all_tiles(monitors, cursor) + self.floating_moves(
                            windows,
                            target,
                            monitors,
                        ),
                        ..PlanView::nothing()
                    },
                )
            },
        }
    }

    /// What becomes of a command to place the windows anew.
    pub open spec fn retiling(self, monitors: Seq<MonitorInfo>, cursor: Option<Point>) -> (
        DaemonView,
        PlanView,
    ) {
        (
            self.retiled(monitors, cursor),
            PlanView { moves: self.all_tiles(monitors, cursor), ..PlanView::nothing() },
        )
    }

    /// What becomes of a command: the state after it, and what is to be done.
    pub open spec fn commanded(
        self,
        command: DaemonCommand,
        monitors: Seq<MonitorInfo>,
        cursor: Option<Point>,
    ) -> (DaemonView, PlanView) {
        match command {
            DaemonCommand::Focus(direction) => {
                let focus = self.focus_goes_to(direction, monitors);
                (
                    match focus {
                        Some(target) => (DaemonView {
                            foreground: focus,
                            ..self
                        }).focusing_monitor_of(target, monitors),
                        None => self,
                    },
                    PlanView { focus, ..PlanView::nothing() },
                )
            },
            DaemonCommand::FocusMonitor(selector) => match self.selected(selector, monitors) {
                None => (self, PlanView::nothing()),
                Some(monitor) => {
                    let focused = DaemonView {
                        workspaces: self.workspaces.focused_on(monitor),
                        ..self
                    };
                    let focus = focused.candidate_on(monitor, monitors);
                    (
                        DaemonView { foreground: focus, ..focused },
                        PlanView { focus, ..PlanView::nothing() },
                    )
                },
            },
            DaemonCommand::Swap(direction) => self.swapped(direction, monitors).retiling(
                monitors,
                cursor,
            ),
            DaemonCommand::Retile => self.retiling(monitors, cursor),
            DaemonCommand::ToggleFloat => self.float_toggled(monitors).retiling(monitors, cursor),
            DaemonCommand::SwitchWorkspace(workspace) => self.switching(workspace, monitors, cursor),
            DaemonCommand::SwitchWorkspaceRelative(direction) => {
                let synced = self.synced(monitors);
                synced.switching(synced.switch_target(direction, monitors), monitors, cursor)
            },
            DaemonCommand::MoveFocusedToWorkspace(workspace) => self.moving_focused(
                workspace,
                false,
                monitors,
                cursor,
            ),
            DaemonCommand::MoveFocusedToWorkspaceAndFollow(workspace) => self.moving_focused(
                workspace,
                true,
                monitors,
                cursor,
            ),
            DaemonCommand::MoveFocusedToMonitor(selector) => self.moving_to_monitor(
                selector,
                monitors,
                cursor,
            ),
            DaemonCommand::SendWorkspaceToMonitor { workspace, monitor } => self.sending(
                workspace,
                monitor,
                monitors,
                cursor,
            ),
            DaemonCommand::Quit => (self, PlanView { quit: true, ..PlanView::nothing() }),
            DaemonCommand::Reload => (self, PlanView { reload: true, ..PlanView::nothing() }),
            DaemonCommand::Launch(_) => (self, PlanView::nothing()),
        }
    }
}

impl DaemonState {
    fn movable_foreground_window(&self, monitors: &[MonitorInfo]) -> (r: Option<WindowHandle>)
        requires
            self.wf(),
        ensures
            r == self@.movable_foreground(monitors@),
    {
        match self.foreground {
            Some(window) => if self.is_command_movable_window(window, monitors) {
                Some(window)
            } else {
                None
            },
            None => None,
        }
    }

    /// Moves the focused window to a workspace, and goes there too or stays.
    pub fn move_focused_to_workspace(
        &mut self,
        workspace: WorkspaceId,
        follow: bool,
        monitors: &[MonitorInfo],
        cursor_position: Option<Point>,
    ) -> (r: CommandPlan)
        requires
            old(self).wf(),
            old(self).tile_order.len() <= i32::MAX,
        ensures
            final(self).wf(),
            (final(self)@, r@) == old(self)@.moving_focused(
                workspace,
                follow,
                monitors@,
                cursor_position,
            ),
    {
        proof {
            reveal(DaemonView::moving_focused);
        }
        let current: WindowHandle = match self.movable_foreground_window(monitors) {
            Some(window) => window,
            None => {
                return CommandPlan::default();
            },
        };
        proof {
            lemma_synced_keeps(self@, monitors@);
        }
        self.sync_workspace_state(monitors);
        self.note_window_rect(current);
        let monitor: Option<MonitorId> = match self.window_owner_monitor(current, monitors) {
            Some(monitor) => Some(monitor),
            None => self.command_monitor(monitors),
        };
        let was_visible: bool = self.is_window_visible_on_owned_monitor(current, monitors);
        if !self.workspaces.move_window_to_workspace(current, workspace) {
            return CommandPlan::default();
        }
        if follow {
            self.follow_window(current, workspace, monitor, monitors, cursor_position)
        } else {
            self.leave_window(current, was_visible, monitor, monitors, cursor_position)
        }
    }

    fn follow_window(
        &mut self,
        current: WindowHandle,
        workspace: WorkspaceId,
        monitor: Option<MonitorId>,
        monitors: &[MonitorInfo],
        cursor_position: Option<Point>,
    ) -> (r: CommandPlan)
        requires
            old(self).wf(),
            old(self).tile_order.len() <= i32::MAX,
        ensures
            final(self).wf(),
            (final(self)@, r@) == old(self)@.following(
                current,
                workspace,
                monitor,
                monitors@,
                cursor_position,
            ),
    {
        let plan: WorkspaceSwitchPlan = self.show_workspace(monitor, workspace);
        let hidden: Vec<WindowHandle> = self.hidden_on(&plan.hide, Some(current), monitor, monitors);
        let show: Vec<WorkspaceVisibilityChange> = self.shown_on(&plan.show, monitor, monitors);
        self.foreground = Some(current);
        let moves: Vec<TileAssignment> = self.tile_assignments(monitors, cursor_position);
        CommandPlan { focus: Some(current), hide: hidden, show, moves, reload: false, quit: false }
    }

    fn leave_window(
        &mut self,
        current: WindowHandle,
        was_visible: bool,
        monitor: Option<MonitorId>,
        monitors: &[MonitorInfo],
        cursor_position: Option<Point>,
    ) -> (r: CommandPlan)
        requires
            old(self).wf(),
            old(self).tile_order.len() <= i32::MAX,
        ensures
            final(self).wf(),
            (final(self)@, r@) == old(self)@.leaving(
                current,
                was_visible,
                monitor,
                monitors@,
                cursor_position,
            ),
    {
        let mut hidden: Vec<WindowHandle> = Vec::new();
        if was_visible && !self.is_window_visible_on_owned_monitor(current, monitors) {
            if self.should_hide_for_workspace(current, monitors) {
                hidden.push(current);
            }
        }
        let focus: Option<WindowHandle> = match monitor {
            Some(monitor) => self.focus_candidate_for_monitor(monitor, monitors),
            None => None,
        };
        self.foreground = focus;
        let moves: Vec<TileAssignment> = self.tile_assignments(monitors, cursor_position);
        let plan: CommandPlan = CommandPlan {
            focus,
            hide: hidden,
            show: Vec::new(),
            moves,
            reload: false,
            quit: false,
        };
        proof {
            let expected = old(self)@.leaving(
                current,
                was_visible,
                monitor,
                monitors@,
                cursor_position,
            );
            assert(plan@.hide =~= expected.1.hide);
            assert(plan@.show =~= expected.1.show);
        }
        plan
    }

    /// Where a window goes when it is moved to a monitor.
    pub fn translated_window_rect(
        &self,
        window: WindowHandle,
        source_monitor: Option<MonitorId>,
        target_monitor: MonitorId,
        monitors: &[MonitorInfo],
    ) -> (r: Option<Rect>)
        requires
            self.wf(),
        ensures
            r == self@.translated_rect(window, source_monitor, target_monitor, monitors@),
    {
        match self.windows.get(window.0) {
            None => None,
            Some(info) => match find_monitor(monitors, target_monitor) {
                None => None,
                Some(target) => {
                    let source: Option<MonitorInfo> = match source_monitor {
                        Some(source) => find_monitor(monitors, source),
                        None => None,
                    };
                    match source {
                        Some(source) => Some(
                            translate_rect_to_monitor(info.rect, Some(&source), &target),
                        ),
                        None => Some(translate_rect_to_monitor(info.rect, None, &target)),
                    }
                },
            },
        }
    }

    /// Moves the focused window to a monitor.
    pub fn move_focused_to_monitor(
        &mut self,
        selector: MonitorSelector,
        monitors: &[MonitorInfo],
        cursor_position: Option<Point>,
    ) -> (r: CommandPlan)
        requires
            old(self).wf(),
            old(self).tile_order.len() <= i32::MAX,
        ensures
            final(self).wf(),
            (final(self)@, r@) == old(self)@.moving_to_monitor(selector, monitors@, cursor_position),
    {
        proof {
            reveal(DaemonView::moving_to_monitor);
        }
        let current: WindowHandle = match self.movable_foreground_window(monitors) {
            Some(window) => window,
            None => {
                return CommandPlan::default();
            },
        };
        let target: MonitorId = match self.resolve_monitor_selector(selector, monitors) {
            Some(monitor) => monitor,
            None => {
                return CommandPlan::default();
            },
        };
        let workspace: WorkspaceId = self.workspaces.active_workspace_for_monitor(target);
        let source: Option<MonitorId> = self.window_owner_monitor(current, monitors);
        self.note_window_rect(current);
        self.workspaces.move_window_to_workspace(current, workspace);
        self.window_monitor_overrides.insert(current.0, target);
        self.workspaces.focus_monitor(target);
        self.foreground = Some(current);
        let mut moves: Vec<TileAssignment> = self.tile_assignments(monitors, cursor_position);
        if self.window_participation(current).is_floating() {
            if let Some(rect) = self.translated_window_rect(current, source, target, monitors) {
                moves.push(TileAssignment { window: current, rect });
            }
        }
        CommandPlan {
            focus: Some(current),
            hide: Vec::new(),
            show: Vec::new(),
            moves,
            reload: false,
            quit: false,
        }
    }

    fn windows_to_send(&self, workspace: WorkspaceId, monitors: &[MonitorInfo]) -> (r: Vec<WindowHandle>)
        requires
            self.wf(),
        ensures
            r@ == ordered_handles(self@.workspaces.windows).filter(self@.is_sent(workspace, monitors@)),
    {
        let ghost keep = self@.is_sent(workspace, monitors@);
        let all: Vec<WindowHandle> = self.workspaces.tracked_windows();
        let mut kept: Vec<WindowHandle> = Vec::new();
        let mut index: usize = 0;
        proof {
            lemma_filter_ends(all@, keep);
        }
        while index < all.len()
            invariant
                index <= all.len(),
                self.wf(),
                keep == self@.is_sent(workspace, monitors@),
                kept@ == all@.take(index as int).filter(keep),
            decreases all.len() - index,
        {
            proof {
                lemma_filter_step(all@, index as int, keep);
            }
            let window: WindowHandle = all[index];
            if let Some(state) = self.workspaces.window_state(window) {
                if state.workspace == workspace && self.is_safe_to_move_window(window, monitors) {
                    kept.push(window);
                }
            }
            index = index + 1;
        }
        proof {
            lemma_filter_ends(all@, keep);
        }
        kept
    }

    fn moves_of_floating(
        &self,
        windows: &[WindowHandle],
        target: MonitorId,
        monitors: &[MonitorInfo],
    ) -> (r: Vec<TileAssignment>)
        requires
            self.wf(),
        ensures
            r@ == self@.floating_moves(windows@, target, monitors@),
    {
        let mut moves: Vec<TileAssignment> = Vec::new();
        let mut index: usize = 0;
        while index < windows.len()
            invariant
                index <= windows.len(),
                self.wf(),
                moves@ == self@.floating_moves(windows@.take(index as int), target, monitors@),
            decreases windows.len() - index,
        {
            proof {
                assert(windows@.take(index + 1).drop_last() =~= windows@.take(index as int));
                assert(windows@.take(index + 1).last() == windows@[index as int]);
            }
            let window: WindowHandle = windows[index];
            if self.window_participation(window).is_floating() {
                let source: Option<MonitorId> = self.window_owner_monitor(window, monitors);
                if let Some(rect) = self.translated_window_rect(window, source, target, monitors) {
                    moves.push(TileAssignment { window, rect });
                }
            }
            index = index + 1;
        }
        proof {
            assert(windows@.take(index as int) =~= windows@);
        }
        moves
    }

    fn put_windows_on(&mut self, windows: &[WindowHandle], target: MonitorId)
        requires
            old(self).wf(),
        ensures
            final(self).wf(),
            final(self)@ == old(self)@.with_windows_on(windows@, target),
            final(self).tile_order@ == old(self).tile_order@,
    {
        let mut index: usize = 0;
        proof {
            assert(windows@.take(0) =~= Seq::empty());
        }
        while index < windows.len()
            invariant
                index <= windows.len(),
                self.wf(),
                self@ == old(self)@.with_windows_on(windows@.take(index as int), target),
                self.tile_order@ == old(self).tile_order@,
            decreases windows.len() - index,
        {
            proof {
                assert(windows@.take(index + 1).drop_last() =~= windows@.take(index as int));
                assert(windows@.take(index + 1).last() == windows@[index as int]);
            }
            self.window_monitor_overrides.insert(windows[index].0, target);
            index = index + 1;
        }
        proof {
            assert(windows@.take(index as int) =~= windows@);
        }
    }

    fn add_changes_for(
        &self,
        changes: Vec<WorkspaceVisibilityChange>,
        windows: &[WindowHandle],
    ) -> (r: Vec<WorkspaceVisibilityChange>)
        requires
            self.wf(),
        ensures
            r@ == self@.with_changes_for(changes@, windows@),
    {
        let mut all: Vec<WorkspaceVisibilityChange> = changes;
        let mut index: usize = 0;
        proof {
            assert(windows@.take(0) =~= Seq::empty());
        }
        while index < windows.len()
            invariant
                index <= windows.len(),
                self.wf(),
                all@ == self@.with_changes_for(changes@, windows@.take(index as int)),
            decreases windows.len() - index,
        {
            proof {
                assert(windows@.take(index + 1).drop_last() =~= windows@.take(index as int));
                assert(windows@.take(index + 1).last() == windows@[index as int]);
            }
            if !has_change_for(&all, windows[index]) {
                all.push(self.change_for(windows[index]));
            }
            index = index + 1;
        }
        proof {
            assert(windows@.take(index as int) =~= windows@);
        }
        all
    }

    /// Sends a workspace to a monitor.
    pub fn send_workspace_to_monitor(
        &mut self,
        workspace: WorkspaceId,
        selector: MonitorSelector,
        monitors: &[MonitorInfo],
        cursor_position: Option<Point>,
    ) -> (r: CommandPlan)
        requires
            old(self).wf(),
            old(self).tile_order.len() <= i32::MAX,
        ensures
            final(self).wf(),
            (final(self)@, r@) == old(self)@.sending(workspace, selector, monitors@, cursor_position),
    {
        proof {
            reveal(DaemonView::sending);
        }
        let target: MonitorId = match self.resolve_monitor_selector(selector, monitors) {
            Some(monitor) => monitor,
            None => {
                return CommandPlan::default();
            },
        };
        let windows: Vec<WindowHandle> = self.windows_to_send(workspace, monitors);
        let mut floating: Vec<TileAssignment> = self.moves_of_floating(&windows, target, monitors);
        self.put_windows_on(&windows, target);
        let plan: WorkspaceSwitchPlan = self.show_workspace(Some(target), workspace);
        let hidden: Vec<WindowHandle> = self.hidden_on(&plan.hide, None, Some(target), monitors);
        let kept: Vec<WorkspaceVisibilityChange> = self.shown_on(&plan.show, Some(target), monitors);
        let shown: Vec<WorkspaceVisibilityChange> = self.add_changes_for(kept, &windows);
        let focus: Option<WindowHandle> = self.focus_candidate_for_monitor(target, monitors);
        self.foreground = focus;
        let mut moves: Vec<TileAssignment> = self.tile_assignments(monitors, cursor_position);
        moves.append(&mut floating);
        CommandPlan { focus, hide: hidden, show: shown, moves, reload: false, quit: false }
    }

    /// Where a command goes: programs are started and settings reloaded whatever the state; while a
    /// game pauses the layouts, the commands that touch windows are ignored.
    pub fn command_route(&self, command: &DaemonCommand) -> (r: CommandRoute)
        ensures
            r == (match *command {
                DaemonCommand::Launch(_) => CommandRoute::Launch,
                DaemonCommand::Reload => CommandRoute::Reload,
                _ => if self@.game_mode.pauses_layouts() && !command.leaves_windows_alone() {
                    CommandRoute::Ignore
                } else {
                    CommandRoute::Plan
                },
            }),
    {
        match command {
            DaemonCommand::Launch(_) => CommandRoute::Launch,
            DaemonCommand::Reload => CommandRoute::Reload,
            _ => if self.game_mode.pauses_layouts() && command.is_suppressed_by_game_mode() {
                CommandRoute::Ignore
            } else {
                CommandRoute::Plan
            },
        }
    }

    fn plan_retile(&mut self, monitors: &[MonitorInfo], cursor_position: Option<Point>) -> (r: CommandPlan)
        requires
            old(self).wf(),
            old(self).tile_order.len() <= i32::MAX,
        ensures
            final(self).wf(),
            (final(self)@, r@) == old(self)@.retiling(monitors@, cursor_position),
    {
        let mut plan: CommandPlan = CommandPlan::default();
        plan.moves = self.tile_assignments(monitors, cursor_position);
        plan
    }

    /// Carries a command out, as far as the state goes, and says what is to be done.
    pub fn plan_command(
        &mut self,
        command: &DaemonCommand,
        monitors: &[MonitorInfo],
        cursor_position: Option<Point>,
    ) -> (r: CommandPlan)
        requires
            old(self).wf(),
            old(self).tile_order.len() <= i32::MAX,
        ensures
            final(self).wf(),
            (final(self)@, r@) == old(self)@.commanded(*command, monitors@, cursor_position),
    {
        let mut plan: CommandPlan = CommandPlan::default();
        match command {
            DaemonCommand::Focus(direction) => {
                let focus: Option<WindowHandle> = self.focus_target(*direction, monitors);
                if let Some(target) = focus {
                    self.foreground = Some(target);
                    self.focus_monitor_for_window(target, monitors);
                }
                plan.focus = focus;
                plan
            },
            DaemonCommand::FocusMonitor(selector) => {
                plan.focus = self.focus_monitor_command(*selector, monitors);
                plan
            },
            DaemonCommand::Swap(direction) => {
                self.swap_focused_with(*direction, monitors);
                self.plan_retile(monitors, cursor_position)
            },
            DaemonCommand::Retile => self.plan_retile(monitors, cursor_position),
            DaemonCommand::ToggleFloat => {
                self.toggle_focused_float(monitors);
                self.plan_retile(monitors, cursor_position)
            },
            DaemonCommand::SwitchWorkspace(workspace) => {
                self.plan_switch(*workspace, monitors, cursor_position)
            },
            DaemonCommand::SwitchWorkspaceRelative(direction) => {
                proof {
                    lemma_synced_keeps(self@, monitors@);
                }
                self.sync_workspace_state(monitors);
                let reference: Option<MonitorId> = match self.dragged_window_monitor(monitors) {
                    Some(monitor) => Some(monitor),
                    None => self.command_monitor(monitors),
                };
                let workspace: WorkspaceId = self.relative_workspace_for_monitor(
                    *direction,
                    reference,
                );
                self.plan_switch(workspace, monitors, cursor_position)
            },
            DaemonCommand::MoveFocusedToWorkspace(workspace) => {
                self.move_focused_to_workspace(*workspace, false, monitors, cursor_position)
            },
            DaemonCommand::MoveFocusedToWorkspaceAndFollow(workspace) => {
                self.move_focused_to_workspace(*workspace, true, monitors, cursor_position)
            },
            DaemonCommand::MoveFocusedToMonitor(selector) => {
                self.move_focused_to_monitor(*selector, monitors, cursor_position)
            },
            DaemonCommand::SendWorkspaceToMonitor { workspace, monitor } => {
                self.send_workspace_to_monitor(*workspace, *monitor, monitors, cursor_position)
            },
            DaemonCommand::Quit => {
                plan.quit = true;
                plan
            },
            DaemonCommand::Reload => {
                plan.reload = true;
                plan
            },
            DaemonCommand::Launch(_) => plan,
        }
    }
}

} // verus!
