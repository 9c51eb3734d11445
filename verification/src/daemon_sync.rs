//! Bringing the workspaces in line with the windows and the monitors that are there.

use vstd::prelude::*;

use crate::daemon_state::{DaemonState, DaemonView};
use crate::geometry::{MonitorId, MonitorInfo, Rect, WindowHandle};
use crate::handles::{handles_of, ordered_handles};
use crate::layout::WindowParticipation;
use crate::monitors::{monitor_for_rect, monitor_ids, monitor_of_rect};
use crate::rules::WindowRuleDecision;
use crate::workspace::{WorkspaceId, WorkspaceView, WorkspaceWindowState};

verus! {

impl DaemonView {
    /// The workspaces after a rectangle of a tracked window was seen.
    pub open spec fn with_last_rect(self, window: WindowHandle, rect: Rect) -> DaemonView {
        if self.workspaces.windows.contains_key(window.0) {
            DaemonView {
                workspaces: self.workspaces.with_window(
                    window,
                    WorkspaceWindowState {
                        last_rect: Some(rect),
                        ..self.workspaces.windows[window.0]
                    },
                ),
                ..self
            }
        } else {
            self
        }
    }

    /// The state after it was noted on which monitor a window is: a visible window is put on the
    /// monitor of its rectangle; one that is on no monitor yet is put on that too.
    pub open spec fn with_owner_noted(self, window: WindowHandle, monitors: Seq<MonitorInfo>) -> DaemonView {
        let info = self.windows[window.0];
        let of_rect = monitor_of_rect(info.rect, monitors);
        let seen = if info.is_visible && of_rect is Some {
            DaemonView { overrides: self.overrides.insert(window.0, of_rect.unwrap()), ..self }
        } else {
            self
        };
        let owner = seen.owner_or_rect_monitor(window, monitors);
        if owner is Some && !seen.overrides.contains_key(window.0) {
            DaemonView { overrides: seen.overrides.insert(window.0, owner.unwrap()), ..seen }
        } else {
            seen
        }
    }

    /// The monitor that a window belongs to, or else the one of its rectangle.
    pub open spec fn owner_or_rect_monitor(self, window: WindowHandle, monitors: Seq<MonitorInfo>) -> Option<
        MonitorId,
    > {
        if self.owner(window, monitors) is Some {
            self.owner(window, monitors)
        } else {
            monitor_of_rect(self.windows[window.0].rect, monitors)
        }
    }

    /// Whether a visible window is not on the monitor that it belonged to any more.
    pub open spec fn changes_owner(self, window: WindowHandle, monitors: Seq<MonitorInfo>) -> bool {
        let info = self.windows[window.0];
        let of_rect = monitor_of_rect(info.rect, monitors);
        info.is_visible && of_rect is Some && self.owner(window, monitors) != of_rect
    }

    /// The state after a new window was put on a workspace: the one that a rule names, or else the
    /// one that the window's monitor shows, or else the active one.
    pub open spec fn tracking_new(
        self,
        window: WindowHandle,
        target: Option<WorkspaceId>,
        owner: Option<MonitorId>,
    ) -> DaemonView {
        let rect = self.windows[window.0].rect;
        DaemonView {
            workspaces: match target {
                Some(workspace) => self.workspaces.tracking(window, workspace, rect),
                None => match owner {
                    Some(monitor) => self.workspaces.tracking(
                        window,
                        self.workspaces.active_on(monitor),
                        rect,
                    ),
                    None => self.workspaces.tracking(window, self.workspaces.active, rect),
                },
            },
            ..self
        }
    }

    /// The state after a window was kept visible on every workspace, if it is tracked.
    pub open spec fn with_everywhere(self, window: WindowHandle, everywhere: bool) -> DaemonView {
        if self.workspaces.windows.contains_key(window.0) {
            DaemonView {
                workspaces: self.workspaces.with_window(
                    window,
                    WorkspaceWindowState {
                        visible_on_all_workspaces: everywhere,
                        ..self.workspaces.windows[window.0]
                    },
                ),
                ..self
            }
        } else {
            self
        }
    }

    /// The state after one window was brought in line.
    pub open spec fn with_window_synced(self, window: WindowHandle, monitors: Seq<MonitorInfo>) -> DaemonView {
        let info = self.windows[window.0];
        let noted = self.with_owner_noted(window, monitors);
        let owner = noted.owner_or_rect_monitor(window, monitors);
        if noted.workspaces.windows.contains_key(window.0) {
            if self.managed_when_hidden(info) {
                let updated = noted.with_last_rect(window, info.rect);
                if self.changes_owner(window, monitors) && owner is Some && !updated.on_monitor(
                    window,
                    owner.unwrap(),
                ) {
                    DaemonView {
                        workspaces: updated.workspaces.moving(
                            window,
                            updated.workspaces.active_on(owner.unwrap()),
                        ),
                        ..updated
                    }
                } else {
                    updated
                }
            } else {
                noted
            }
        } else if self.managed(info) && !self.fullscreen(info, monitors) {
            let noticed = noted.tracking_new(window, self.decision(info).target_workspace, owner);
            let floated = if self.decision(info).float == Some(true) {
                noticed.with_participation(window, WindowParticipation::Floating)
            } else {
                noticed
            };
            if self.decision(info).always_on_workspace == Some(true) {
                floated.with_everywhere(window, true)
            } else {
                floated
            }
        } else {
            noted
        }
    }

    /// The state after the first windows of a list were brought in line.
    pub open spec fn with_windows_synced(
        self,
        windows: Seq<WindowHandle>,
        monitors: Seq<MonitorInfo>,
    ) -> DaemonView
        decreases windows.len(),
    {
        if windows.len() == 0 {
            self
        } else {
            self.with_windows_synced(windows.drop_last(), monitors).with_window_synced(
                windows.last(),
                monitors,
            )
        }
    }

    /// The state after the monitors were noted, the one of the foreground window got the focus, and
    /// windows that are gone were forgotten.
    pub open spec fn with_monitors_synced(self, monitors: Seq<MonitorInfo>) -> DaemonView {
        let synced = DaemonView {
            workspaces: self.workspaces.synced(monitor_ids(monitors)),
            ..self
        };
        let focused = match self.foreground {
            Some(window) => synced.focusing_monitor_of(window, monitors),
            None => synced,
        };
        DaemonView {
            workspaces: WorkspaceView {
                windows: focused.workspaces.windows.restrict(self.windows.dom()),
                ..focused.workspaces
            },
            ..focused
        }
    }

    /// The state after the workspaces were brought in line with the windows and monitors, the windows
    /// being taken in ascending order of their handles.
    pub open spec fn synced(self, monitors: Seq<MonitorInfo>) -> DaemonView {
        self.with_monitors_synced(monitors).with_windows_synced(
            ordered_handles(self.windows),
            monitors,
        )
    }
}

/// The identifiers of monitors, in their order.
pub fn ids_of(monitors: &[MonitorInfo]) -> (r: Vec<MonitorId>)
    ensures
        r@ == monitor_ids(monitors@),
{
    let mut ids: Vec<MonitorId> = Vec::new();
    let mut index: usize = 0;
    while index < monitors.len()
        invariant
            index <= monitors.len(),
            ids.len() == index,
            forall|i: int| 0 <= i < index ==> #[trigger] ids[i] == monitors@[i].id,
        decreases monitors.len() - index,
    {
        ids.push(monitors[index].id);
        index = index + 1;
    }
    proof {
        assert(ids@ =~= monitor_ids(monitors@));
    }
    ids
}

impl DaemonState {
    /// Puts a new window on a workspace.
    pub fn track_new_window(
        &mut self,
        window: WindowHandle,
        rect: Rect,
        target: Option<WorkspaceId>,
        owner: Option<MonitorId>,
    )
        requires
            old(self).wf(),
            rect == old(self)@.windows[window.0].rect,
        ensures
            final(self).wf(),
            final(self)@ == old(self)@.tracking_new(window, target, owner),
    {
        match target {
            Some(workspace) => {
                self.workspaces.track_window_on_workspace(window, workspace, rect);
            },
            None => match owner {
                Some(monitor) => {
                    let workspace: WorkspaceId = self.workspaces.active_workspace_for_monitor(
                        monitor,
                    );
                    self.workspaces.track_window_on_workspace(window, workspace, rect);
                },
                None => {
                    self.workspaces.track_window(window, rect);
                },
            },
        }
    }

    /// Brings one window in line.
    pub fn sync_window(&mut self, handle: WindowHandle, monitors: &[MonitorInfo])
        requires
            old(self).wf(),
            old(self)@.windows.contains_key(handle.0),
        ensures
            final(self).wf(),
            final(self)@ == old(self)@.with_window_synced(handle, monitors@),
    {
        let (rect, is_visible, managed, managed_hidden, fullscreen, target, float, everywhere): (
            Rect,
            bool,
            bool,
            bool,
            bool,
            Option<WorkspaceId>,
            bool,
            bool,
        ) = match self.windows.get(handle.0) {
            Some(window) => {
                let decision: WindowRuleDecision = self.rule_decision(window);
                (
                    window.rect,
                    window.is_visible,
                    self.is_manageable_by_rules(window, &decision),
                    self.is_workspace_manageable_by_rules(window, &decision),
                    self.is_fullscreen_window(window, monitors),
                    decision.target_workspace,
                    match decision.float {
                        Some(float) => float,
                        None => false,
                    },
                    match decision.always_on_workspace {
                        Some(everywhere) => everywhere,
                        None => false,
                    },
                )
            },
            None => {
                return ;
            },
        };
        let previous_owner: Option<MonitorId> = self.window_owner_monitor(handle, monitors);
        let rect_monitor: Option<MonitorId> = monitor_for_rect(rect, monitors);
        let owner_changed: bool = is_visible && (match (rect_monitor, previous_owner) {
            (Some(of_rect), Some(previous)) => of_rect != previous,
            (Some(_), None) => true,
            (None, _) => false,
        });
        if is_visible {
            if let Some(monitor) = rect_monitor {
                self.window_monitor_overrides.insert(handle.0, monitor);
            }
        }
        let owner: Option<MonitorId> = match self.window_owner_monitor(handle, monitors) {
            Some(monitor) => Some(monitor),
            None => rect_monitor,
        };
        if let Some(monitor) = owner {
            if !self.window_monitor_overrides.contains_key(handle.0) {
                self.window_monitor_overrides.insert(handle.0, monitor);
            }
        }
        let ghost noted = old(self)@.with_owner_noted(handle, monitors@);
        proof {
            assert(self@ == noted);
            lemma_owner_is_noted(old(self)@, handle, monitors@);
        }
        if self.workspaces.window_state(handle).is_some() {
            if managed_hidden {
                self.workspaces.update_window_rect(handle, rect);
                if owner_changed {
                    if let Some(monitor) = owner {
                        if !self.workspaces.is_window_on_monitor_workspace(handle, monitor) {
                            let workspace: WorkspaceId = self.workspaces.active_workspace_for_monitor(
                                monitor,
                            );
                            self.workspaces.move_window_to_workspace(handle, workspace);
                        }
                    }
                }
            }
        } else if managed && !fullscreen {
            self.track_new_window(handle, rect, target, owner);
            if float {
                self.set_window_participation(handle, WindowParticipation::Floating);
            }
            if everywhere {
                self.workspaces.set_visible_on_all_workspaces(handle, true);
            }
        }
    }

    /// Brings the workspaces in line with the windows and the monitors.
    pub fn sync_workspace_state(&mut self, monitors: &[MonitorInfo])
        requires
            old(self).wf(),
        ensures
            final(self).wf(),
            final(self)@ == old(self)@.synced(monitors@),
    {
        let ids: Vec<MonitorId> = ids_of(monitors);
        self.workspaces.sync_monitors(&ids);
        if let Some(window) = self.foreground {
            self.focus_monitor_for_window(window, monitors);
        }
        let existing: Vec<WindowHandle> = handles_of(&self.windows);
        let ghost focused = self@;
        self.workspaces.retain_windows(&existing);
        proof {
            let keep = Set::new(|key: u64| existing@.contains(WindowHandle(key)));
            assert(keep =~= self@.windows.dom());
            assert(self@ == old(self)@.with_monitors_synced(monitors@));
        }
        let ghost base = self@;
        let mut index: usize = 0;
        proof {
            assert(existing@.take(0) =~= Seq::empty());
        }
        while index < existing.len()
            invariant
                index <= existing.len(),
                self.wf(),
                self@ == base.with_windows_synced(existing@.take(index as int), monitors@),
                self@.windows == base.windows,
                forall|i: int|
                    0 <= i < existing.len() ==> base.windows.contains_key((#[trigger] existing@[i]).0),
            decreases existing.len() - index,
        {
            proof {
                assert(existing@.take(index + 1).drop_last() =~= existing@.take(index as int));
                assert(existing@.take(index + 1).last() == existing@[index as int]);
                lemma_sync_keeps_windows(self@, existing@[index as int], monitors@);
            }
            self.sync_window(existing[index], monitors);
            index = index + 1;
        }
        proof {
            assert(existing@.take(index as int) =~= existing@);
        }
    }
}

/// The owner of a window is the same before and after the last step of noting it.
proof fn lemma_owner_is_noted(state: DaemonView, window: WindowHandle, monitors: Seq<MonitorInfo>)
    requires
        state.windows.contains_key(window.0),
    ensures
        ({
            let info = state.windows[window.0];
            let of_rect = monitor_of_rect(info.rect, monitors);
            let seen = if info.is_visible && of_rect is Some {
                DaemonView { overrides: state.overrides.insert(window.0, of_rect.unwrap()), ..state }
            } else {
                state
            };
            state.with_owner_noted(window, monitors).owner_or_rect_monitor(window, monitors)
                == seen.owner_or_rect_monitor(window, monitors)
        }),
{
    crate::monitors::every_rect_has_a_monitor(state.windows[window.0].rect, monitors);
    crate::monitors::every_rect_has_a_monitor(state.layout_rect(window), monitors);
}

/// Bringing a window in line leaves the windows, the foreground, the tiles' order and the settings
/// alone.
pub proof fn lemma_sync_keeps_windows(state: DaemonView, window: WindowHandle, monitors: Seq<MonitorInfo>)
    ensures
        ({
            let after = state.with_window_synced(window, monitors);
            &&& after.windows == state.windows
            &&& after.size_constraints == state.size_constraints
            &&& after.foreground == state.foreground
            &&& after.tile_order == state.tile_order
            &&& after.config == state.config
            &&& after.game_mode == state.game_mode
            &&& after.learned == state.learned
            &&& after.dwindle_splits == state.dwindle_splits
            &&& after.modifier_drag == state.modifier_drag
            &&& after.interactive_drag == state.interactive_drag
            &&& after.suppressed == state.suppressed
            &&& after.previous_rects == state.previous_rects
            &&& after.perf == state.perf
            &&& after.config_path == state.config_path
            &&& after.config_version == state.config_version
            &&& after.config_loaded_at_unix_ms == state.config_loaded_at_unix_ms
        }),
{
}

/// Bringing windows in line leaves the windows, the foreground, the tiles' order, the settings and the
/// drags alone.
pub proof fn lemma_windows_synced_keeps(
    state: DaemonView,
    windows: Seq<WindowHandle>,
    monitors: Seq<MonitorInfo>,
)
    ensures
        ({
            let after = state.with_windows_synced(windows, monitors);
            &&& after.windows == state.windows
            &&& after.size_constraints == state.size_constraints
            &&& after.foreground == state.foreground
            &&& after.tile_order == state.tile_order
            &&& after.config == state.config
            &&& after.game_mode == state.game_mode
            &&& after.learned == state.learned
            &&& after.dwindle_splits == state.dwindle_splits
            &&& after.modifier_drag == state.modifier_drag
            &&& after.interactive_drag == state.interactive_drag
            &&& after.suppressed == state.suppressed
            &&& after.previous_rects == state.previous_rects
            &&& after.perf == state.perf
            &&& after.config_path == state.config_path
            &&& after.config_version == state.config_version
            &&& after.config_loaded_at_unix_ms == state.config_loaded_at_unix_ms
        }),
    decreases windows.len(),
{
    if windows.len() > 0 {
        lemma_windows_synced_keeps(state, windows.drop_last(), monitors);
        lemma_sync_keeps_windows(
            state.with_windows_synced(windows.drop_last(), monitors),
            windows.last(),
            monitors,
        );
    }
}

/// Bringing the workspaces in line leaves the windows, the foreground, the tiles' order, the settings
/// and the drags alone.
pub proof fn lemma_synced_keeps(state: DaemonView, monitors: Seq<MonitorInfo>)
    ensures
        ({
            let after = state.synced(monitors);
            &&& after.windows == state.windows
            &&& after.size_constraints == state.size_constraints
            &&& after.foreground == state.foreground
            &&& after.tile_order == state.tile_order
            &&& after.config == state.config
            &&& after.game_mode == state.game_mode
            &&& after.learned == state.learned
            &&& after.dwindle_splits == state.dwindle_splits
            &&& after.modifier_drag == state.modifier_drag
            &&& after.interactive_drag == state.interactive_drag
            &&& after.suppressed == state.suppressed
            &&& after.previous_rects == state.previous_rects
            &&& after.perf == state.perf
            &&& after.config_path == state.config_path
            &&& after.config_version == state.config_version
            &&& after.config_loaded_at_unix_ms == state.config_loaded_at_unix_ms
        }),
{
    lemma_windows_synced_keeps(
        state.with_monitors_synced(monitors),
        ordered_handles(state.windows),
        monitors,
    );
}

} // verus!
