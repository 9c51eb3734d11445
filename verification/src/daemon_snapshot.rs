//! What the daemon tells its clients of its state.

use vstd::prelude::*;

use crate::daemon_state::{DaemonPerformance, DaemonState, DaemonView};
use crate::geometry::{MonitorInfo, WindowHandle};
use crate::handles::{handles_of, lemma_filter_ends, lemma_filter_step, ordered_handles};
use crate::ipc::{
    DaemonPerformanceSnapshot, DaemonStateSnapshot, MonitorStateSnapshot, ReloadConfigReport,
    WindowParticipationSnapshot, WindowStateSnapshot,
};
use crate::layout::WindowParticipation;
use crate::rules::text_view;
use crate::size::WindowSizeConstraints;
use crate::window::WindowInfo;

verus! {

/// The number of milliseconds in a duration of seconds and nanoseconds, held within 64 bits.
pub open spec fn whole_millis(seconds: u64, nanos: u32) -> int {
    let millis = seconds * 1000 + nanos as int / 1_000_000;
    if millis > u64::MAX {
        u64::MAX as int
    } else {
        millis
    }
}

/// The number of milliseconds in a duration of seconds and nanoseconds, held within 64 bits.
pub fn saturating_duration_millis(seconds: u64, subsec_nanos: u32) -> (r: u64)
    ensures
        r == whole_millis(seconds, subsec_nanos),
{
    let millis: u128 = seconds as u128 * 1000 + (subsec_nanos / 1_000_000) as u128;
    if millis > u64::MAX as u128 {
        u64::MAX
    } else {
        millis as u64
    }
}

/// How a window takes part, as it is told to clients.
pub open spec fn told_participation(participation: WindowParticipation) -> WindowParticipationSnapshot {
    match participation {
        WindowParticipation::Tiled => WindowParticipationSnapshot::Tiled,
        WindowParticipation::Floating => WindowParticipationSnapshot::Floating,
        WindowParticipation::TemporarilyFloating => WindowParticipationSnapshot::TemporarilyFloating,
    }
}

impl DaemonPerformance {
    /// What is counted, as it is told to clients.
    pub open spec fn told(self, managed: usize, game_mode_active: bool) -> DaemonPerformanceSnapshot {
        DaemonPerformanceSnapshot {
            relayout_count: self.relayout_count,
            skipped_relayout_count: self.skipped_relayout_count,
            last_relayout_duration_ms: self.last_relayout_duration_ms,
            last_relayout_move_count: self.last_relayout_move_count,
            managed_window_count: managed,
            border_window_count: self.border_window_count,
            game_mode_active,
            config_reload_count: self.config_reload_count,
        }
    }

    /// What is counted, as it is told to clients.
    pub fn snapshot(&self, managed_window_count: usize, game_mode_active: bool) -> (r:
        DaemonPerformanceSnapshot)
        ensures
            r == self.told(managed_window_count, game_mode_active),
    {
        DaemonPerformanceSnapshot {
            relayout_count: self.relayout_count,
            skipped_relayout_count: self.skipped_relayout_count,
            last_relayout_duration_ms: self.last_relayout_duration_ms,
            last_relayout_move_count: self.last_relayout_move_count,
            managed_window_count,
            border_window_count: self.border_window_count,
            game_mode_active,
            config_reload_count: self.config_reload_count,
        }
    }
}

impl DaemonView {
    /// The windows that take part in a given way for themselves.
    pub open spec fn is_participating(self, participation: WindowParticipation) -> spec_fn(
        WindowHandle,
    ) -> bool {
        |window: WindowHandle| self.participation[window.0] == participation
    }

    /// How many windows take part in a given way for themselves.
    pub open spec fn participating(self, participation: WindowParticipation) -> nat {
        ordered_handles(self.participation).filter(self.is_participating(participation)).len()
    }

    /// What is told of a monitor.
    pub open spec fn told_monitor(self, monitor: MonitorInfo) -> MonitorStateSnapshot {
        MonitorStateSnapshot {
            monitor_id: monitor.id.0,
            workspace_id: self.workspaces.active_on(monitor.id).0,
            focused: self.workspaces.focused == Some(monitor.id),
        }
    }

    /// Whether this is what is told of a window.
    pub open spec fn tells_window(
        self,
        window: WindowHandle,
        monitors: Seq<MonitorInfo>,
        told: WindowStateSnapshot,
    ) -> bool {
        &&& told.handle == window.0
        &&& told.title@ == self.windows[window.0].title@
        &&& told.monitor_id == (match self.owner(window, monitors) {
            Some(monitor) => Some(monitor.0),
            None => None,
        })
        &&& told.workspace_id == if self.workspaces.windows.contains_key(window.0) {
            Some(self.workspaces.windows[window.0].workspace.0)
        } else {
            None
        }
        &&& told.focused == (self.foreground == Some(window))
        &&& told.is_minimized == self.windows[window.0].is_minimized
        &&& told.participation == told_participation(self.takes_part(window))
        &&& told.constrained == (self.limits(window) != WindowSizeConstraints::spec_none())
        &&& told.visible_on_active_workspace == self.visible(window, monitors)
    }

    /// Whether this is what is told of windows, one after the other.
    pub open spec fn tells_windows(
        self,
        windows: Seq<WindowHandle>,
        monitors: Seq<MonitorInfo>,
        told: Seq<WindowStateSnapshot>,
    ) -> bool {
        &&& told.len() == windows.len()
        &&& forall|i: int|
            0 <= i < told.len() ==> self.tells_window(windows[i], monitors, #[trigger] told[i])
    }

    /// Whether this is what is told of the state.
    pub open spec fn tells(self, monitors: Seq<MonitorInfo>, told: DaemonStateSnapshot) -> bool {
        &&& text_view(told.config_path) == text_view(self.config_path)
        &&& told.config_version == self.config_version
        &&& told.config_loaded_at_unix_ms == self.config_loaded_at_unix_ms
        &&& told.total_windows == ordered_handles(self.windows).len()
        &&& told.manageable_windows == self.managed_handles().len()
        &&& told.floating_windows == self.participating(WindowParticipation::Floating)
        &&& told.temporary_floating_windows == self.participating(
            WindowParticipation::TemporarilyFloating,
        )
        &&& told.active_workspace == self.workspaces.active.0
        &&& told.foreground_window == (match self.foreground {
            Some(window) => Some(window.0),
            None => None,
        })
        &&& told.monitors@ == monitors.map_values(|monitor: MonitorInfo| self.told_monitor(monitor))
        &&& self.tells_windows(ordered_handles(self.windows), monitors, told.windows@)
        &&& told.performance == self.perf.told(
            told.manageable_windows,
            self.game_mode.active is Some,
        )
    }
}

impl DaemonState {
    /// How many windows may be managed.
    pub fn manageable_window_count(&self) -> (r: usize)
        requires
            self.wf(),
        ensures
            r == self@.managed_handles().len(),
    {
        self.manageable_handles_sorted().len()
    }

    fn participation_count(&self, participation: WindowParticipation) -> (r: usize)
        requires
            self.wf(),
        ensures
            r == self@.participating(participation),
    {
        let handles: Vec<WindowHandle> = handles_of(&self.participation);
        let ghost keep = self@.is_participating(participation);
        let mut count: usize = 0;
        let mut index: usize = 0;
        proof {
            lemma_filter_ends(handles@, keep);
        }
        while index < handles.len()
            invariant
                index <= handles.len(),
                self.wf(),
                keep == self@.is_participating(participation),
                count == handles@.take(index as int).filter(keep).len(),
                count <= index,
                forall|i: int|
                    0 <= i < handles@.len() ==> self@.participation.contains_key(
                        (#[trigger] handles@[i]).0,
                    ),
            decreases handles.len() - index,
        {
            let handle: WindowHandle = handles[index];
            proof {
                lemma_filter_step(handles@, index as int, keep);
            }
            if let Some(held) = self.participation.get(handle.0) {
                if *held == participation {
                    count = count + 1;
                }
            }
            index = index + 1;
        }
        proof {
            lemma_filter_ends(handles@, keep);
        }
        count
    }

    /// How many windows float for good.
    pub fn floating_window_count(&self) -> (r: usize)
        requires
            self.wf(),
        ensures
            r == self@.participating(WindowParticipation::Floating),
    {
        self.participation_count(WindowParticipation::Floating)
    }

    /// How many windows float for a while.
    pub fn temporary_floating_window_count(&self) -> (r: usize)
        requires
            self.wf(),
        ensures
            r == self@.participating(WindowParticipation::TemporarilyFloating),
    {
        self.participation_count(WindowParticipation::TemporarilyFloating)
    }

    /// How a window takes part, as it is told to clients.
    pub fn window_snapshot_participation(&self, window: WindowHandle) -> (r:
        WindowParticipationSnapshot)
        requires
            self.wf(),
        ensures
            r == told_participation(self@.takes_part(window)),
    {
        match self.window_participation(window) {
            WindowParticipation::Tiled => WindowParticipationSnapshot::Tiled,
            WindowParticipation::Floating => WindowParticipationSnapshot::Floating,
            WindowParticipation::TemporarilyFloating => WindowParticipationSnapshot::TemporarilyFloating,
        }
    }

    /// What is told of the monitors.
    pub fn monitor_snapshots(&self, monitors: &[MonitorInfo]) -> (r: Vec<MonitorStateSnapshot>)
        requires
            self.wf(),
        ensures
            r@ == monitors@.map_values(|monitor: MonitorInfo| self@.told_monitor(monitor)),
    {
        let mut told: Vec<MonitorStateSnapshot> = Vec::new();
        let mut index: usize = 0;
        while index < monitors.len()
            invariant
                index <= monitors.len(),
                self.wf(),
                told.len() == index,
                forall|i: int|
                    0 <= i < index ==> #[trigger] told@[i] == self@.told_monitor(monitors@[i]),
            decreases monitors.len() - index,
        {
            let monitor: MonitorInfo = monitors[index];
            let focused: bool = match self.workspaces.focused_monitor() {
                Some(id) => id == monitor.id,
                None => false,
            };
            told.push(
                MonitorStateSnapshot {
                    monitor_id: monitor.id.0,
                    workspace_id: self.workspaces.active_workspace_for_monitor(monitor.id).0,
                    focused,
                },
            );
            index = index + 1;
        }
        proof {
            assert(told@ =~= monitors@.map_values(
                |monitor: MonitorInfo| self@.told_monitor(monitor),
            ));
        }
        told
    }

    fn window_snapshot(&self, handle: WindowHandle, window: &WindowInfo, monitors: &[MonitorInfo]) -> (r:
        WindowStateSnapshot)
        requires
            self.wf(),
            self@.windows.contains_key(handle.0),
            *window == self@.windows[handle.0],
        ensures
            self@.tells_window(handle, monitors@, r),
    {
        let focused: bool = match self.foreground {
            Some(foreground) => foreground == handle,
            None => false,
        };
        WindowStateSnapshot {
            handle: handle.0,
            title: window.title.clone(),
            monitor_id: match self.window_owner_monitor(handle, monitors) {
                Some(monitor) => Some(monitor.0),
                None => None,
            },
            workspace_id: match self.workspaces.window_state(handle) {
                Some(state) => Some(state.workspace.0),
                None => None,
            },
            focused,
            is_minimized: window.is_minimized,
            participation: self.window_snapshot_participation(handle),
            constrained: !self.window_limits(handle).is_unconstrained(),
            visible_on_active_workspace: self.is_window_visible_on_owned_monitor(handle, monitors),
        }
    }

    /// What is told of the windows, in ascending order of their handles.
    pub fn window_snapshots(&self, monitors: &[MonitorInfo]) -> (r: Vec<WindowStateSnapshot>)
        requires
            self.wf(),
        ensures
            self@.tells_windows(ordered_handles(self@.windows), monitors@, r@),
    {
        let handles: Vec<WindowHandle> = handles_of(&self.windows);
        let mut told: Vec<WindowStateSnapshot> = Vec::new();
        let mut index: usize = 0;
        while index < handles.len()
            invariant
                index <= handles.len(),
                self.wf(),
                told.len() == index,
                forall|i: int|
                    0 <= i < handles@.len() ==> self@.windows.contains_key((#[trigger] handles@[i]).0),
                forall|i: int|
                    0 <= i < told@.len() ==> self@.tells_window(
                        handles@[i],
                        monitors@,
                        #[trigger] told@[i],
                    ),
            decreases handles.len() - index,
        {
            let handle: WindowHandle = handles[index];
            proof {
                assert(self@.windows.contains_key(handles@[index as int].0));
            }
            if let Some(window) = self.windows.get(handle.0) {
                told.push(self.window_snapshot(handle, window, monitors));
            }
            index = index + 1;
        }
        told
    }

    /// What is told of the state.
    pub fn state_snapshot_with_monitors(&self, monitors: &[MonitorInfo]) -> (r: DaemonStateSnapshot)
        requires
            self.wf(),
        ensures
            self@.tells(monitors@, r),
    {
        let manageable_windows: usize = self.manageable_window_count();
        let total_windows: usize = handles_of(&self.windows).len();
        DaemonStateSnapshot {
            config_path: match &self.config_path {
                Some(path) => Some(path.clone()),
                None => None,
            },
            config_version: self.config_version,
            config_loaded_at_unix_ms: self.config_loaded_at_unix_ms,
            total_windows,
            manageable_windows,
            floating_windows: self.floating_window_count(),
            temporary_floating_windows: self.temporary_floating_window_count(),
            active_workspace: self.workspaces.active_workspace().0,
            foreground_window: match self.foreground {
                Some(window) => Some(window.0),
                None => None,
            },
            monitors: self.monitor_snapshots(monitors),
            windows: self.window_snapshots(monitors),
            performance: self.perf.snapshot(manageable_windows, self.game_mode.active.is_some()),
        }
    }

    /// What is told of a reload of the settings.
    pub fn reload_report(
        &self,
        changed_sections: Vec<String>,
        reloaded_at_unix_ms: u64,
        monitors: &[MonitorInfo],
    ) -> (r: ReloadConfigReport)
        requires
            self.wf(),
        ensures
            text_view(r.config_path) == text_view(self@.config_path),
            r.config_version == self@.config_version,
            r.reloaded_at_unix_ms == reloaded_at_unix_ms,
            r.changed_sections == changed_sections,
            self@.tells(monitors@, r.state),
    {
        ReloadConfigReport {
            config_path: match &self.config_path {
                Some(path) => Some(path.clone()),
                None => None,
            },
            config_version: self.config_version,
            reloaded_at_unix_ms,
            changed_sections,
            state: self.state_snapshot_with_monitors(monitors),
        }
    }
}

} // verus!
