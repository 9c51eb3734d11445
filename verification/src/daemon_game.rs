//! When game mode begins and ends.

use vstd::prelude::*;

use crate::daemon_state::{DaemonState, DaemonView};
use crate::daemon_sync::lemma_synced_keeps;
use crate::game_mode::{
    ActivationView, DetectionView, GameModeActions, GameModeActivation, GameModeDetection,
    GameModeReason, GameModeTransition, GameModeView, GAME_MODE_FULLSCREEN_DEACTIVATE_CONFIRMATIONS,
};
use crate::geometry::{MonitorId, MonitorInfo, WindowHandle};
use crate::monitors::{monitor_for_rect, monitor_of_rect};
use crate::rules::text_view;

verus! {

impl DaemonView {
    /// The game that has the focus, if the focused window was found to be one.
    pub open spec fn activation_of(self, detection: DetectionView, monitors: Seq<MonitorInfo>) -> Option<
        ActivationView,
    > {
        if !detection.active || self.foreground is None || !self.windows.contains_key(
            self.foreground.unwrap().0,
        ) || detection.reason is None {
            None
        } else {
            let window = self.foreground.unwrap();
            let info = self.windows[window.0];
            Some(
                ActivationView {
                    window,
                    title: info.title@,
                    executable_path: text_view(info.executable_path),
                    monitor: if detection.fullscreen.monitor is Some {
                        detection.fullscreen.monitor
                    } else {
                        monitor_of_rect(info.rect, monitors)
                    },
                    reason: detection.reason.unwrap(),
                    actions: GameModeActions {
                        pause_layouts: self.config.game_mode.pause_all_layouts_when_game_focused,
                        pause_focused_monitor_only: self.config.game_mode.pause_focused_monitor_only,
                        hide_borders: self.config.game_mode.disable_borders,
                        disable_animations: self.config.game_mode.disable_animations,
                        disable_keyboard_hooks: self.config.game_mode.disable_keyboard_hooks,
                    },
                    fullscreen: detection.fullscreen,
                },
            )
        }
    }

    /// The game that has the focus, if the focused window is one.
    pub open spec fn activation(self, monitors: Seq<MonitorInfo>) -> Option<ActivationView> {
        self.activation_of(self.detected(monitors), monitors)
    }

    /// Whether the end of game mode has to be confirmed: the game still has the focus and counted as
    /// one because it was fullscreen.
    pub open spec fn confirms_end(self, active: ActivationView) -> bool {
        self.foreground == Some(active.window) && active.reason is Fullscreen
    }

    /// Whether game mode goes on for now although no game was found.
    pub open spec fn holds_on(self) -> bool {
        &&& self.game_mode.active matches Some(active)
        &&& self.confirms_end(active)
        &&& self.game_mode.misses + 1 < GAME_MODE_FULLSCREEN_DEACTIVATE_CONFIRMATIONS
    }

    /// Game mode after it was looked whether the focused window is a game.
    pub open spec fn next_game_mode(self, monitors: Seq<MonitorInfo>) -> GameModeView {
        let found = self.activation(monitors);
        if found is None && self.holds_on() {
            GameModeView {
                active: self.game_mode.active,
                misses: (self.game_mode.misses + 1) as u8,
            }
        } else {
            GameModeView { active: found, misses: 0 }
        }
    }

    /// The state after the windows were brought in line and it was looked whether the focused one is a
    /// game.
    pub open spec fn with_game_mode(self, monitors: Seq<MonitorInfo>) -> DaemonView {
        let synced = self.synced(monitors);
        DaemonView { game_mode: synced.next_game_mode(monitors), ..synced }
    }

    /// Whether game mode begins or ends.
    pub open spec fn game_transition(self, monitors: Seq<MonitorInfo>) -> GameModeTransition {
        let after = self.with_game_mode(monitors);
        GameModeTransition {
            activated: self.game_mode.active is None && after.game_mode.active is Some,
            deactivated: self.game_mode.active is Some && after.game_mode.active is None,
        }
    }
}

impl DaemonState {
    /// The game that has the focus, if the focused window was found to be one.
    pub fn activation_from_detection(&self, detection: GameModeDetection, monitors: &[MonitorInfo]) -> (r: Option<
        GameModeActivation,
    >)
        requires
            self.wf(),
        ensures
            (match r {
                Some(active) => Some(active@),
                None => None,
            }) == self@.activation_of(detection@, monitors@),
    {
        if !detection.active {
            return None;
        }
        let window: WindowHandle = match self.foreground {
            Some(window) => window,
            None => {
                return None;
            },
        };
        let info = match self.windows.get(window.0) {
            Some(info) => info,
            None => {
                return None;
            },
        };
        let reason: GameModeReason = match detection.reason {
            Some(reason) => reason,
            None => {
                return None;
            },
        };
        let monitor: Option<MonitorId> = match detection.fullscreen.monitor {
            Some(monitor) => Some(monitor),
            None => monitor_for_rect(info.rect, monitors),
        };
        let actions: GameModeActions = GameModeActions {
            pause_layouts: self.config.game_mode.pause_all_layouts_when_game_focused,
            pause_focused_monitor_only: self.config.game_mode.pause_focused_monitor_only,
            hide_borders: self.config.game_mode.disable_borders,
            disable_animations: self.config.game_mode.disable_animations,
            disable_keyboard_hooks: self.config.game_mode.disable_keyboard_hooks,
        };
        Some(
            GameModeActivation {
                window,
                title: info.title.clone(),
                executable_path: match &info.executable_path {
                    Some(path) => Some(path.clone()),
                    None => None,
                },
                monitor,
                reason,
                actions,
                fullscreen: detection.fullscreen,
            },
        )
    }

    /// Whether the end of game mode has to be confirmed.
    pub fn should_confirm_fullscreen_game_mode_deactivation(&self, active: &GameModeActivation) -> (r: bool)
        ensures
            r == self@.confirms_end(active@),
    {
        let focused: bool = match self.foreground {
            Some(window) => window == active.window,
            None => false,
        };
        focused && matches!(active.reason, GameModeReason::Fullscreen { .. })
    }

    /// Brings the windows in line and finds out whether the focused one is a game; says
    /// whether game mode begins or ends.
    pub fn update_game_mode(&mut self, monitors: &[MonitorInfo]) -> (r: GameModeTransition)
        requires
            old(self).wf(),
        ensures
            final(self).wf(),
            final(self)@ == old(self)@.with_game_mode(monitors@),
            r == old(self)@.game_transition(monitors@),
            final(self).tile_order@ == old(self).tile_order@,
    {
        let ghost before = self@;
        self.sync_workspace_state(monitors);
        proof {
            lemma_synced_keeps(before, monitors@);
        }
        let ghost synced = self@;
        let detection: GameModeDetection = self.current_game_mode_detection(monitors);
        let mut next: Option<GameModeActivation> = self.activation_from_detection(
            detection,
            monitors,
        );
        let was_active: bool = self.game_mode.active.is_some();
        let mut misses: u8 = 0;
        if next.is_none() {
            let holds_on: bool = match &self.game_mode.active {
                Some(active) => self.should_confirm_fullscreen_game_mode_deactivation(active)
                    && self.game_mode.fullscreen_deactivate_misses
                    < GAME_MODE_FULLSCREEN_DEACTIVATE_CONFIRMATIONS - 1,
                None => false,
            };
            if holds_on {
                misses = self.game_mode.fullscreen_deactivate_misses + 1;
                next = self.game_mode.active.take();
            }
        }
        let transition: GameModeTransition = GameModeTransition {
            activated: !was_active && next.is_some(),
            deactivated: was_active && next.is_none(),
        };
        self.game_mode.active = next;
        self.game_mode.fullscreen_deactivate_misses = misses;
        proof {
            assert(self@.game_mode == synced.next_game_mode(monitors@));
        }
        transition
    }
}

/// A fullscreen game that keeps the focus and is missed once still counts: nothing begins or ends. If
/// it is missed again, game mode ends.
pub proof fn fullscreen_game_ends_on_second_miss(
    state: DaemonView,
    first: Seq<MonitorInfo>,
    second: Seq<MonitorInfo>,
)
    requires
        state.game_mode.active is Some,
        state.confirms_end(state.game_mode.active.unwrap()),
        state.game_mode.misses == 0,
        !state.detected(first).active,
        !state.with_game_mode(first).detected(second).active,
    ensures
        ({
            let once = state.with_game_mode(first);
            &&& once.game_mode.active == state.game_mode.active
            &&& !state.game_transition(first).activated
            &&& !state.game_transition(first).deactivated
            &&& once.with_game_mode(second).game_mode.active is None
            &&& once.game_transition(second).deactivated
        }),
{
    lemma_synced_keeps(state, first);
    lemma_synced_keeps(state.with_game_mode(first), second);
}

/// A game that no longer has the focus ends at once when no other game is found.
pub proof fn game_without_focus_ends_at_once(state: DaemonView, monitors: Seq<MonitorInfo>)
    requires
        state.game_mode.active is Some,
        state.foreground != Some(state.game_mode.active.unwrap().window),
        !state.detected(monitors).active,
    ensures
        state.with_game_mode(monitors).game_mode.active is None,
        state.game_transition(monitors).deactivated,
{
    lemma_synced_keeps(state, monitors);
}

/// A game that is found again starts its misses anew.
pub proof fn found_game_starts_anew(state: DaemonView, monitors: Seq<MonitorInfo>)
    requires
        state.detected(monitors).active,
    ensures
        state.with_game_mode(monitors).game_mode.active is Some,
        state.with_game_mode(monitors).game_mode.misses == 0,
        !state.game_transition(monitors).deactivated,
{
    lemma_synced_keeps(state, monitors);
}

} // verus!
