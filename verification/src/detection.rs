//! Finding out whether a window is fullscreen, and whether it is a game.

use vstd::prelude::*;

use crate::daemon_state::{DaemonState, DaemonView};
use crate::game_mode::{
    game_mode_executable_is_ignored, game_mode_executable_matches, is_configured_game, is_no_game,
    DetectionView, FullscreenArea, FullscreenDetection, GameModeDetection, GameModeReason, ReasonView,
};
use crate::geometry::{MonitorInfo, Rect};
use crate::handles::{first_kept, lemma_first_kept, lemma_first_kept_step};
use crate::monitors::{fills, fills_area, fills_some_monitor};
use crate::path_name::{file_name, process_name};
use crate::rules::{
    decided, evaluate_window_rules, WindowRule, WindowRuleDecision, WindowRuleMode,
};
use crate::runtime_config::GameModePolicy;
use crate::window::WindowInfo;

verus! {

/// The monitors that a rectangle fills.
pub open spec fn is_filled(rect: Rect, tolerance: int) -> spec_fn(MonitorInfo) -> bool {
    |monitor: MonitorInfo| fills(rect, monitor.rect, tolerance)
}

/// The monitors whose work area a rectangle fills.
pub open spec fn has_filled_work_area(rect: Rect, tolerance: int) -> spec_fn(MonitorInfo) -> bool {
    |monitor: MonitorInfo| fills(rect, monitor.work_area, tolerance)
}

/// What a rectangle takes of which monitor: the first that it fills, or else the first whose work area it
/// fills.
pub open spec fn taken(rect: Rect, monitors: Seq<MonitorInfo>, tolerance: int) -> FullscreenDetection {
    match first_kept(monitors, is_filled(rect, tolerance)) {
        Some(monitor) => FullscreenDetection {
            is_fullscreen: true,
            monitor: Some(monitor.id),
            area: Some(FullscreenArea::MonitorBounds),
        },
        None => match first_kept(monitors, has_filled_work_area(rect, tolerance)) {
            Some(monitor) => FullscreenDetection {
                is_fullscreen: true,
                monitor: Some(monitor.id),
                area: Some(FullscreenArea::WorkArea),
            },
            None => FullscreenDetection { is_fullscreen: false, monitor: None, area: None },
        },
    }
}

/// Finds out what a window takes of which monitor.
pub fn detect_fullscreen_window(window: &WindowInfo, monitors: &[MonitorInfo], tolerance_px: i32) -> (r:
    FullscreenDetection)
    ensures
        r == taken(window.rect, monitors@, tolerance_px as int),
{
    let ghost bounds = is_filled(window.rect, tolerance_px as int);
    let ghost areas = has_filled_work_area(window.rect, tolerance_px as int);
    let mut filled: Option<MonitorInfo> = None;
    let mut filled_area: Option<MonitorInfo> = None;
    let mut index: usize = 0;
    while index < monitors.len()
        invariant
            index <= monitors.len(),
            bounds == is_filled(window.rect, tolerance_px as int),
            areas == has_filled_work_area(window.rect, tolerance_px as int),
            filled == first_kept(monitors@.take(index as int), bounds),
            filled_area == first_kept(monitors@.take(index as int), areas),
        decreases monitors.len() - index,
    {
        let monitor: MonitorInfo = monitors[index];
        proof {
            lemma_first_kept_step(monitors@, index as int, bounds);
            lemma_first_kept_step(monitors@, index as int, areas);
        }
        if filled.is_none() && fills_area(window.rect, monitor.rect, tolerance_px) {
            filled = Some(monitor);
        }
        if filled_area.is_none() && fills_area(window.rect, monitor.work_area, tolerance_px) {
            filled_area = Some(monitor);
        }
        index = index + 1;
    }
    proof {
        assert(monitors@.take(index as int) =~= monitors@);
    }
    match filled {
        Some(monitor) => FullscreenDetection {
            is_fullscreen: true,
            monitor: Some(monitor.id),
            area: Some(FullscreenArea::MonitorBounds),
        },
        None => match filled_area {
            Some(monitor) => FullscreenDetection {
                is_fullscreen: true,
                monitor: Some(monitor.id),
                area: Some(FullscreenArea::WorkArea),
            },
            None => FullscreenDetection { is_fullscreen: false, monitor: None, area: None },
        },
    }
}

/// A window is found to be fullscreen exactly when it fills a monitor or its work area.
pub proof fn fullscreen_is_filling(rect: Rect, monitors: Seq<MonitorInfo>, tolerance: int)
    ensures
        taken(rect, monitors, tolerance).is_fullscreen == fills_some_monitor(rect, monitors, tolerance),
{
    lemma_first_kept(monitors, is_filled(rect, tolerance));
    lemma_first_kept(monitors, has_filled_work_area(rect, tolerance));
}

/// Whether a special treatment makes a window a game.
pub open spec fn is_game_mode(mode: Option<WindowRuleMode>) -> bool {
    mode == Some(WindowRuleMode::Game) || mode == Some(WindowRuleMode::Fullscreen)
}

/// The name of the executable of a window, if it is one of the games.
pub open spec fn game_executable(window: WindowInfo, policy: GameModePolicy) -> Option<Seq<char>> {
    if is_configured_game(window, policy) {
        file_name(window.executable_path.unwrap()@)
    } else {
        None
    }
}

/// Why a window is a game, if it is one: its executable, or else a rule, or else that it is fullscreen.
/// No window is one where game mode is off or the executable never is one.
pub open spec fn found_reason(
    window: WindowInfo,
    monitors: Seq<MonitorInfo>,
    rules: Seq<WindowRule>,
    policy: GameModePolicy,
) -> Option<ReasonView> {
    let decision = decided(window, rules);
    let fullscreen = taken(window.rect, monitors, policy.fullscreen_tolerance_px as int);
    if !policy.enabled || is_no_game(window, policy) {
        None
    } else if is_configured_game(window, policy) {
        Some(ReasonView::ConfiguredExecutable(game_executable(window, policy).unwrap()))
    } else if is_game_mode(decision.mode) {
        Some(
            ReasonView::WindowRule {
                mode: decision.mode.unwrap(),
                matched_rules: decision.matched_rules,
            },
        )
    } else if policy.pause_on_fullscreen && fullscreen.is_fullscreen {
        Some(
            ReasonView::Fullscreen {
                monitor: fullscreen.monitor.unwrap(),
                area: fullscreen.area.unwrap(),
            },
        )
    } else {
        None
    }
}

/// What is found out about a window.
pub open spec fn found_out(
    window: Option<WindowInfo>,
    monitors: Seq<MonitorInfo>,
    rules: Seq<WindowRule>,
    policy: GameModePolicy,
) -> DetectionView {
    match window {
        None => DetectionView {
            active: false,
            reason: None,
            fullscreen: FullscreenDetection { is_fullscreen: false, monitor: None, area: None },
            matched_executable: None,
            matched_rules: Seq::empty(),
        },
        Some(window) => DetectionView {
            active: found_reason(window, monitors, rules, policy) is Some,
            reason: found_reason(window, monitors, rules, policy),
            fullscreen: taken(window.rect, monitors, policy.fullscreen_tolerance_px as int),
            matched_executable: game_executable(window, policy),
            matched_rules: if is_game_mode(decided(window, rules).mode) {
                decided(window, rules).matched_rules
            } else {
                Seq::empty()
            },
        },
    }
}

fn copy_texts(texts: &[String]) -> (r: Vec<String>)
    ensures
        r@.map_values(|text: String| text@) == texts@.map_values(|text: String| text@),
{
    let mut copies: Vec<String> = Vec::new();
    let mut index: usize = 0;
    while index < texts.len()
        invariant
            index <= texts.len(),
            copies.len() == index,
            forall|i: int| 0 <= i < index ==> (#[trigger] copies@[i])@ == texts@[i]@,
        decreases texts.len() - index,
    {
        copies.push(texts[index].clone());
        index = index + 1;
    }
    proof {
        assert(copies@.map_values(|text: String| text@) =~= texts@.map_values(|text: String| text@));
    }
    copies
}

/// Finds out whether a window is a game.
pub fn detect_game_mode(
    window: Option<&WindowInfo>,
    monitors: &[MonitorInfo],
    rules: &[WindowRule],
    policy: &GameModePolicy,
) -> (r: GameModeDetection)
    ensures
        r@ == found_out(
            match window {
                Some(window) => Some(*window),
                None => None,
            },
            monitors@,
            rules@,
            *policy,
        ),
{
    let window: &WindowInfo = match window {
        Some(window) => window,
        None => {
            let none: Vec<String> = Vec::new();
            proof {
                assert(none@.map_values(|name: String| name@) =~= Seq::empty());
            }
            return GameModeDetection {
                active: false,
                reason: None,
                fullscreen: FullscreenDetection { is_fullscreen: false, monitor: None, area: None },
                matched_executable: None,
                matched_rules: none,
            };
        },
    };
    let fullscreen: FullscreenDetection = detect_fullscreen_window(
        window,
        monitors,
        policy.fullscreen_tolerance_px,
    );
    let decision: WindowRuleDecision = evaluate_window_rules(window, rules);
    let executable: Option<String> = if game_mode_executable_matches(window, policy) {
        match &window.executable_path {
            Some(path) => process_name(path),
            None => None,
        }
    } else {
        None
    };
    let by_rule: Option<WindowRuleMode> = match decision.mode {
        Some(WindowRuleMode::Game) => Some(WindowRuleMode::Game),
        Some(WindowRuleMode::Fullscreen) => Some(WindowRuleMode::Fullscreen),
        _ => None,
    };
    let reason: Option<GameModeReason> = if !policy.enabled || game_mode_executable_is_ignored(
        window,
        policy,
    ) {
        None
    } else {
        match (&executable, by_rule) {
            (Some(exe), _) => Some(GameModeReason::ConfiguredExecutable(exe.clone())),
            (None, Some(mode)) => Some(
                GameModeReason::WindowRule {
                    mode,
                    matched_rules: copy_texts(&decision.matched_rules),
                },
            ),
            (None, None) => match (fullscreen.monitor, fullscreen.area) {
                (Some(monitor), Some(area)) => if policy.pause_on_fullscreen {
                    Some(GameModeReason::Fullscreen { monitor, area })
                } else {
                    None
                },
                _ => None,
            },
        }
    };
    let matched_rules: Vec<String> = if by_rule.is_some() {
        copy_texts(&decision.matched_rules)
    } else {
        let none: Vec<String> = Vec::new();
        proof {
            assert(none@.map_values(|name: String| name@) =~= Seq::empty());
        }
        none
    };
    GameModeDetection {
        active: reason.is_some(),
        reason,
        fullscreen,
        matched_executable: executable,
        matched_rules,
    }
}

impl DaemonState {
    /// Finds out whether the window with the focus is a game.
    pub fn current_game_mode_detection(&self, monitors: &[MonitorInfo]) -> (r: GameModeDetection)
        requires
            self.wf(),
        ensures
            r@ == self@.detected(monitors@),
    {
        let focused: Option<&WindowInfo> = match self.foreground {
            Some(window) => self.windows.get(window.0),
            None => None,
        };
        detect_game_mode(
            focused,
            monitors,
            &self.config.window_rules,
            &self.config.game_mode.policy,
        )
    }
}

impl DaemonView {
    /// What is known of the window with the focus.
    pub open spec fn focused_info(self) -> Option<WindowInfo> {
        if self.foreground is Some && self.windows.contains_key(self.foreground.unwrap().0) {
            Some(self.windows[self.foreground.unwrap().0])
        } else {
            None
        }
    }

    /// What is found out about the window with the focus.
    pub open spec fn detected(self, monitors: Seq<MonitorInfo>) -> DetectionView {
        found_out(
            self.focused_info(),
            monitors,
            self.config.window_rules@,
            self.config.game_mode.policy,
        )
    }
}

/// Where fullscreen windows are games, game mode is on while a window that fills a monitor has the focus,
/// unless its executable never is a game.
pub proof fn focused_fullscreen_window_is_a_game(state: DaemonView, monitors: Seq<MonitorInfo>)
    requires
        state.focused_info() is Some,
        state.fullscreen(state.focused_info().unwrap(), monitors),
        state.config.game_mode.policy.enabled,
        state.config.game_mode.policy.pause_on_fullscreen,
        !is_no_game(state.focused_info().unwrap(), state.config.game_mode.policy),
    ensures
        state.with_game_mode(monitors).game_mode.active is Some,
        state.game_mode.active is None ==> state.game_transition(monitors).activated,
{
    crate::daemon_sync::lemma_synced_keeps(state, monitors);
    let window = state.focused_info().unwrap();
    fullscreen_is_filling(
        window.rect,
        monitors,
        state.config.game_mode.policy.fullscreen_tolerance_px as int,
    );
}

/// Where game mode is off, or the window with the focus has an executable that never is a game, no game
/// begins.
pub proof fn no_game_begins_where_none_may(state: DaemonView, monitors: Seq<MonitorInfo>)
    requires
        !state.config.game_mode.policy.enabled || (state.focused_info() is Some && is_no_game(
            state.focused_info().unwrap(),
            state.config.game_mode.policy,
        )),
    ensures
        !state.game_transition(monitors).activated,
{
    crate::daemon_sync::lemma_synced_keeps(state, monitors);
}

} // verus!
