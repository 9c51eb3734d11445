//! Stepping aside while a game has the focus.

use vstd::prelude::*;

use crate::geometry::{MonitorId, WindowHandle};
use crate::numeral::handle_text;
use crate::path_name::{file_name, process_name};
use crate::rules::{text_view, WindowRuleMode};
use crate::runtime_config::GameModePolicy;
use crate::text::{chars_of, lowercase, same_chars};
use crate::window::WindowInfo;

verus! {

/// What of a monitor a window takes.
#[derive(Debug, Clone, Copy, PartialEq, Eq, Structural)]
pub enum FullscreenArea {
    MonitorBounds,
    WorkArea,
}

/// Whether a window takes a whole monitor, which one, and what of it.
#[derive(Debug, Clone, Copy, PartialEq, Eq, Structural)]
pub struct FullscreenDetection {
    pub is_fullscreen: bool,
    pub monitor: Option<MonitorId>,
    pub area: Option<FullscreenArea>,
}

/// Why a window counts as a game.
#[derive(Debug, Clone, PartialEq, Eq)]
pub enum GameModeReason {
    ConfiguredExecutable(String),
    WindowRule { mode: WindowRuleMode, matched_rules: Vec<String> },
    Fullscreen { monitor: MonitorId, area: FullscreenArea },
}

/// Whether the focused window is a game, and why: the executable and the rules that matched.
#[derive(Debug, Clone, PartialEq, Eq)]
pub struct GameModeDetection {
    pub active: bool,
    pub reason: Option<GameModeReason>,
    pub fullscreen: FullscreenDetection,
    pub matched_executable: Option<String>,
    pub matched_rules: Vec<String>,
}

/// What is done while a game has the focus.
#[derive(Debug, Clone, Copy, PartialEq, Eq, Structural)]
pub struct GameModeActions {
    pub pause_layouts: bool,
    pub pause_focused_monitor_only: bool,
    pub hide_borders: bool,
    pub disable_animations: bool,
    pub disable_keyboard_hooks: bool,
}

impl Default for GameModeActions {
    fn default() -> (r: Self)
        ensures
            r == (GameModeActions {
                pause_layouts: false,
                pause_focused_monitor_only: false,
                hide_borders: false,
                disable_animations: false,
                disable_keyboard_hooks: false,
            }),
    {
        GameModeActions {
            pause_layouts: false,
            pause_focused_monitor_only: false,
            hide_borders: false,
            disable_animations: false,
            disable_keyboard_hooks: false,
        }
    }
}

/// The game that has the focus.
#[derive(Debug, Clone, PartialEq, Eq)]
pub struct GameModeActivation {
    pub window: WindowHandle,
    pub title: String,
    pub executable_path: Option<String>,
    pub monitor: Option<MonitorId>,
    pub reason: GameModeReason,
    pub actions: GameModeActions,
    pub fullscreen: FullscreenDetection,
}

/// Whether game mode began or ended.
#[derive(Debug, Clone, Copy, PartialEq, Eq, Structural)]
pub struct GameModeTransition {
    pub activated: bool,
    pub deactivated: bool,
}

/// The game that has the focus, if one has, and how often in a row it was not found to be fullscreen
/// any more.
#[derive(Debug, Clone, PartialEq, Eq)]
pub struct GameModeRuntimeState {
    pub active: Option<GameModeActivation>,
    pub fullscreen_deactivate_misses: u8,
}

impl Default for GameModeRuntimeState {
    fn default() -> (r: Self)
        ensures
            r.active is None,
            r.fullscreen_deactivate_misses == 0,
    {
        GameModeRuntimeState { active: None, fullscreen_deactivate_misses: 0 }
    }
}

/// How often a fullscreen game has to be missed before game mode ends.
pub const GAME_MODE_FULLSCREEN_DEACTIVATE_CONFIRMATIONS: u8 = 2;

/// Why a window counts as a game, as a value.
pub ghost enum ReasonView {
    ConfiguredExecutable(Seq<char>),
    WindowRule { mode: WindowRuleMode, matched_rules: Seq<Seq<char>> },
    Fullscreen { monitor: MonitorId, area: FullscreenArea },
}

/// What is found out about a window, as a value.
pub ghost struct DetectionView {
    pub active: bool,
    pub reason: Option<ReasonView>,
    pub fullscreen: FullscreenDetection,
    pub matched_executable: Option<Seq<char>>,
    pub matched_rules: Seq<Seq<char>>,
}

impl View for GameModeReason {
    type V = ReasonView;

    open spec fn view(&self) -> ReasonView {
        match *self {
            GameModeReason::ConfiguredExecutable(exe) => ReasonView::ConfiguredExecutable(exe@),
            GameModeReason::WindowRule { mode, matched_rules } => ReasonView::WindowRule {
                mode,
                matched_rules: matched_rules@.map_values(|name: String| name@),
            },
            GameModeReason::Fullscreen { monitor, area } => ReasonView::Fullscreen { monitor, area },
        }
    }
}

impl View for GameModeDetection {
    type V = DetectionView;

    open spec fn view(&self) -> DetectionView {
        DetectionView {
            active: self.active,
            reason: match self.reason {
                Some(reason) => Some(reason@),
                None => None,
            },
            fullscreen: self.fullscreen,
            matched_executable: text_view(self.matched_executable),
            matched_rules: self.matched_rules@.map_values(|name: String| name@),
        }
    }
}

/// A game as a value.
pub ghost struct ActivationView {
    pub window: WindowHandle,
    pub title: Seq<char>,
    pub executable_path: Option<Seq<char>>,
    pub monitor: Option<MonitorId>,
    pub reason: ReasonView,
    pub actions: GameModeActions,
    pub fullscreen: FullscreenDetection,
}

/// Game mode as a value.
pub ghost struct GameModeView {
    pub active: Option<ActivationView>,
    pub misses: u8,
}

impl View for GameModeActivation {
    type V = ActivationView;

    open spec fn view(&self) -> ActivationView {
        ActivationView {
            window: self.window,
            title: self.title@,
            executable_path: text_view(self.executable_path),
            monitor: self.monitor,
            reason: self.reason@,
            actions: self.actions,
            fullscreen: self.fullscreen,
        }
    }
}

impl View for GameModeRuntimeState {
    type V = GameModeView;

    open spec fn view(&self) -> GameModeView {
        GameModeView {
            active: match self.active {
                Some(active) => Some(active@),
                None => None,
            },
            misses: self.fullscreen_deactivate_misses,
        }
    }
}

impl GameModeView {
    /// Whether no window is tiled.
    pub open spec fn pauses_layouts(self) -> bool {
        self.active matches Some(active) && active.actions.pause_layouts && (
        !active.actions.pause_focused_monitor_only || active.monitor is None)
    }

    /// Whether no window is tiled on the monitor.
    pub open spec fn pauses_monitor(self, monitor: MonitorId) -> bool {
        self.active matches Some(active) && active.actions.pause_layouts
            && active.actions.pause_focused_monitor_only && active.monitor == Some(monitor)
    }

    /// Whether no border is drawn.
    pub open spec fn hides_borders(self) -> bool {
        self.active matches Some(active) && active.actions.hide_borders
    }

    /// Whether keyboard and mouse hooks let everything pass.
    pub open spec fn pauses_hooks(self) -> bool {
        self.active matches Some(active) && active.actions.disable_keyboard_hooks
    }
}

impl GameModeRuntimeState {
    /// Whether no window is tiled.
    pub fn pauses_layouts(&self) -> (r: bool)
        ensures
            r == self@.pauses_layouts(),
    {
        match &self.active {
            Some(active) => active.actions.pause_layouts && (
            !active.actions.pause_focused_monitor_only || active.monitor.is_none()),
            None => false,
        }
    }

    /// Whether no window is tiled on the monitor.
    pub fn pauses_monitor(&self, monitor: MonitorId) -> (r: bool)
        ensures
            r == self@.pauses_monitor(monitor),
    {
        match &self.active {
            Some(active) => active.actions.pause_layouts && active.actions.pause_focused_monitor_only
                && (match active.monitor {
                Some(on) => on == monitor,
                None => false,
            }),
            None => false,
        }
    }

    /// Whether no border is drawn.
    pub fn hides_borders(&self) -> (r: bool)
        ensures
            r == self@.hides_borders(),
    {
        match &self.active {
            Some(active) => active.actions.hide_borders,
            None => false,
        }
    }

    /// Whether keyboard and mouse hooks let everything pass.
    pub fn pauses_hooks(&self) -> (r: bool)
        ensures
            r == self@.pauses_hooks(),
    {
        match &self.active {
            Some(active) => active.actions.disable_keyboard_hooks,
            None => false,
        }
    }
}

/// Which layouts a game pauses.
pub open spec fn pause_scope(active: ActivationView) -> Seq<char> {
    if !active.actions.pause_layouts {
        "none"@
    } else if active.actions.pause_focused_monitor_only && active.monitor is Some {
        "focused-monitor"@
    } else {
        "global"@
    }
}

/// Which layouts a game pauses.
pub fn game_mode_layout_pause_scope_for(active: &GameModeActivation) -> (r: &'static str)
    ensures
        r@ == pause_scope(active@),
{
    if !active.actions.pause_layouts {
        "none"
    } else if active.actions.pause_focused_monitor_only && active.monitor.is_some() {
        "focused-monitor"
    } else {
        "global"
    }
}

/// The name of a special treatment.
pub open spec fn mode_name(mode: WindowRuleMode) -> Seq<char> {
    match mode {
        WindowRuleMode::Ignore => "Ignore"@,
        WindowRuleMode::Game => "Game"@,
        WindowRuleMode::Fullscreen => "Fullscreen"@,
    }
}

/// The name of what a window takes of a monitor.
pub open spec fn area_name(area: FullscreenArea) -> Seq<char> {
    match area {
        FullscreenArea::MonitorBounds => "MonitorBounds"@,
        FullscreenArea::WorkArea => "WorkArea"@,
    }
}

/// Texts put together with a separator between them.
pub open spec fn joined(texts: Seq<String>, separator: Seq<char>) -> Seq<char>
    decreases texts.len(),
{
    if texts.len() == 0 {
        Seq::empty()
    } else if texts.len() == 1 {
        texts[0]@
    } else {
        joined(texts.drop_last(), separator) + separator + texts.last()@
    }
}

/// Puts texts together with a separator between them.
pub fn join_texts(texts: &[String], separator: &str) -> (r: String)
    ensures
        r@ == joined(texts@, separator@),
{
    let mut text: String = String::new();
    let mut index: usize = 0;
    while index < texts.len()
        invariant
            index <= texts.len(),
            text@ == joined(texts@.take(index as int), separator@),
        decreases texts.len() - index,
    {
        proof {
            assert(texts@.take(index + 1).drop_last() =~= texts@.take(index as int));
            assert(texts@.take(index + 1).last() == texts@[index as int]);
        }
        let ghost before = text@;
        if index > 0 {
            text.push_str(separator);
        }
        text.push_str(&texts[index]);
        proof {
            if index == 0 {
                assert(text@ =~= texts@[0]@);
            }
        }
        index = index + 1;
    }
    proof {
        assert(texts@.take(index as int) =~= texts@);
    }
    text
}

/// Why a window counts as a game, as text.
pub open spec fn reason_text(reason: GameModeReason) -> Seq<char> {
    match reason {
        GameModeReason::ConfiguredExecutable(exe) => "configured executable "@ + exe@,
        GameModeReason::WindowRule { mode, matched_rules } => "window rule mode "@ + mode_name(mode)
            + " via "@ + joined(matched_rules@, ", "@),
        GameModeReason::Fullscreen { monitor, area } => "fullscreen "@ + area_name(area)
            + " on monitor "@ + handle_text(monitor.0),
    }
}

/// Why a window counts as a game, as text.
pub fn game_mode_reason_label(reason: &GameModeReason) -> (r: String)
    ensures
        r@ == reason_text(*reason),
{
    let mut text: String = String::new();
    match reason {
        GameModeReason::ConfiguredExecutable(exe) => {
            text.push_str("configured executable ");
            text.push_str(exe);
        },
        GameModeReason::WindowRule { mode, matched_rules } => {
            text.push_str("window rule mode ");
            text.push_str(
                match mode {
                    WindowRuleMode::Ignore => "Ignore",
                    WindowRuleMode::Game => "Game",
                    WindowRuleMode::Fullscreen => "Fullscreen",
                },
            );
            text.push_str(" via ");
            text.push_str(&join_texts(matched_rules, ", "));
        },
        GameModeReason::Fullscreen { monitor, area } => {
            text.push_str("fullscreen ");
            text.push_str(
                match area {
                    FullscreenArea::MonitorBounds => "MonitorBounds",
                    FullscreenArea::WorkArea => "WorkArea",
                },
            );
            text.push_str(" on monitor ");
            text.push_str(&monitor.to_text());
        },
    }
    proof {
        assert(text@ =~= reason_text(*reason));
    }
    text
}

/// Whether the window's executable has one of the names, without regard to case.
pub open spec fn has_executable_of(window: WindowInfo, names: Seq<String>) -> bool {
    window.executable_path matches Some(path) && file_name(path@) matches Some(name) && exists|i: int|
        0 <= i < names.len() && lowercase((#[trigger] names[i])@) == lowercase(name)
}

/// Whether the window's executable has one of the names, without regard to case.
fn is_executable_of(window: &WindowInfo, names: &[String]) -> (r: bool)
    ensures
        r == has_executable_of(*window, names@),
{
    match &window.executable_path {
        None => false,
        Some(path) => match process_name(path) {
            None => false,
            Some(name) => {
                let lowered: Vec<char> = chars_of(&name.to_lowercase());
                let mut index: usize = 0;
                while index < names.len()
                    invariant
                        index <= names.len(),
                        lowered@ == lowercase(name@),
                        window.executable_path == Some(*path),
                        file_name(path@) == Some(name@),
                        forall|i: int|
                            0 <= i < index ==> lowercase((#[trigger] names@[i])@) != lowercase(name@),
                    decreases names.len() - index,
                {
                    let exe: Vec<char> = chars_of(&names[index].to_lowercase());
                    if same_chars(&exe, &lowered) {
                        return true;
                    }
                    index = index + 1;
                }
                false
            },
        },
    }
}

/// Whether the window's executable is one of the games.
pub open spec fn is_configured_game(window: WindowInfo, policy: GameModePolicy) -> bool {
    has_executable_of(window, policy.game_exes@)
}

/// Whether the window's executable is one of the games.
pub fn game_mode_executable_matches(window: &WindowInfo, policy: &GameModePolicy) -> (r: bool)
    ensures
        r == is_configured_game(*window, *policy),
{
    is_executable_of(window, &policy.game_exes)
}

/// Whether the window's executable is one of those that never are games.
pub open spec fn is_no_game(window: WindowInfo, policy: GameModePolicy) -> bool {
    has_executable_of(window, policy.ignored_exes@)
}

/// Whether the window's executable is one of those that never are games.
pub fn game_mode_executable_is_ignored(window: &WindowInfo, policy: &GameModePolicy) -> (r: bool)
    ensures
        r == is_no_game(*window, *policy),
{
    is_executable_of(window, &policy.ignored_exes)
}

} // verus!
