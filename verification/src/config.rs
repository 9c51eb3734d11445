//! The settings as they stand in the settings file, what of them changed, and what the daemon makes of
//! them.

use vstd::prelude::*;

use crate::border::BorderColor;
use crate::commands::HotkeyBindingConfig;
use crate::hotkey::HotkeyBypassRules;
use crate::layout::{LayoutConfig, LayoutKind};
use crate::numeral::{decimal, numeral, signed_decimal, signed_numeral};
use crate::rules::{text_view, TextMatcher, WindowRule, WindowRuleAction, WindowRuleMatch};
use crate::runtime_config::{
    layout_per_monitor_from_config, layout_per_workspace_from_config, merge_layout_override,
    overridden_layout, parse_border_color, parsed_color, workspace_layouts, BorderColorError,
    GameModePolicy, LayoutOverride, OverflowFloatPersistence, OverflowFocusPolicy,
    RuntimeBorderConfig, RuntimeConfig, RuntimeGameModeConfig,
};
use crate::sorted_map::SortedMap;
use crate::table::{yes_no, yes_or_no};
use crate::text::same_text;

verus! {

/// How hotkeys are taken: from the desktop, or before it sees them.
#[derive(Debug, Clone, Copy, PartialEq, Eq, Structural)]
pub enum HotkeyMode {
    Normal,
    AdvancedInterception,
}

impl HotkeyMode {
    /// The name of what takes the hotkeys.
    pub open spec fn spec_name(self) -> Seq<char> {
        match self {
            HotkeyMode::Normal => "register-hotkey"@,
            HotkeyMode::AdvancedInterception => "advanced-interception"@,
        }
    }

    /// The name of what takes the hotkeys.
    pub fn name(&self) -> (r: &'static str)
        ensures
            r@ == self.spec_name(),
    {
        match self {
            HotkeyMode::Normal => "register-hotkey",
            HotkeyMode::AdvancedInterception => "advanced-interception",
        }
    }
}

/// General settings.
#[derive(Debug, Clone, PartialEq, Eq)]
pub struct GeneralConfig {
    pub log_level: String,
}

/// The windows that hotkeys are left to.
#[derive(Debug, Clone, PartialEq, Eq)]
pub struct HotkeyBypassConfig {
    pub fullscreen: bool,
    pub class: Vec<TextMatcher>,
    pub executable_path: Vec<TextMatcher>,
    pub process_name: Vec<TextMatcher>,
}

/// The settings of dragging windows with modifier keys.
#[derive(Debug, Clone, PartialEq, Eq)]
pub struct ModifierDragConfig {
    pub enabled: bool,
    pub modifiers: String,
}

/// The settings of hotkeys.
#[derive(Debug, Clone, PartialEq, Eq)]
pub struct HotkeysConfig {
    pub mode: HotkeyMode,
    pub bindings: Vec<HotkeyBindingConfig>,
    pub panic_hotkey: String,
    pub override_latency_budget_micros: u64,
    pub bypass: HotkeyBypassConfig,
    pub modifier_drag: ModifierDragConfig,
}

/// The settings of layouts; the keys of overrides are names of monitors and numbers of workspaces.
#[derive(Debug, Clone, PartialEq, Eq)]
pub struct LayoutSettings {
    pub default: String,
    pub gap: u16,
    pub border: u16,
    pub master_ratio_percent: u8,
    pub smart_split: bool,
    pub preserve_split: bool,
    pub per_monitor: Vec<(String, LayoutOverride)>,
    pub per_workspace: Vec<(String, LayoutOverride)>,
}

/// The settings of borders; colours are written as `#RRGGBB`.
#[derive(Debug, Clone, PartialEq, Eq)]
pub struct BordersConfig {
    pub enabled: bool,
    pub width: u16,
    pub active_color: String,
    pub inactive_color: String,
    pub floating_color: String,
    pub show_inactive: bool,
    pub disable_when_fullscreen: bool,
}

/// A rule in the settings.
#[derive(Debug, Clone, PartialEq, Eq)]
pub struct WindowRuleConfig {
    pub name: Option<String>,
    pub matcher: WindowRuleMatch,
    pub action: WindowRuleAction,
}

/// The settings of behaviour.
#[derive(Debug, Clone, Copy, PartialEq, Eq, Structural)]
pub struct BehaviorConfig {
    pub startup_retile: bool,
    pub dynamic_retile: bool,
    pub drag_to_float: bool,
    pub retile_on_drag_end: bool,
    pub overflow_focus_policy: OverflowFocusPolicy,
    pub overflow_float_persistence: OverflowFloatPersistence,
}

/// The settings of game mode.
#[derive(Debug, Clone, PartialEq, Eq)]
pub struct GameModeConfig {
    pub enabled: bool,
    pub pause_on_fullscreen: bool,
    pub fullscreen_tolerance_px: i32,
    pub game_exes: Vec<String>,
    pub ignored_exes: Vec<String>,
    pub pause_all_layouts_when_game_focused: bool,
    pub pause_focused_monitor_only: bool,
    pub disable_borders: bool,
    pub disable_animations: bool,
    pub disable_keyboard_hooks: bool,
}

/// The settings of workspaces.
#[derive(Debug, Clone, Copy, PartialEq, Eq, Structural)]
pub struct WorkspacesConfig {
    pub count: u16,
}

/// All settings.
#[derive(Debug, Clone, PartialEq, Eq)]
pub struct Config {
    pub general: GeneralConfig,
    pub hotkeys: HotkeysConfig,
    pub layout: LayoutSettings,
    pub borders: BordersConfig,
    pub window_rules: Vec<WindowRuleConfig>,
    pub behavior: BehaviorConfig,
    pub game_mode: GameModeConfig,
    pub workspaces: WorkspacesConfig,
}

impl Default for GeneralConfig {
    fn default() -> (r: Self)
        ensures
            r.log_level@ == "info"@,
    {
        GeneralConfig { log_level: "info".to_owned() }
    }
}

impl Default for Config {
    fn default() -> (r: Self)
        ensures
            r.general.log_level@ == "info"@,
            r.hotkeys.mode == HotkeyMode::Normal,
            r.hotkeys.bindings@.len() == 0,
            r.hotkeys.panic_hotkey@ == "Ctrl+Alt+Shift+Escape"@,
            r.hotkeys.override_latency_budget_micros == 1000,
            r.hotkeys.bypass.fullscreen,
            r.hotkeys.bypass.class@.len() == 0,
            r.hotkeys.bypass.executable_path@.len() == 0,
            r.hotkeys.bypass.process_name@.len() == 0,
            r.hotkeys.modifier_drag.enabled,
            r.hotkeys.modifier_drag.modifiers@ == "Win"@,
            r.layout.default@ == "master-stack"@,
            r.layout.gap == 0,
            r.layout.border == 0,
            r.layout.master_ratio_percent == 50,
            !r.layout.smart_split,
            !r.layout.preserve_split,
            r.layout.per_monitor@.len() == 0,
            r.layout.per_workspace@.len() == 0,
            !r.borders.enabled,
            r.borders.width == 2,
            r.borders.active_color@ == "#4C9AFF"@,
            r.borders.inactive_color@ == "#3A3A3A"@,
            r.borders.floating_color@ == "#B388FF"@,
            r.borders.show_inactive,
            r.borders.disable_when_fullscreen,
            r.window_rules@.len() == 0,
            r.behavior == (BehaviorConfig {
                startup_retile: true,
                dynamic_retile: true,
                drag_to_float: true,
                retile_on_drag_end: true,
                overflow_focus_policy: OverflowFocusPolicy::KeepFocused,
                overflow_float_persistence: OverflowFloatPersistence::StayFloating,
            }),
            r.game_mode.enabled,
            r.game_mode.pause_on_fullscreen,
            r.game_mode.fullscreen_tolerance_px == 2,
            r.game_mode.game_exes@.len() == 0,
            r.game_mode.ignored_exes@.len() == 0,
            r.game_mode.pause_all_layouts_when_game_focused,
            !r.game_mode.pause_focused_monitor_only,
            r.game_mode.disable_borders,
            r.game_mode.disable_animations,
            r.game_mode.disable_keyboard_hooks,
            r.workspaces.count == 9,
    {
        Config {
            general: GeneralConfig::default(),
            hotkeys: HotkeysConfig {
                mode: HotkeyMode::Normal,
                bindings: Vec::new(),
                panic_hotkey: "Ctrl+Alt+Shift+Escape".to_owned(),
                override_latency_budget_micros: 1000,
                bypass: HotkeyBypassConfig {
                    fullscreen: true,
                    class: Vec::new(),
                    executable_path: Vec::new(),
                    process_name: Vec::new(),
                },
                modifier_drag: ModifierDragConfig { enabled: true, modifiers: "Win".to_owned() },
            },
            layout: LayoutSettings {
                default: "master-stack".to_owned(),
                gap: 0,
                border: 0,
                master_ratio_percent: 50,
                smart_split: false,
                preserve_split: false,
                per_monitor: Vec::new(),
                per_workspace: Vec::new(),
            },
            borders: BordersConfig {
                enabled: false,
                width: 2,
                active_color: "#4C9AFF".to_owned(),
                inactive_color: "#3A3A3A".to_owned(),
                floating_color: "#B388FF".to_owned(),
                show_inactive: true,
                disable_when_fullscreen: true,
            },
            window_rules: Vec::new(),
            behavior: BehaviorConfig {
                startup_retile: true,
                dynamic_retile: true,
                drag_to_float: true,
                retile_on_drag_end: true,
                overflow_focus_policy: OverflowFocusPolicy::KeepFocused,
                overflow_float_persistence: OverflowFloatPersistence::StayFloating,
            },
            game_mode: GameModeConfig {
                enabled: true,
                pause_on_fullscreen: true,
                fullscreen_tolerance_px: 2,
                game_exes: Vec::new(),
                ignored_exes: Vec::new(),
                pause_all_layouts_when_game_focused: true,
                pause_focused_monitor_only: false,
                disable_borders: true,
                disable_animations: true,
                disable_keyboard_hooks: true,
            },
            workspaces: WorkspacesConfig { count: 9 },
        }
    }
}

/// Whether two lists hold the same texts.
pub open spec fn same_texts(a: Seq<String>, b: Seq<String>) -> bool {
    a.len() == b.len() && forall|i: int| 0 <= i < a.len() ==> (#[trigger] a[i])@ == b[i]@
}

fn are_same_texts(a: &[String], b: &[String]) -> (r: bool)
    ensures
        r == same_texts(a@, b@),
{
    if a.len() != b.len() {
        return false;
    }
    let mut index: usize = 0;
    while index < a.len()
        invariant
            index <= a.len(),
            a.len() == b.len(),
            forall|i: int| 0 <= i < index ==> (#[trigger] a@[i])@ == b@[i]@,
        decreases a.len() - index,
    {
        if !same_text(&a[index], &b[index]) {
            return false;
        }
        index = index + 1;
    }
    true
}

fn is_same_option(a: &Option<String>, b: &Option<String>) -> (r: bool)
    ensures
        r == (text_view(*a) == text_view(*b)),
{
    match (a, b) {
        (Some(first), Some(second)) => same_text(first, second),
        (None, None) => true,
        _ => false,
    }
}

/// Whether two conditions are the same.
pub open spec fn same_matcher(a: TextMatcher, b: TextMatcher) -> bool {
    &&& a.pattern() == b.pattern()
    &&& a is Exact == b is Exact
    &&& a is Contains == b is Contains
    &&& a is Prefix == b is Prefix
    &&& a is Suffix == b is Suffix
}

fn is_same_matcher(a: &TextMatcher, b: &TextMatcher) -> (r: bool)
    ensures
        r == same_matcher(*a, *b),
{
    match (a, b) {
        (TextMatcher::Exact(first), TextMatcher::Exact(second)) => same_text(first, second),
        (TextMatcher::Contains(first), TextMatcher::Contains(second)) => same_text(first, second),
        (TextMatcher::Prefix(first), TextMatcher::Prefix(second)) => same_text(first, second),
        (TextMatcher::Suffix(first), TextMatcher::Suffix(second)) => same_text(first, second),
        _ => false,
    }
}

/// Whether two optional conditions are the same.
pub open spec fn same_optional_matcher(a: Option<TextMatcher>, b: Option<TextMatcher>) -> bool {
    match (a, b) {
        (Some(first), Some(second)) => same_matcher(first, second),
        (None, None) => true,
        _ => false,
    }
}

fn is_same_optional_matcher(a: &Option<TextMatcher>, b: &Option<TextMatcher>) -> (r: bool)
    ensures
        r == same_optional_matcher(*a, *b),
{
    match (a, b) {
        (Some(first), Some(second)) => is_same_matcher(first, second),
        (None, None) => true,
        _ => false,
    }
}

/// Whether two lists hold the same conditions.
pub open spec fn same_matchers(a: Seq<TextMatcher>, b: Seq<TextMatcher>) -> bool {
    a.len() == b.len() && forall|i: int| 0 <= i < a.len() ==> same_matcher(#[trigger] a[i], b[i])
}

fn are_same_matchers(a: &[TextMatcher], b: &[TextMatcher]) -> (r: bool)
    ensures
        r == same_matchers(a@, b@),
{
    if a.len() != b.len() {
        return false;
    }
    let mut index: usize = 0;
    while index < a.len()
        invariant
            index <= a.len(),
            a.len() == b.len(),
            forall|i: int| 0 <= i < index ==> same_matcher(#[trigger] a@[i], b@[i]),
        decreases a.len() - index,
    {
        if !is_same_matcher(&a[index], &b[index]) {
            return false;
        }
        index = index + 1;
    }
    true
}

/// Whether two hotkeys are the same.
pub open spec fn same_binding(a: HotkeyBindingConfig, b: HotkeyBindingConfig) -> bool {
    &&& a.keys@ == b.keys@
    &&& text_view(a.command) == text_view(b.command)
    &&& text_view(a.launch) == text_view(b.launch)
    &&& a.override_app == b.override_app
}

/// Whether two lists hold the same hotkeys.
pub open spec fn same_bindings(a: Seq<HotkeyBindingConfig>, b: Seq<HotkeyBindingConfig>) -> bool {
    a.len() == b.len() && forall|i: int| 0 <= i < a.len() ==> same_binding(#[trigger] a[i], b[i])
}

fn are_same_bindings(a: &[HotkeyBindingConfig], b: &[HotkeyBindingConfig]) -> (r: bool)
    ensures
        r == same_bindings(a@, b@),
{
    if a.len() != b.len() {
        return false;
    }
    let mut index: usize = 0;
    while index < a.len()
        invariant
            index <= a.len(),
            a.len() == b.len(),
            forall|i: int| 0 <= i < index ==> same_binding(#[trigger] a@[i], b@[i]),
        decreases a.len() - index,
    {
        let same: bool = same_text(&a[index].keys, &b[index].keys) && is_same_option(
            &a[index].command,
            &b[index].command,
        ) && is_same_option(&a[index].launch, &b[index].launch) && a[index].override_app
            == b[index].override_app;
        if !same {
            return false;
        }
        index = index + 1;
    }
    true
}

/// Whether two settings of hotkeys are the same.
pub open spec fn same_hotkeys(a: HotkeysConfig, b: HotkeysConfig) -> bool {
    &&& a.mode == b.mode
    &&& same_bindings(a.bindings@, b.bindings@)
    &&& a.panic_hotkey@ == b.panic_hotkey@
    &&& a.override_latency_budget_micros == b.override_latency_budget_micros
    &&& a.bypass.fullscreen == b.bypass.fullscreen
    &&& same_matchers(a.bypass.class@, b.bypass.class@)
    &&& same_matchers(a.bypass.executable_path@, b.bypass.executable_path@)
    &&& same_matchers(a.bypass.process_name@, b.bypass.process_name@)
    &&& a.modifier_drag.enabled == b.modifier_drag.enabled
    &&& a.modifier_drag.modifiers@ == b.modifier_drag.modifiers@
}

fn are_same_hotkeys(a: &HotkeysConfig, b: &HotkeysConfig) -> (r: bool)
    ensures
        r == same_hotkeys(*a, *b),
{
    a.mode == b.mode && are_same_bindings(&a.bindings, &b.bindings) && same_text(
        &a.panic_hotkey,
        &b.panic_hotkey,
    ) && a.override_latency_budget_micros == b.override_latency_budget_micros && a.bypass.fullscreen
        == b.bypass.fullscreen && are_same_matchers(&a.bypass.class, &b.bypass.class)
        && are_same_matchers(&a.bypass.executable_path, &b.bypass.executable_path)
        && are_same_matchers(&a.bypass.process_name, &b.bypass.process_name)
        && a.modifier_drag.enabled == b.modifier_drag.enabled && same_text(
        &a.modifier_drag.modifiers,
        &b.modifier_drag.modifiers,
    )
}

/// Whether two overrides are the same.
pub open spec fn same_override(a: (String, LayoutOverride), b: (String, LayoutOverride)) -> bool {
    &&& a.0@ == b.0@
    &&& text_view(a.1.layout) == text_view(b.1.layout)
    &&& a.1.gap == b.1.gap
    &&& a.1.border == b.1.border
    &&& a.1.master_ratio_percent == b.1.master_ratio_percent
    &&& a.1.smart_split == b.1.smart_split
    &&& a.1.preserve_split == b.1.preserve_split
}

/// Whether two lists hold the same overrides.
pub open spec fn same_overrides(a: Seq<(String, LayoutOverride)>, b: Seq<(String, LayoutOverride)>) -> bool {
    a.len() == b.len() && forall|i: int| 0 <= i < a.len() ==> same_override(#[trigger] a[i], b[i])
}

fn are_same_overrides(a: &[(String, LayoutOverride)], b: &[(String, LayoutOverride)]) -> (r: bool)
    ensures
        r == same_overrides(a@, b@),
{
    if a.len() != b.len() {
        return false;
    }
    let mut index: usize = 0;
    while index < a.len()
        invariant
            index <= a.len(),
            a.len() == b.len(),
            forall|i: int| 0 <= i < index ==> same_override(#[trigger] a@[i], b@[i]),
        decreases a.len() - index,
    {
        let first: &LayoutOverride = &a[index].1;
        let second: &LayoutOverride = &b[index].1;
        let same: bool = same_text(&a[index].0, &b[index].0) && is_same_option(
            &first.layout,
            &second.layout,
        ) && first.gap == second.gap && first.border == second.border && first.master_ratio_percent
            == second.master_ratio_percent && first.smart_split == second.smart_split
            && first.preserve_split == second.preserve_split;
        if !same {
            return false;
        }
        index = index + 1;
    }
    true
}

/// Whether two settings of layouts are the same but for gaps and borders.
pub open spec fn same_layouts(a: LayoutSettings, b: LayoutSettings) -> bool {
    &&& a.default@ == b.default@
    &&& a.master_ratio_percent == b.master_ratio_percent
    &&& a.smart_split == b.smart_split
    &&& a.preserve_split == b.preserve_split
    &&& same_overrides(a.per_monitor@, b.per_monitor@)
    &&& same_overrides(a.per_workspace@, b.per_workspace@)
}

/// Whether two settings of borders are the same.
pub open spec fn same_borders(a: BordersConfig, b: BordersConfig) -> bool {
    &&& a.enabled == b.enabled
    &&& a.width == b.width
    &&& a.active_color@ == b.active_color@
    &&& a.inactive_color@ == b.inactive_color@
    &&& a.floating_color@ == b.floating_color@
    &&& a.show_inactive == b.show_inactive
    &&& a.disable_when_fullscreen == b.disable_when_fullscreen
}

fn are_same_borders(a: &BordersConfig, b: &BordersConfig) -> (r: bool)
    ensures
        r == same_borders(*a, *b),
{
    a.enabled == b.enabled && a.width == b.width && same_text(&a.active_color, &b.active_color)
        && same_text(&a.inactive_color, &b.inactive_color) && same_text(
        &a.floating_color,
        &b.floating_color,
    ) && a.show_inactive == b.show_inactive && a.disable_when_fullscreen == b.disable_when_fullscreen
}

/// Whether two rules are the same.
pub open spec fn same_rule(a: WindowRuleConfig, b: WindowRuleConfig) -> bool {
    &&& text_view(a.name) == text_view(b.name)
    &&& same_optional_matcher(a.matcher.class_name, b.matcher.class_name)
    &&& same_optional_matcher(a.matcher.title, b.matcher.title)
    &&& same_optional_matcher(a.matcher.executable_path, b.matcher.executable_path)
    &&& same_optional_matcher(a.matcher.process_name, b.matcher.process_name)
    &&& a.action.manage == b.action.manage
    &&& a.action.float == b.action.float
    &&& a.action.target_workspace == b.action.target_workspace
    &&& a.action.always_on_workspace == b.action.always_on_workspace
    &&& text_view(a.action.layout) == text_view(b.action.layout)
    &&& a.action.mode == b.action.mode
}

fn is_same_rule(a: &WindowRuleConfig, b: &WindowRuleConfig) -> (r: bool)
    ensures
        r == same_rule(*a, *b),
{
    is_same_option(&a.name, &b.name) && is_same_optional_matcher(
        &a.matcher.class_name,
        &b.matcher.class_name,
    ) && is_same_optional_matcher(&a.matcher.title, &b.matcher.title) && is_same_optional_matcher(
        &a.matcher.executable_path,
        &b.matcher.executable_path,
    ) && is_same_optional_matcher(&a.matcher.process_name, &b.matcher.process_name)
        && a.action.manage == b.action.manage && a.action.float == b.action.float
        && a.action.target_workspace == b.action.target_workspace && a.action.always_on_workspace
        == b.action.always_on_workspace && is_same_option(&a.action.layout, &b.action.layout)
        && a.action.mode == b.action.mode
}

/// Whether two lists hold the same rules.
pub open spec fn same_rules(a: Seq<WindowRuleConfig>, b: Seq<WindowRuleConfig>) -> bool {
    a.len() == b.len() && forall|i: int| 0 <= i < a.len() ==> same_rule(#[trigger] a[i], b[i])
}

fn are_same_rules(a: &[WindowRuleConfig], b: &[WindowRuleConfig]) -> (r: bool)
    ensures
        r == same_rules(a@, b@),
{
    if a.len() != b.len() {
        return false;
    }
    let mut index: usize = 0;
    while index < a.len()
        invariant
            index <= a.len(),
            a.len() == b.len(),
            forall|i: int| 0 <= i < index ==> same_rule(#[trigger] a@[i], b@[i]),
        decreases a.len() - index,
    {
        if !is_same_rule(&a[index], &b[index]) {
            return false;
        }
        index = index + 1;
    }
    true
}

/// Whether two settings of game mode are the same.
pub open spec fn same_game_mode(a: GameModeConfig, b: GameModeConfig) -> bool {
    &&& a.enabled == b.enabled
    &&& a.pause_on_fullscreen == b.pause_on_fullscreen
    &&& a.fullscreen_tolerance_px == b.fullscreen_tolerance_px
    &&& same_texts(a.game_exes@, b.game_exes@)
    &&& same_texts(a.ignored_exes@, b.ignored_exes@)
    &&& a.pause_all_layouts_when_game_focused == b.pause_all_layouts_when_game_focused
    &&& a.pause_focused_monitor_only == b.pause_focused_monitor_only
    &&& a.disable_borders == b.disable_borders
    &&& a.disable_animations == b.disable_animations
    &&& a.disable_keyboard_hooks == b.disable_keyboard_hooks
}

fn is_same_game_mode(a: &GameModeConfig, b: &GameModeConfig) -> (r: bool)
    ensures
        r == same_game_mode(*a, *b),
{
    a.enabled == b.enabled && a.pause_on_fullscreen == b.pause_on_fullscreen
        && a.fullscreen_tolerance_px == b.fullscreen_tolerance_px && are_same_texts(
        &a.game_exes,
        &b.game_exes,
    ) && are_same_texts(&a.ignored_exes, &b.ignored_exes) && a.pause_all_layouts_when_game_focused
        == b.pause_all_layouts_when_game_focused && a.pause_focused_monitor_only
        == b.pause_focused_monitor_only && a.disable_borders == b.disable_borders
        && a.disable_animations == b.disable_animations && a.disable_keyboard_hooks
        == b.disable_keyboard_hooks
}

/// What changed in the settings.
#[derive(Debug, Clone, PartialEq, Eq)]
pub struct ConfigDiff {
    pub changed_sections: Vec<String>,
}

/// A name, if it is to be named.
pub open spec fn named_if(named: bool, name: Seq<char>) -> Seq<Seq<char>> {
    if named {
        seq![name]
    } else {
        Seq::empty()
    }
}

/// The sections that changed.
pub open spec fn changed_names(old_config: Config, new_config: Config) -> Seq<Seq<char>> {
    named_if(!same_hotkeys(old_config.hotkeys, new_config.hotkeys), "hotkeys"@) + named_if(
        !same_layouts(old_config.layout, new_config.layout),
        "layout"@,
    ) + named_if(
        old_config.layout.gap != new_config.layout.gap || old_config.layout.border
            != new_config.layout.border,
        "gaps"@,
    ) + named_if(!same_borders(old_config.borders, new_config.borders), "borders"@) + named_if(
        !same_rules(old_config.window_rules@, new_config.window_rules@),
        "window-rules"@,
    ) + named_if(old_config.behavior != new_config.behavior, "behavior"@) + named_if(
        !same_game_mode(old_config.game_mode, new_config.game_mode),
        "game-mode"@,
    ) + named_if(old_config.workspaces != new_config.workspaces, "workspaces"@) + named_if(
        old_config.general.log_level@ != new_config.general.log_level@,
        "general"@,
    )
}

/// The sections that changed, or a word that says that none did.
pub open spec fn reported_names(old_config: Config, new_config: Config) -> Seq<Seq<char>> {
    if changed_names(old_config, new_config).len() == 0 {
        seq!["none"@]
    } else {
        changed_names(old_config, new_config)
    }
}

/// The texts of names.
pub open spec fn name_views(names: Seq<String>) -> Seq<Seq<char>> {
    names.map_values(|name: String| name@)
}

fn push_name(names: &mut Vec<String>, named: bool, name: &str)
    ensures
        name_views(final(names)@) == name_views(old(names)@) + named_if(named, name@),
{
    let ghost before = names@;
    if named {
        names.push(name.to_owned());
        proof {
            assert(name_views(names@) =~= name_views(before) + seq![name@]);
        }
    } else {
        proof {
            assert(name_views(names@) =~= name_views(before) + Seq::empty());
        }
    }
}

impl ConfigDiff {
    /// What changed from some settings to others.
    pub fn between(old_config: &Config, new_config: &Config) -> (r: ConfigDiff)
        ensures
            name_views(r.changed_sections@) == reported_names(*old_config, *new_config),
    {
        let mut names: Vec<String> = Vec::new();
        push_name(
            &mut names,
            !are_same_hotkeys(&old_config.hotkeys, &new_config.hotkeys),
            "hotkeys",
        );
        proof {
            assert(name_views(names@) =~= named_if(
                !same_hotkeys(old_config.hotkeys, new_config.hotkeys),
                "hotkeys"@,
            ));
        }
        let old_layout: &LayoutSettings = &old_config.layout;
        let new_layout: &LayoutSettings = &new_config.layout;
        let same_layout: bool = same_text(&old_layout.default, &new_layout.default)
            && old_layout.master_ratio_percent == new_layout.master_ratio_percent
            && old_layout.smart_split == new_layout.smart_split && old_layout.preserve_split
            == new_layout.preserve_split && are_same_overrides(
            &old_layout.per_monitor,
            &new_layout.per_monitor,
        ) && are_same_overrides(&old_layout.per_workspace, &new_layout.per_workspace);
        push_name(&mut names, !same_layout, "layout");
        push_name(
            &mut names,
            old_layout.gap != new_layout.gap || old_layout.border != new_layout.border,
            "gaps",
        );
        push_name(
            &mut names,
            !are_same_borders(&old_config.borders, &new_config.borders),
            "borders",
        );
        push_name(
            &mut names,
            !are_same_rules(&old_config.window_rules, &new_config.window_rules),
            "window-rules",
        );
        push_name(&mut names, old_config.behavior != new_config.behavior, "behavior");
        push_name(
            &mut names,
            !is_same_game_mode(&old_config.game_mode, &new_config.game_mode),
            "game-mode",
        );
        push_name(&mut names, old_config.workspaces != new_config.workspaces, "workspaces");
        push_name(
            &mut names,
            !same_text(&old_config.general.log_level, &new_config.general.log_level),
            "general",
        );
        proof {
            assert(name_views(names@).len() == names@.len());
        }
        if names.len() == 0 {
            names.push("none".to_owned());
            proof {
                assert(name_views(names@) =~= seq!["none"@]);
            }
        }
        ConfigDiff { changed_sections: names }
    }

    /// Whether nothing changed.
    pub fn is_noop(&self) -> (r: bool)
        ensures
            r == (name_views(self.changed_sections@) == seq!["none"@]),
    {
        if self.changed_sections.len() != 1 {
            proof {
                assert(name_views(self.changed_sections@).len() == self.changed_sections@.len());
            }
            return false;
        }
        let r: bool = same_text(&self.changed_sections[0], "none");
        proof {
            assert(name_views(self.changed_sections@)[0] == self.changed_sections@[0]@);
            if r {
                assert(name_views(self.changed_sections@) =~= seq!["none"@]);
            }
        }
        r
    }
}

/// A reload changes nothing exactly when no section changed.
pub proof fn reload_is_no_change_iff_no_section_changed(old_config: Config, new_config: Config)
    ensures
        (reported_names(old_config, new_config) == seq!["none"@]) == (changed_names(
            old_config,
            new_config,
        ).len() == 0),
{
    reveal_strlit("none");
    reveal_strlit("hotkeys");
    reveal_strlit("layout");
    reveal_strlit("gaps");
    reveal_strlit("borders");
    reveal_strlit("window-rules");
    reveal_strlit("behavior");
    reveal_strlit("game-mode");
    reveal_strlit("workspaces");
    reveal_strlit("general");
    let names = changed_names(old_config, new_config);
    if names.len() > 0 {
        assert("gaps"@[0] != "none"@[0]);
        assert(names[0] != "none"@);
        assert(seq!["none"@][0] == "none"@);
    }
}

/// Settings that did not change are reported as such.
pub proof fn same_settings_are_no_change(config: Config)
    ensures
        reported_names(config, config) == seq!["none"@],
{
    assert(changed_names(config, config) =~= Seq::empty());
}

impl Config {
    /// The layout that is set in general, as an override of the built-in one.
    pub open spec fn general_layout(self) -> LayoutConfig {
        overridden_layout(
            LayoutConfig {
                kind: LayoutKind::MasterStack,
                gap: 0,
                border: 0,
                master_ratio_percent: 50,
                smart_split: false,
                preserve_split: false,
            },
            LayoutOverride {
                layout: Some(self.layout.default),
                gap: Some(self.layout.gap),
                border: Some(self.layout.border),
                master_ratio_percent: Some(self.layout.master_ratio_percent),
                smart_split: Some(self.layout.smart_split),
                preserve_split: Some(self.layout.preserve_split),
            },
        )
    }

    /// The layout that is set in general.
    pub fn layout_config(&self) -> (r: LayoutConfig)
        ensures
            r == self.general_layout(),
    {
        let base: LayoutConfig = LayoutConfig {
            kind: LayoutKind::MasterStack,
            gap: 0,
            border: 0,
            master_ratio_percent: 50,
            smart_split: false,
            preserve_split: false,
        };
        let set: LayoutOverride = LayoutOverride {
            layout: Some(self.layout.default.clone()),
            gap: Some(self.layout.gap),
            border: Some(self.layout.border),
            master_ratio_percent: Some(self.layout.master_ratio_percent),
            smart_split: Some(self.layout.smart_split),
            preserve_split: Some(self.layout.preserve_split),
        };
        merge_layout_override(base, &set)
    }
}

fn copy_option(text: &Option<String>) -> (r: Option<String>)
    ensures
        text_view(r) == text_view(*text),
{
    match text {
        Some(text) => Some(text.clone()),
        None => None,
    }
}

/// A condition once more.
fn copy_matcher(matcher: &TextMatcher) -> (r: TextMatcher)
    ensures
        same_matcher(r, *matcher),
{
    match matcher {
        TextMatcher::Exact(text) => TextMatcher::Exact(text.clone()),
        TextMatcher::Contains(text) => TextMatcher::Contains(text.clone()),
        TextMatcher::Prefix(text) => TextMatcher::Prefix(text.clone()),
        TextMatcher::Suffix(text) => TextMatcher::Suffix(text.clone()),
    }
}

fn copy_optional_matcher(matcher: &Option<TextMatcher>) -> (r: Option<TextMatcher>)
    ensures
        same_optional_matcher(r, *matcher),
{
    match matcher {
        Some(matcher) => Some(copy_matcher(matcher)),
        None => None,
    }
}

/// The name of a rule: the one that it is given, or else one after its place.
pub open spec fn rule_name(name: Option<String>, place: int) -> Seq<char> {
    match name {
        Some(name) => name@,
        None => "rule-"@ + numeral((place + 1) as nat, 10),
    }
}

/// Whether a rule is the one of the settings that stands at a place.
pub open spec fn is_rule_at(config: WindowRuleConfig, place: int, rule: WindowRule) -> bool {
    &&& rule.name@ == rule_name(config.name, place)
    &&& same_optional_matcher(rule.matcher.class_name, config.matcher.class_name)
    &&& same_optional_matcher(rule.matcher.title, config.matcher.title)
    &&& same_optional_matcher(rule.matcher.executable_path, config.matcher.executable_path)
    &&& same_optional_matcher(rule.matcher.process_name, config.matcher.process_name)
    &&& rule.action.manage == config.action.manage
    &&& rule.action.float == config.action.float
    &&& rule.action.target_workspace == config.action.target_workspace
    &&& rule.action.always_on_workspace == config.action.always_on_workspace
    &&& text_view(rule.action.layout) == text_view(config.action.layout)
    &&& rule.action.mode == config.action.mode
}

/// Whether rules are those of the settings, in their order.
pub open spec fn are_rules(configured: Seq<WindowRuleConfig>, rules: Seq<WindowRule>) -> bool {
    &&& rules.len() == configured.len()
    &&& forall|i: int| 0 <= i < rules.len() ==> is_rule_at(configured[i], i, #[trigger] rules[i])
}

impl Config {
    /// The rules that are set.
    pub fn window_rules(&self) -> (r: Vec<WindowRule>)
        ensures
            are_rules(self.window_rules@, r@),
    {
        let configured: &Vec<WindowRuleConfig> = &self.window_rules;
        let mut rules: Vec<WindowRule> = Vec::new();
        let mut index: usize = 0;
        while index < configured.len()
            invariant
                index <= configured.len(),
                configured == self.window_rules,
                rules.len() == index,
                forall|i: int|
                    0 <= i < index ==> is_rule_at(configured@[i], i, #[trigger] rules@[i]),
            decreases configured.len() - index,
        {
            let rule: &WindowRuleConfig = &configured[index];
            let name: String = match &rule.name {
                Some(name) => name.clone(),
                None => {
                    let mut text: String = "rule-".to_owned();
                    text.push_str(&decimal(index as u64 + 1));
                    text
                },
            };
            rules.push(
                WindowRule {
                    name,
                    matcher: WindowRuleMatch {
                        class_name: copy_optional_matcher(&rule.matcher.class_name),
                        title: copy_optional_matcher(&rule.matcher.title),
                        executable_path: copy_optional_matcher(&rule.matcher.executable_path),
                        process_name: copy_optional_matcher(&rule.matcher.process_name),
                    },
                    action: WindowRuleAction {
                        manage: rule.action.manage,
                        float: rule.action.float,
                        target_workspace: rule.action.target_workspace,
                        always_on_workspace: rule.action.always_on_workspace,
                        layout: copy_option(&rule.action.layout),
                        mode: rule.action.mode,
                    },
                },
            );
            index = index + 1;
        }
        rules
    }
}

fn copy_texts(texts: &[String]) -> (r: Vec<String>)
    ensures
        same_texts(r@, texts@),
{
    let mut copies: Vec<String> = Vec::new();
    let mut index: usize = 0;
    while index < texts.len()
        invariant
            index <= texts.len(),
            copies.len() == index,
            forall|i: int| 0 <= i < index ==> (#[trigger] copies@[i])@ == texts@[i]@,
        decreases texts.len() - index,
    {
        copies.push(texts[index].clone());
        index = index + 1;
    }
    copies
}

/// Which colour of the borders cannot be read, and why.
#[derive(Debug, Clone, Copy, PartialEq, Eq, Structural)]
pub enum BorderConfigError {
    ActiveColor(BorderColorError),
    InactiveColor(BorderColorError),
    FloatingColor(BorderColorError),
}

impl RuntimeBorderConfig {
    /// What the daemon makes of the settings of borders.
    pub open spec fn made_of(config: BordersConfig) -> Result<RuntimeBorderConfig, BorderConfigError> {
        match (
            parsed_color(config.active_color@),
            parsed_color(config.inactive_color@),
            parsed_color(config.floating_color@),
        ) {
            (Err(error), _, _) => Err(BorderConfigError::ActiveColor(error)),
            (_, Err(error), _) => Err(BorderConfigError::InactiveColor(error)),
            (_, _, Err(error)) => Err(BorderConfigError::FloatingColor(error)),
            (Ok(active_color), Ok(inactive_color), Ok(floating_color)) => Ok(
                RuntimeBorderConfig {
                    enabled: config.enabled,
                    width: config.width as i32,
                    active_color,
                    inactive_color,
                    floating_color,
                    show_inactive: config.show_inactive,
                    disable_when_fullscreen: config.disable_when_fullscreen,
                },
            ),
        }
    }

    /// What the daemon makes of the settings of borders.
    pub fn from_config(config: &BordersConfig) -> (r: Result<RuntimeBorderConfig, BorderConfigError>)
        ensures
            r == RuntimeBorderConfig::made_of(*config),
    {
        let active_color: BorderColor = match parse_border_color(&config.active_color) {
            Ok(color) => color,
            Err(error) => {
                return Err(BorderConfigError::ActiveColor(error));
            },
        };
        let inactive_color: BorderColor = match parse_border_color(&config.inactive_color) {
            Ok(color) => color,
            Err(error) => {
                return Err(BorderConfigError::InactiveColor(error));
            },
        };
        let floating_color: BorderColor = match parse_border_color(&config.floating_color) {
            Ok(color) => color,
            Err(error) => {
                return Err(BorderConfigError::FloatingColor(error));
            },
        };
        Ok(
            RuntimeBorderConfig {
                enabled: config.enabled,
                width: config.width as i32,
                active_color,
                inactive_color,
                floating_color,
                show_inactive: config.show_inactive,
                disable_when_fullscreen: config.disable_when_fullscreen,
            },
        )
    }
}

impl RuntimeGameModeConfig {
    /// Whether this is what the daemon makes of the settings of game mode.
    pub open spec fn is_made_of(self, config: GameModeConfig) -> bool {
        &&& self.policy.enabled == config.enabled
        &&& self.policy.pause_on_fullscreen == config.pause_on_fullscreen
        &&& self.policy.fullscreen_tolerance_px == config.fullscreen_tolerance_px
        &&& same_texts(self.policy.game_exes@, config.game_exes@)
        &&& same_texts(self.policy.ignored_exes@, config.ignored_exes@)
        &&& self.pause_all_layouts_when_game_focused == config.pause_all_layouts_when_game_focused
        &&& self.pause_focused_monitor_only == config.pause_focused_monitor_only
        &&& self.disable_borders == config.disable_borders
        &&& self.disable_animations == config.disable_animations
        &&& self.disable_keyboard_hooks == config.disable_keyboard_hooks
    }

    /// What the daemon makes of the settings of game mode.
    pub fn from_config(config: &GameModeConfig) -> (r: RuntimeGameModeConfig)
        ensures
            r.is_made_of(*config),
    {
        RuntimeGameModeConfig {
            policy: GameModePolicy {
                enabled: config.enabled,
                pause_on_fullscreen: config.pause_on_fullscreen,
                fullscreen_tolerance_px: config.fullscreen_tolerance_px,
                game_exes: copy_texts(&config.game_exes),
                ignored_exes: copy_texts(&config.ignored_exes),
            },
            pause_all_layouts_when_game_focused: config.pause_all_layouts_when_game_focused,
            pause_focused_monitor_only: config.pause_focused_monitor_only,
            disable_borders: config.disable_borders,
            disable_animations: config.disable_animations,
            disable_keyboard_hooks: config.disable_keyboard_hooks,
        }
    }
}

impl RuntimeConfig {
    /// Whether this is what the daemon makes of the settings.
    pub open spec fn is_made_of(self, config: Config) -> bool {
        &&& self.layout == config.general_layout()
        &&& self.layout_per_monitor@.len() == config.layout.per_monitor@.len()
        &&& forall|i: int|
            0 <= i < self.layout_per_monitor@.len() ==> (#[trigger] self.layout_per_monitor@[i]).0@
                == config.layout.per_monitor@[i].0@ && self.layout_per_monitor@[i].1
                == overridden_layout(config.general_layout(), config.layout.per_monitor@[i].1)
        &&& self.layout_per_workspace@ == workspace_layouts(
            config.general_layout(),
            config.layout.per_workspace@,
        )
        &&& self.workspace_count == config.workspaces.count
        &&& are_rules(config.window_rules@, self.window_rules@)
        &&& self.startup_retile == config.behavior.startup_retile
        &&& self.dynamic_retile == config.behavior.dynamic_retile
        &&& self.drag_to_float == config.behavior.drag_to_float
        &&& self.retile_on_drag_end == config.behavior.retile_on_drag_end
        &&& self.overflow_focus_policy == config.behavior.overflow_focus_policy
        &&& self.overflow_float_persistence == config.behavior.overflow_float_persistence
        &&& RuntimeBorderConfig::made_of(config.borders) == Ok::<_, BorderConfigError>(self.borders)
        &&& self.game_mode.is_made_of(config.game_mode)
    }

    /// What the daemon makes of the settings.
    pub fn from_config(config: &Config) -> (r: Result<RuntimeConfig, BorderConfigError>)
        ensures
            match r {
                Ok(made) => made.wf() && made.is_made_of(*config),
                Err(error) => RuntimeBorderConfig::made_of(config.borders)
                    == Err::<RuntimeBorderConfig, _>(error),
            },
    {
        let borders: RuntimeBorderConfig = match RuntimeBorderConfig::from_config(&config.borders) {
            Ok(borders) => borders,
            Err(error) => {
                return Err(error);
            },
        };
        let layout: LayoutConfig = config.layout_config();
        Ok(
            RuntimeConfig {
                layout,
                layout_per_monitor: layout_per_monitor_from_config(
                    layout,
                    &config.layout.per_monitor,
                ),
                layout_per_workspace: layout_per_workspace_from_config(
                    layout,
                    &config.layout.per_workspace,
                ),
                workspace_count: config.workspaces.count,
                window_rules: config.window_rules(),
                startup_retile: config.behavior.startup_retile,
                dynamic_retile: config.behavior.dynamic_retile,
                drag_to_float: config.behavior.drag_to_float,
                retile_on_drag_end: config.behavior.retile_on_drag_end,
                overflow_focus_policy: config.behavior.overflow_focus_policy,
                overflow_float_persistence: config.behavior.overflow_float_persistence,
                borders,
                game_mode: RuntimeGameModeConfig::from_config(&config.game_mode),
            },
        )
    }
}

impl Default for RuntimeConfig {
    fn default() -> (r: Self)
        ensures
            r.wf(),
            r.layout == LayoutConfig::spec_default(),
            r.layout_per_monitor@.len() == 0,
            r.layout_per_workspace@ == Map::<u64, LayoutConfig>::empty(),
            r.workspace_count == 9,
            r.window_rules@.len() == 0,
            r.startup_retile,
            r.dynamic_retile,
            r.drag_to_float,
            r.retile_on_drag_end,
            r.overflow_focus_policy == OverflowFocusPolicy::KeepFocused,
            r.overflow_float_persistence == OverflowFloatPersistence::StayFloating,
            r.borders == (RuntimeBorderConfig {
                enabled: false,
                width: 2,
                active_color: BorderColor { red: 0x4c, green: 0x9a, blue: 0xff },
                inactive_color: BorderColor { red: 0x3a, green: 0x3a, blue: 0x3a },
                floating_color: BorderColor { red: 0xb3, green: 0x88, blue: 0xff },
                show_inactive: true,
                disable_when_fullscreen: true,
            }),
            r.game_mode.policy.enabled,
            r.game_mode.policy.pause_on_fullscreen,
            r.game_mode.policy.fullscreen_tolerance_px == 2,
            r.game_mode.policy.game_exes@.len() == 0,
            r.game_mode.policy.ignored_exes@.len() == 0,
            r.game_mode.pause_all_layouts_when_game_focused,
            !r.game_mode.pause_focused_monitor_only,
            r.game_mode.disable_borders,
            r.game_mode.disable_animations,
            r.game_mode.disable_keyboard_hooks,
    {
        RuntimeConfig {
            layout: LayoutConfig::default(),
            layout_per_monitor: Vec::new(),
            layout_per_workspace: SortedMap::new(),
            workspace_count: 9,
            window_rules: Vec::new(),
            startup_retile: true,
            dynamic_retile: true,
            drag_to_float: true,
            retile_on_drag_end: true,
            overflow_focus_policy: OverflowFocusPolicy::KeepFocused,
            overflow_float_persistence: OverflowFloatPersistence::StayFloating,
            borders: RuntimeBorderConfig {
                enabled: false,
                width: 2,
                active_color: BorderColor::new(0x4c, 0x9a, 0xff),
                inactive_color: BorderColor::new(0x3a, 0x3a, 0x3a),
                floating_color: BorderColor::new(0xb3, 0x88, 0xff),
                show_inactive: true,
                disable_when_fullscreen: true,
            },
            game_mode: RuntimeGameModeConfig {
                policy: GameModePolicy {
                    enabled: true,
                    pause_on_fullscreen: true,
                    fullscreen_tolerance_px: 2,
                    game_exes: Vec::new(),
                    ignored_exes: Vec::new(),
                },
                pause_all_layouts_when_game_focused: true,
                pause_focused_monitor_only: false,
                disable_borders: true,
                disable_animations: true,
                disable_keyboard_hooks: true,
            },
        }
    }
}

fn copy_matchers(matchers: &[TextMatcher]) -> (r: Vec<TextMatcher>)
    ensures
        same_matchers(r@, matchers@),
{
    let mut copies: Vec<TextMatcher> = Vec::new();
    let mut index: usize = 0;
    while index < matchers.len()
        invariant
            index <= matchers.len(),
            copies.len() == index,
            forall|i: int| 0 <= i < index ==> same_matcher(#[trigger] copies@[i], matchers@[i]),
        decreases matchers.len() - index,
    {
        copies.push(copy_matcher(&matchers[index]));
        index = index + 1;
    }
    copies
}

/// Whether a condition asks for an executable by its exact name.
pub open spec fn names_exactly(matcher: TextMatcher, name: String) -> bool {
    matcher is Exact && matcher.pattern() == name@
}

/// Whether conditions are some others, and after them one for each of some names.
pub open spec fn are_followed_by_names(
    matchers: Seq<TextMatcher>,
    first: Seq<TextMatcher>,
    names: Seq<String>,
) -> bool {
    &&& matchers.len() == first.len() + names.len()
    &&& same_matchers(matchers.take(first.len() as int), first)
    &&& forall|i: int|
        0 <= i < names.len() ==> names_exactly(#[trigger] matchers[first.len() + i], names[i])
}

/// Whether these are the windows that hotkeys are left to: those that the settings name, and the games
/// too if game mode lets hooks rest.
pub open spec fn are_bypass_rules(rules: HotkeyBypassRules, config: Config) -> bool {
    let rests = config.game_mode.enabled && config.game_mode.disable_keyboard_hooks;
    &&& rules.fullscreen == (config.hotkeys.bypass.fullscreen || (rests
        && config.game_mode.pause_on_fullscreen))
    &&& same_matchers(rules.class_names@, config.hotkeys.bypass.class@)
    &&& same_matchers(rules.executable_paths@, config.hotkeys.bypass.executable_path@)
    &&& if rests {
        are_followed_by_names(
            rules.process_names@,
            config.hotkeys.bypass.process_name@,
            config.game_mode.game_exes@ + config.game_mode.ignored_exes@,
        )
    } else {
        same_matchers(rules.process_names@, config.hotkeys.bypass.process_name@)
    }
}

fn push_names(matchers: &mut Vec<TextMatcher>, names: &[String])
    ensures
        final(matchers)@.len() == old(matchers)@.len() + names@.len(),
        final(matchers)@.take(old(matchers)@.len() as int) == old(matchers)@,
        forall|i: int|
            0 <= i < names@.len() ==> names_exactly(
                #[trigger] final(matchers)@[old(matchers)@.len() + i],
                names@[i],
            ),
{
    let ghost before = matchers@;
    let mut index: usize = 0;
    proof {
        assert(matchers@.take(before.len() as int) =~= before);
    }
    while index < names.len()
        invariant
            index <= names.len(),
            matchers@.len() == before.len() + index,
            matchers@.take(before.len() as int) == before,
            forall|i: int|
                0 <= i < index ==> names_exactly(#[trigger] matchers@[before.len() + i], names@[i]),
        decreases names.len() - index,
    {
        let ghost held = matchers@;
        matchers.push(TextMatcher::Exact(names[index].clone()));
        proof {
            assert(matchers@.take(before.len() as int) =~= held.take(before.len() as int));
            assert forall|i: int| 0 <= i <= index implies names_exactly(
                #[trigger] matchers@[before.len() + i],
                names@[i],
            ) by {
                if i < index {
                    assert(matchers@[before.len() + i] == held[before.len() + i]);
                }
            }
        }
        index = index + 1;
    }
}

/// The windows that hotkeys are left to.
pub fn hotkey_bypass_rules_from_config(config: &Config) -> (r: HotkeyBypassRules)
    ensures
        are_bypass_rules(r, *config),
{
    let mut process_names: Vec<TextMatcher> = copy_matchers(&config.hotkeys.bypass.process_name);
    let rests: bool = config.game_mode.enabled && config.game_mode.disable_keyboard_hooks;
    if rests {
        let ghost first = process_names@;
        push_names(&mut process_names, &config.game_mode.game_exes);
        let ghost games = process_names@;
        push_names(&mut process_names, &config.game_mode.ignored_exes);
        proof {
            let count = first.len() as int;
            let all = process_names@;
            let names = config.game_mode.game_exes@ + config.game_mode.ignored_exes@;
            assert(all.take(count) =~= games.take(count)) by {
                assert forall|i: int| 0 <= i < count implies all[i] == games[i] by {
                    assert(all.take(games.len() as int)[i] == games[i]);
                }
            }
            assert forall|i: int| 0 <= i < names.len() implies names_exactly(
                #[trigger] all[count + i],
                names[i],
            ) by {
                if i < config.game_mode.game_exes@.len() {
                    assert(all.take(games.len() as int)[count + i] == games[count + i]);
                } else {
                    let j = i - config.game_mode.game_exes@.len();
                    assert(all[games.len() + j] == all[count + i]);
                }
            }
        }
    }
    HotkeyBypassRules {
        fullscreen: config.hotkeys.bypass.fullscreen || (rests
            && config.game_mode.pause_on_fullscreen),
        class_names: copy_matchers(&config.hotkeys.bypass.class),
        executable_paths: copy_matchers(&config.hotkeys.bypass.executable_path),
        process_names,
    }
}

/// What is said of valid settings.
pub open spec fn summary_text(
    path: Option<Seq<char>>,
    layout: LayoutConfig,
    game_mode: GameModeConfig,
) -> Seq<char> {
    (match path {
        Some(path) => "Config is valid: "@ + path,
        None => "Config is valid: no config file found, using built-in defaults."@,
    }) + "\nLayout: "@ + layout.kind.spec_name() + " (gap "@ + signed_numeral(layout.gap as int)
        + ", border "@ + signed_numeral(layout.border as int) + ", smart_split "@ + yes_or_no(
        layout.smart_split,
    ) + ", preserve_split "@ + yes_or_no(layout.preserve_split) + ")\nGame mode: "@ + (
    if game_mode.enabled {
        "enabled"@
    } else {
        "disabled"@
    }) + " (fullscreen "@ + yes_or_no(game_mode.pause_on_fullscreen) + ", tolerance "@
        + signed_numeral(game_mode.fullscreen_tolerance_px as int) + "px, game_exes "@ + numeral(
        game_mode.game_exes@.len(),
        10,
    ) + ", ignored_exes "@ + numeral(game_mode.ignored_exes@.len(), 10) + ")\n"@
}

/// What is said of valid settings.
pub fn format_config_summary(path: Option<&str>, layout: &LayoutConfig, game_mode: &GameModeConfig) -> (r:
    String)
    ensures
        r@ == summary_text(
            match path {
                Some(path) => Some(path@),
                None => None,
            },
            *layout,
            *game_mode,
        ),
{
    let mut text: String = match path {
        Some(path) => {
            let mut text: String = "Config is valid: ".to_owned();
            text.push_str(path);
            text
        },
        None => "Config is valid: no config file found, using built-in defaults.".to_owned(),
    };
    text.push_str("\nLayout: ");
    text.push_str(layout.kind.name());
    text.push_str(" (gap ");
    text.push_str(&signed_decimal(layout.gap as i64));
    text.push_str(", border ");
    text.push_str(&signed_decimal(layout.border as i64));
    text.push_str(", smart_split ");
    text.push_str(yes_no(layout.smart_split));
    text.push_str(", preserve_split ");
    text.push_str(yes_no(layout.preserve_split));
    text.push_str(")\nGame mode: ");
    text.push_str(
        if game_mode.enabled {
            "enabled"
        } else {
            "disabled"
        },
    );
    text.push_str(" (fullscreen ");
    text.push_str(yes_no(game_mode.pause_on_fullscreen));
    text.push_str(", tolerance ");
    text.push_str(&signed_decimal(game_mode.fullscreen_tolerance_px as i64));
    text.push_str("px, game_exes ");
    text.push_str(&decimal(game_mode.game_exes.len() as u64));
    text.push_str(", ignored_exes ");
    text.push_str(&decimal(game_mode.ignored_exes.len() as u64));
    text.push_str(")\n");
    text
}

} // verus!
