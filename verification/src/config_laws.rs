//! What a change of the settings is called, and what the daemon makes of the settings.

use vstd::prelude::*;

use crate::commands::HotkeyBindingError;
use crate::config::{
    are_bypass_rules, changed_names, named_if, BorderConfigError, Config,
};
use crate::hotkey::HotkeyBypassRules;
use crate::hotkey_settings::{are_bindings, is_binding_at, setting_error, HotkeySettingError};
use crate::layout::LayoutKind;
use crate::numeral::{numeral, parsed};
use crate::runtime_config::{parsed_color, workspace_layouts, RuntimeBorderConfig, RuntimeConfig};
use crate::settings_laws::what_is_set_replaces_what_was;
use crate::text::trimmed;

verus! {

proof fn lemma_section_names_differ()
    ensures
        seq![
            "hotkeys"@,
            "layout"@,
            "gaps"@,
            "borders"@,
            "window-rules"@,
            "behavior"@,
            "game-mode"@,
            "workspaces"@,
            "general"@,
        ].no_duplicates(),
{
    reveal_strlit("hotkeys");
    reveal_strlit("layout");
    reveal_strlit("gaps");
    reveal_strlit("borders");
    reveal_strlit("window-rules");
    reveal_strlit("behavior");
    reveal_strlit("game-mode");
    reveal_strlit("workspaces");
    reveal_strlit("general");
    assert("hotkeys"@[0] == 'h' && "layout"@[0] == 'l' && "gaps"@[0] == 'g' && "borders"@[0] == 'b'
        && "window-rules"@[0] == 'w' && "behavior"@[0] == 'b' && "game-mode"@[0] == 'g'
        && "workspaces"@[0] == 'w' && "general"@[0] == 'g');
    assert("gaps"@.len() == 4 && "game-mode"@.len() == 9 && "general"@.len() == 7 && "borders"@.len()
        == 7 && "behavior"@.len() == 8 && "window-rules"@.len() == 12 && "workspaces"@.len() == 10);
}

proof fn lemma_named(before: Seq<Seq<char>>, named: bool, name: Seq<char>, other: Seq<char>)
    ensures
        (before + named_if(named, name)).contains(other) <==> before.contains(other) || (named && other
            == name),
{
    let list = before + named_if(named, name);
    if before.contains(other) {
        let at = before.index_of(other);
        assert(list[at] == other);
    }
    if named && other == name {
        assert(list[before.len() as int] == other);
    }
    if list.contains(other) {
        let at = list.index_of(other);
        if at < before.len() {
            assert(before[at] == other);
        }
    }
}

proof fn lemma_changed_names(a: Config, b: Config, name: Seq<char>)
    ensures
        changed_names(a, b).contains(name) <==> {
            ||| name == "hotkeys"@ && !crate::config::same_hotkeys(a.hotkeys, b.hotkeys)
            ||| name == "layout"@ && !crate::config::same_layouts(a.layout, b.layout)
            ||| name == "gaps"@ && (a.layout.gap != b.layout.gap || a.layout.border != b.layout.border)
            ||| name == "borders"@ && !crate::config::same_borders(a.borders, b.borders)
            ||| name == "window-rules"@ && !crate::config::same_rules(a.window_rules@, b.window_rules@)
            ||| name == "behavior"@ && a.behavior != b.behavior
            ||| name == "game-mode"@ && !crate::config::same_game_mode(a.game_mode, b.game_mode)
            ||| name == "workspaces"@ && a.workspaces != b.workspaces
            ||| name == "general"@ && a.general.log_level@ != b.general.log_level@
        },
{
    let none = Seq::<Seq<char>>::empty();
    let first = named_if(!crate::config::same_hotkeys(a.hotkeys, b.hotkeys), "hotkeys"@);
    lemma_named(none, !crate::config::same_hotkeys(a.hotkeys, b.hotkeys), "hotkeys"@, name);
    assert(none + first =~= first);
    let second = first + named_if(!crate::config::same_layouts(a.layout, b.layout), "layout"@);
    lemma_named(first, !crate::config::same_layouts(a.layout, b.layout), "layout"@, name);
    let gaps = a.layout.gap != b.layout.gap || a.layout.border != b.layout.border;
    let third = second + named_if(gaps, "gaps"@);
    lemma_named(second, gaps, "gaps"@, name);
    let borders = !crate::config::same_borders(a.borders, b.borders);
    let fourth = third + named_if(borders, "borders"@);
    lemma_named(third, borders, "borders"@, name);
    let rules = !crate::config::same_rules(a.window_rules@, b.window_rules@);
    let fifth = fourth + named_if(rules, "window-rules"@);
    lemma_named(fourth, rules, "window-rules"@, name);
    let sixth = fifth + named_if(a.behavior != b.behavior, "behavior"@);
    lemma_named(fifth, a.behavior != b.behavior, "behavior"@, name);
    let games = !crate::config::same_game_mode(a.game_mode, b.game_mode);
    let seventh = sixth + named_if(games, "game-mode"@);
    lemma_named(sixth, games, "game-mode"@, name);
    let eighth = seventh + named_if(a.workspaces != b.workspaces, "workspaces"@);
    lemma_named(seventh, a.workspaces != b.workspaces, "workspaces"@, name);
    lemma_named(eighth, a.general.log_level@ != b.general.log_level@, "general"@, name);
}

/// Each change of the settings is called by the section that it is in: that of a gap or a border of the
/// tiles by the gaps, any other of the layout by the layout, and so on. A section without a change is
/// not named, and nothing else is.
#[verifier::rlimit(50)]
pub proof fn changes_are_called_by_their_section(a: Config, b: Config, i: int)
    ensures
        ({
            let changed = changed_names(a, b);
            &&& changed.contains("gaps"@) <==> a.layout.gap != b.layout.gap || a.layout.border
                != b.layout.border
            &&& changed.contains("behavior"@) <==> a.behavior != b.behavior
            &&& changed.contains("workspaces"@) <==> a.workspaces.count != b.workspaces.count
            &&& changed.contains("general"@) <==> a.general.log_level@ != b.general.log_level@
            &&& changed.contains("borders"@) <==> {
                ||| a.borders.enabled != b.borders.enabled
                ||| a.borders.width != b.borders.width
                ||| a.borders.active_color@ != b.borders.active_color@
                ||| a.borders.inactive_color@ != b.borders.inactive_color@
                ||| a.borders.floating_color@ != b.borders.floating_color@
                ||| a.borders.show_inactive != b.borders.show_inactive
                ||| a.borders.disable_when_fullscreen != b.borders.disable_when_fullscreen
            }
            &&& {
                ||| a.layout.default@ != b.layout.default@
                ||| a.layout.master_ratio_percent != b.layout.master_ratio_percent
                ||| a.layout.smart_split != b.layout.smart_split
                ||| a.layout.preserve_split != b.layout.preserve_split
                ||| a.layout.per_monitor@.len() != b.layout.per_monitor@.len()
                ||| a.layout.per_workspace@.len() != b.layout.per_workspace@.len()
                ||| 0 <= i < a.layout.per_monitor@.len() && (a.layout.per_monitor@[i].0@
                    != b.layout.per_monitor@[i].0@ || a.layout.per_monitor@[i].1.gap
                    != b.layout.per_monitor@[i].1.gap || a.layout.per_monitor@[i].1.border
                    != b.layout.per_monitor@[i].1.border)
                ||| 0 <= i < a.layout.per_workspace@.len() && (a.layout.per_workspace@[i].0@
                    != b.layout.per_workspace@[i].0@ || a.layout.per_workspace@[i].1.gap
                    != b.layout.per_workspace@[i].1.gap || a.layout.per_workspace@[i].1.border
                    != b.layout.per_workspace@[i].1.border)
            } ==> changed.contains("layout"@)
            &&& {
                ||| a.hotkeys.mode != b.hotkeys.mode
                ||| a.hotkeys.panic_hotkey@ != b.hotkeys.panic_hotkey@
                ||| a.hotkeys.override_latency_budget_micros != b.hotkeys.override_latency_budget_micros
                ||| a.hotkeys.bypass.fullscreen != b.hotkeys.bypass.fullscreen
                ||| a.hotkeys.modifier_drag.enabled != b.hotkeys.modifier_drag.enabled
                ||| a.hotkeys.modifier_drag.modifiers@ != b.hotkeys.modifier_drag.modifiers@
                ||| a.hotkeys.bindings@.len() != b.hotkeys.bindings@.len()
                ||| 0 <= i < a.hotkeys.bindings@.len() && (a.hotkeys.bindings@[i].keys@
                    != b.hotkeys.bindings@[i].keys@ || a.hotkeys.bindings@[i].override_app
                    != b.hotkeys.bindings@[i].override_app)
            } ==> changed.contains("hotkeys"@)
            &&& {
                ||| a.window_rules@.len() != b.window_rules@.len()
                ||| 0 <= i < a.window_rules@.len() && (a.window_rules@[i].action.manage
                    != b.window_rules@[i].action.manage || a.window_rules@[i].action.float
                    != b.window_rules@[i].action.float || a.window_rules@[i].action.mode
                    != b.window_rules@[i].action.mode || a.window_rules@[i].action.target_workspace
                    != b.window_rules@[i].action.target_workspace
                    || a.window_rules@[i].action.always_on_workspace
                    != b.window_rules@[i].action.always_on_workspace)
            } ==> changed.contains("window-rules"@)
            &&& {
                ||| a.game_mode.enabled != b.game_mode.enabled
                ||| a.game_mode.pause_on_fullscreen != b.game_mode.pause_on_fullscreen
                ||| a.game_mode.fullscreen_tolerance_px != b.game_mode.fullscreen_tolerance_px
                ||| a.game_mode.pause_all_layouts_when_game_focused
                    != b.game_mode.pause_all_layouts_when_game_focused
                ||| a.game_mode.pause_focused_monitor_only != b.game_mode.pause_focused_monitor_only
                ||| a.game_mode.disable_borders != b.game_mode.disable_borders
                ||| a.game_mode.disable_animations != b.game_mode.disable_animations
                ||| a.game_mode.disable_keyboard_hooks != b.game_mode.disable_keyboard_hooks
                ||| a.game_mode.game_exes@.len() != b.game_mode.game_exes@.len()
                ||| a.game_mode.ignored_exes@.len() != b.game_mode.ignored_exes@.len()
                ||| 0 <= i < a.game_mode.game_exes@.len() && a.game_mode.game_exes@[i]@
                    != b.game_mode.game_exes@[i]@
                ||| 0 <= i < a.game_mode.ignored_exes@.len() && a.game_mode.ignored_exes@[i]@
                    != b.game_mode.ignored_exes@[i]@
            } ==> changed.contains("game-mode"@)
        }),
{
    lemma_section_names_differ();
    let all = seq![
        "hotkeys"@,
        "layout"@,
        "gaps"@,
        "borders"@,
        "window-rules"@,
        "behavior"@,
        "game-mode"@,
        "workspaces"@,
        "general"@,
    ];
    assert(all[0] != all[1] && all[0] != all[2] && all[0] != all[3] && all[0] != all[4] && all[0]
        != all[5] && all[0] != all[6] && all[0] != all[7] && all[0] != all[8]);
    assert(all[1] != all[2] && all[1] != all[3] && all[1] != all[4] && all[1] != all[5] && all[1]
        != all[6] && all[1] != all[7] && all[1] != all[8]);
    assert(all[2] != all[3] && all[2] != all[4] && all[2] != all[5] && all[2] != all[6] && all[2]
        != all[7] && all[2] != all[8]);
    assert(all[3] != all[4] && all[3] != all[5] && all[3] != all[6] && all[3] != all[7] && all[3]
        != all[8]);
    assert(all[4] != all[5] && all[4] != all[6] && all[4] != all[7] && all[4] != all[8]);
    assert(all[5] != all[6] && all[5] != all[7] && all[5] != all[8]);
    assert(all[6] != all[7] && all[6] != all[8] && all[7] != all[8]);
    lemma_changed_names(a, b, "gaps"@);
    lemma_changed_names(a, b, "behavior"@);
    lemma_changed_names(a, b, "workspaces"@);
    lemma_changed_names(a, b, "general"@);
    lemma_changed_names(a, b, "borders"@);
    lemma_changed_names(a, b, "layout"@);
    lemma_changed_names(a, b, "hotkeys"@);
    lemma_changed_names(a, b, "window-rules"@);
    lemma_changed_names(a, b, "game-mode"@);
}

/// The general layout has the values that the settings give, put in order, and the layout that they name;
/// a name that no layout has means the master-stack layout.
pub proof fn general_layout_is_the_one_set(config: Config)
    ensures
        ({
            let layout = config.general_layout();
            let name = config.layout.default@;
            let ratio = config.layout.master_ratio_percent;
            &&& layout.gap == config.layout.gap && layout.border == config.layout.border
            &&& 10 <= ratio <= 90 ==> layout.master_ratio_percent == ratio
            &&& layout.smart_split == config.layout.smart_split
            &&& !config.layout.smart_split ==> layout.preserve_split == config.layout.preserve_split
            &&& name == "dwindle"@ ==> layout.kind == LayoutKind::Dwindle
            &&& name == "vertical-stack"@ ==> layout.kind == LayoutKind::VerticalStack
            &&& name == "horizontal-stack"@ ==> layout.kind == LayoutKind::HorizontalStack
            &&& name == "master-stack"@ ==> layout.kind == LayoutKind::MasterStack
            &&& name != "dwindle"@ && name != "vertical-stack"@ && name != "horizontal-stack"@
                ==> layout.kind == LayoutKind::MasterStack
        }),
{
    let set = crate::runtime_config::LayoutOverride {
        layout: Some(config.layout.default),
        gap: Some(config.layout.gap),
        border: Some(config.layout.border),
        master_ratio_percent: Some(config.layout.master_ratio_percent),
        smart_split: Some(config.layout.smart_split),
        preserve_split: Some(config.layout.preserve_split),
    };
    let base = crate::layout::LayoutConfig {
        kind: LayoutKind::MasterStack,
        gap: 0,
        border: 0,
        master_ratio_percent: 50,
        smart_split: false,
        preserve_split: false,
    };
    what_is_set_replaces_what_was(base, set);
}

/// Borders have the width and the colours that the settings give, each under its own name; the first colour
/// that cannot be read is the one complained of.
pub proof fn borders_are_as_set(config: Config)
    ensures
        ({
            let set = config.borders;
            match RuntimeBorderConfig::made_of(set) {
                Ok(made) => {
                    &&& parsed_color(set.active_color@) == Ok::<
                        crate::border::BorderColor,
                        crate::runtime_config::BorderColorError,
                    >(made.active_color)
                    &&& parsed_color(set.inactive_color@) == Ok::<
                        crate::border::BorderColor,
                        crate::runtime_config::BorderColorError,
                    >(made.inactive_color)
                    &&& parsed_color(set.floating_color@) == Ok::<
                        crate::border::BorderColor,
                        crate::runtime_config::BorderColorError,
                    >(made.floating_color)
                    &&& made.enabled == set.enabled && made.width == set.width && made.show_inactive
                        == set.show_inactive && made.disable_when_fullscreen
                        == set.disable_when_fullscreen
                },
                Err(BorderConfigError::ActiveColor(_)) => parsed_color(set.active_color@) is Err,
                Err(BorderConfigError::InactiveColor(_)) => parsed_color(set.active_color@) is Ok
                    && parsed_color(set.inactive_color@) is Err,
                Err(BorderConfigError::FloatingColor(_)) => parsed_color(set.active_color@) is Ok
                    && parsed_color(set.inactive_color@) is Ok && parsed_color(set.floating_color@) is Err,
            }
        }),
{
}

/// Windows that hotkeys spare are those that the settings for hotkeys name. While game mode is to rest the
/// hooks, games and executables that are passed over are spared too, by their exact names, and
/// fullscreen windows where these are games.
pub proof fn games_are_spared_while_hooks_rest(rules: HotkeyBypassRules, config: Config, i: int)
    requires
        are_bypass_rules(rules, config),
    ensures
        ({
            let rests = config.game_mode.enabled && config.game_mode.disable_keyboard_hooks;
            let named = config.hotkeys.bypass.process_name@.len();
            &&& config.hotkeys.bypass.fullscreen ==> rules.fullscreen
            &&& rests && config.game_mode.pause_on_fullscreen ==> rules.fullscreen
            &&& !config.hotkeys.bypass.fullscreen && (!rests || !config.game_mode.pause_on_fullscreen)
                ==> !rules.fullscreen
            &&& !rests ==> rules.process_names@.len() == named
            &&& rests ==> rules.process_names@.len() == named + config.game_mode.game_exes@.len()
                + config.game_mode.ignored_exes@.len()
            &&& rests && 0 <= i < config.game_mode.game_exes@.len() ==> {
                let matcher = rules.process_names@[named + i];
                matcher is Exact && matcher.pattern() == config.game_mode.game_exes@[i]@
            }
            &&& rests && 0 <= i < config.game_mode.ignored_exes@.len() ==> {
                let matcher = rules.process_names@[named + config.game_mode.game_exes@.len() + i];
                matcher is Exact && matcher.pattern() == config.game_mode.ignored_exes@[i]@
            }
            &&& rules.class_names@.len() == config.hotkeys.bypass.class@.len()
            &&& rules.executable_paths@.len() == config.hotkeys.bypass.executable_path@.len()
        }),
{
    let names = config.game_mode.game_exes@ + config.game_mode.ignored_exes@;
    let named = config.hotkeys.bypass.process_name@.len();
    let games = config.game_mode.game_exes@.len();
    if config.game_mode.enabled && config.game_mode.disable_keyboard_hooks {
        if 0 <= i < games {
            assert(names[i] == config.game_mode.game_exes@[i]);
            let matcher = rules.process_names@[named + i];
        }
        if 0 <= i < config.game_mode.ignored_exes@.len() {
            assert(names[games + i] == config.game_mode.ignored_exes@[i]);
            let matcher = rules.process_names@[named + (games + i)];
        }
    }
}

/// A binding is refused exactly if it names a command that there is not, neither a command nor something
/// to launch, nothing to launch, or keys that there are not; the first of these is complained of.
pub proof fn bindings_are_refused_for_a_reason(binding: crate::commands::HotkeyBindingConfig)
    ensures
        ({
            let error = setting_error(binding);
            let known = binding.command is Some && crate::commands::command_named(
                trimmed(binding.command.unwrap()@),
            ) is Some;
            let launches = binding.command is None && binding.launch is Some && trimmed(
                binding.launch.unwrap()@,
            ).len() > 0;
            let keys = crate::chord::chord_named(binding.keys@) is Some;
            &&& error is None <==> (known || launches) && keys
            &&& error == Some(HotkeySettingError::UnknownKeys) <==> (known || launches) && !keys
            &&& error == Some(HotkeySettingError::Binding(HotkeyBindingError::UnknownCommand))
                <==> binding.command is Some && !known
            &&& error == Some(HotkeySettingError::Binding(HotkeyBindingError::NothingSet))
                <==> binding.command is None && binding.launch is None
            &&& error == Some(HotkeySettingError::Binding(HotkeyBindingError::EmptyLaunch))
                <==> binding.command is None && binding.launch is Some && !launches
        }),
{
}

/// The settings are in order exactly if the colours can be read, each binding is in order, the panic
/// hotkey can be read where keys are intercepted, and so can the modifiers for drags where these are on.
pub proof fn settings_are_in_order_if_all_can_be_read(config: Config, i: int)
    ensures
        config.is_valid() ==> {
            &&& parsed_color(config.borders.active_color@) is Ok
            &&& parsed_color(config.borders.inactive_color@) is Ok
            &&& parsed_color(config.borders.floating_color@) is Ok
            &&& 0 <= i < config.hotkeys.bindings@.len() ==> setting_error(config.hotkeys.bindings@[i])
                is None
            &&& config.hotkeys.mode is AdvancedInterception ==> crate::chord::chord_named(
                config.hotkeys.panic_hotkey@,
            ) is Some
            &&& config.hotkeys.modifier_drag.enabled ==> crate::chord::modifiers_named(
                crate::chord::names(config.hotkeys.modifier_drag.modifiers@),
            ) is Some
        },
        !config.is_valid() ==> {
            ||| parsed_color(config.borders.active_color@) is Err
            ||| parsed_color(config.borders.inactive_color@) is Err
            ||| parsed_color(config.borders.floating_color@) is Err
            ||| exists|j: int|
                0 <= j < config.hotkeys.bindings@.len() && setting_error(
                    #[trigger] config.hotkeys.bindings@[j],
                ) is Some
            ||| config.hotkeys.mode is AdvancedInterception && crate::chord::chord_named(
                config.hotkeys.panic_hotkey@,
            ) is None
            ||| config.hotkeys.modifier_drag.enabled && crate::chord::modifiers_named(
                crate::chord::names(config.hotkeys.modifier_drag.modifiers@),
            ) is None
        },
{
}

/// The daemon goes by the settings: each of its settings is the one of the same name, the rules keep their
/// order and their actions, and a rule without a name is named by its number.
#[verifier::rlimit(50)]
pub proof fn daemon_goes_by_the_settings(made: RuntimeConfig, config: Config, i: int)
    requires
        made.is_made_of(config),
    ensures
        made.layout == config.general_layout(),
        made.workspace_count == config.workspaces.count,
        made.startup_retile == config.behavior.startup_retile,
        made.dynamic_retile == config.behavior.dynamic_retile,
        made.drag_to_float == config.behavior.drag_to_float,
        made.retile_on_drag_end == config.behavior.retile_on_drag_end,
        made.overflow_focus_policy == config.behavior.overflow_focus_policy,
        made.overflow_float_persistence == config.behavior.overflow_float_persistence,
        made.borders.enabled == config.borders.enabled,
        made.borders.width == config.borders.width,
        made.borders.show_inactive == config.borders.show_inactive,
        made.borders.disable_when_fullscreen == config.borders.disable_when_fullscreen,
        made.game_mode.policy.enabled == config.game_mode.enabled,
        made.game_mode.policy.pause_on_fullscreen == config.game_mode.pause_on_fullscreen,
        made.game_mode.policy.fullscreen_tolerance_px == config.game_mode.fullscreen_tolerance_px,
        made.game_mode.pause_all_layouts_when_game_focused
            == config.game_mode.pause_all_layouts_when_game_focused,
        made.game_mode.pause_focused_monitor_only == config.game_mode.pause_focused_monitor_only,
        made.game_mode.disable_borders == config.game_mode.disable_borders,
        made.game_mode.disable_animations == config.game_mode.disable_animations,
        made.game_mode.disable_keyboard_hooks == config.game_mode.disable_keyboard_hooks,
        made.game_mode.policy.game_exes@.len() == config.game_mode.game_exes@.len(),
        made.game_mode.policy.ignored_exes@.len() == config.game_mode.ignored_exes@.len(),
        0 <= i < config.game_mode.game_exes@.len() ==> made.game_mode.policy.game_exes@[i]@
            == config.game_mode.game_exes@[i]@,
        0 <= i < config.game_mode.ignored_exes@.len() ==> made.game_mode.policy.ignored_exes@[i]@
            == config.game_mode.ignored_exes@[i]@,
        made.window_rules@.len() == config.window_rules@.len(),
        0 <= i < config.window_rules@.len() ==> {
            let rule = made.window_rules@[i];
            let set = config.window_rules@[i];
            &&& set.name matches Some(name) ==> rule.name@ == name@
            &&& set.name is None ==> rule.name@ == "rule-"@ + numeral((i + 1) as nat, 10)
            &&& rule.action.manage == set.action.manage
            &&& rule.action.float == set.action.float
            &&& rule.action.mode == set.action.mode
            &&& rule.action.target_workspace == set.action.target_workspace
            &&& rule.action.always_on_workspace == set.action.always_on_workspace
            &&& rule.matcher.class_name is Some <==> set.matcher.class_name is Some
            &&& rule.matcher.title is Some <==> set.matcher.title is Some
            &&& rule.matcher.executable_path is Some <==> set.matcher.executable_path is Some
            &&& rule.matcher.process_name is Some <==> set.matcher.process_name is Some
        },
        made.layout_per_monitor@.len() == config.layout.per_monitor@.len(),
        0 <= i < config.layout.per_monitor@.len() ==> made.layout_per_monitor@[i].0@
            == config.layout.per_monitor@[i].0@ && made.layout_per_monitor@[i].1
            == crate::runtime_config::overridden_layout(
            config.general_layout(),
            config.layout.per_monitor@[i].1,
        ),
{
    if 0 <= i < config.window_rules@.len() {
        let rule = made.window_rules@[i];
    }
    if 0 <= i < config.game_mode.game_exes@.len() {
        let name = made.game_mode.policy.game_exes@[i];
    }
    if 0 <= i < config.game_mode.ignored_exes@.len() {
        let name = made.game_mode.policy.ignored_exes@[i];
    }
}

/// Of the layouts that are set for workspaces, the last one under a number holds for the workspace with that
/// number; a name that is no number sets nothing.
pub proof fn workspace_layouts_go_by_number(
    base: crate::layout::LayoutConfig,
    set: Seq<(String, crate::runtime_config::LayoutOverride)>,
    at: int,
    number: u16,
)
    ensures
        ({
            let layouts = workspace_layouts(base, set);
            let names = |i: int| parsed(set[i].0@, 10, 0xffff) == Some(number as nat);
            &&& 0 <= at < set.len() && names(at) && (forall|i: int|
                at < i < set.len() ==> !#[trigger] names(i)) ==> layouts.contains_key(number as u64)
                && layouts[number as u64] == crate::runtime_config::overridden_layout(base, set[at].1)
            &&& (forall|i: int| 0 <= i < set.len() ==> !#[trigger] names(i))
                ==> !layouts.contains_key(number as u64)
        }),
    decreases set.len(),
{
    if set.len() > 0 {
        let rest = set.drop_last();
        workspace_layouts_go_by_number(base, rest, at, number);
        let names = |i: int| parsed(set[i].0@, 10, 0xffff) == Some(number as nat);
        let before = |i: int| parsed(rest[i].0@, 10, 0xffff) == Some(number as nat);
        assert(set[set.len() - 1] == set.last());
        assert forall|i: int| 0 <= i < rest.len() implies #[trigger] before(i) == names(i) by {
            assert(rest[i] == set[i]);
        }
        assert(names(set.len() - 1) == (parsed(set.last().0@, 10, 0xffff) == Some(number as nat)));
        if 0 <= at < rest.len() {
            assert(rest[at] == set[at]);
        }
    }
}

/// The hotkeys are numbered from one in the order of the settings, each with the keys that are written
/// there; applications are kept from seeing one only where keys are intercepted and it says so.
pub proof fn hotkeys_are_bound_as_set(
    set: Seq<crate::commands::HotkeyBindingConfig>,
    intercepting: bool,
    bindings: Seq<crate::hotkey::HotkeyBinding>,
    commands: Seq<crate::commands::DaemonCommand>,
    i: int,
)
    requires
        are_bindings(set, intercepting, bindings, commands),
        0 <= i < set.len(),
    ensures
        bindings.len() == set.len() && commands.len() == set.len(),
        bindings[i].id.0 == i + 1,
        bindings[i].suppress_app <==> intercepting && set[i].override_app,
        crate::chord::chord_named(set[i].keys@) matches Some(chord) && bindings[i].modifiers
            == crate::commands::modifier_set(chord.0) && bindings[i].virtual_key
            == crate::commands::key_code(chord.1),
        set[i].command matches Some(name) ==> crate::commands::command_named(trimmed(name@)) == Some(
            commands[i],
        ),
        set[i].command is None ==> (set[i].launch matches Some(line) && (
        commands[i] matches crate::commands::DaemonCommand::Launch(text) && text@ == trimmed(line@))),
{
    let binding = bindings[i];
    let description = choose|description: String| #[trigger]
        is_binding_at(set[i], i, intercepting, binding, commands[i], description);
    assert(is_binding_at(set[i], i, intercepting, binding, commands[i], description));
}

} // verus!
