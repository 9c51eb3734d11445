//! What the hotkeys of the settings become: bindings with their commands, and how keys are intercepted
//! and windows dragged.

use vstd::prelude::*;

use crate::chord::{chord_named, modifiers_named, names, parse_hotkey_chord, parse_hotkey_modifiers};
use crate::commands::{
    command_named, daemon_command_from_binding, hotkey_modifier_set_from_modifiers, is_binding_result,
    key_code, modifier_set, virtual_key_from_config, DaemonCommand, HotkeyBindingConfig,
    HotkeyBindingError, HotkeyCommandMap,
};
use crate::config::{are_bypass_rules, hotkey_bypass_rules_from_config, Config, HotkeyMode};
use crate::hotkey::{
    HotkeyBinding, HotkeyId, HotkeyLowLevelEvent, HotkeyOverrideOptions, ModifierDragOptions,
};
use crate::text::trimmed;

verus! {

/// Why a hotkey of the settings cannot be used: it says nothing that can be done, or its keys are not
/// known.
#[derive(Debug, Clone, Copy, PartialEq, Eq, Structural)]
pub enum HotkeySettingError {
    Binding(HotkeyBindingError),
    UnknownKeys,
}

/// What keeps a hotkey of the settings from being used, if anything does. What it is to do is looked
/// at first.
pub open spec fn setting_error(binding: HotkeyBindingConfig) -> Option<HotkeySettingError> {
    if binding.command is Some && command_named(trimmed(binding.command.unwrap()@)) is None {
        Some(HotkeySettingError::Binding(HotkeyBindingError::UnknownCommand))
    } else if binding.command is None && binding.launch is None {
        Some(HotkeySettingError::Binding(HotkeyBindingError::NothingSet))
    } else if binding.command is None && trimmed(binding.launch.unwrap()@).len() == 0 {
        Some(HotkeySettingError::Binding(HotkeyBindingError::EmptyLaunch))
    } else if chord_named(binding.keys@) is None {
        Some(HotkeySettingError::UnknownKeys)
    } else {
        None
    }
}

/// Whether a binding and a command are those of a hotkey of the settings that stands at a place, with
/// a description.
pub open spec fn is_binding_at(
    configured: HotkeyBindingConfig,
    place: int,
    intercepting: bool,
    binding: HotkeyBinding,
    command: DaemonCommand,
    description: String,
) -> bool {
    &&& is_binding_result(configured, Ok((command, description)))
    &&& binding.id.0 == place + 1
    &&& chord_named(configured.keys@) matches Some(chord) && binding.modifiers == modifier_set(chord.0)
        && binding.virtual_key == key_code(chord.1)
    &&& binding.description@ == description@
    &&& binding.suppress_app == (intercepting && configured.override_app)
}

/// Whether a binding and a command are those of a hotkey of the settings that stands at a place.
pub open spec fn stands_for(
    configured: HotkeyBindingConfig,
    place: int,
    intercepting: bool,
    binding: HotkeyBinding,
    command: DaemonCommand,
) -> bool {
    exists|description: String| #[trigger]
        is_binding_at(configured, place, intercepting, binding, command, description)
}

/// Whether bindings and commands are those of the hotkeys of the settings, numbered from one on.
pub open spec fn are_bindings(
    configured: Seq<HotkeyBindingConfig>,
    intercepting: bool,
    bindings: Seq<HotkeyBinding>,
    commands: Seq<DaemonCommand>,
) -> bool {
    &&& bindings.len() == configured.len()
    &&& commands.len() == configured.len()
    &&& forall|i: int|
        0 <= i < configured.len() ==> stands_for(
            configured[i],
            i,
            intercepting,
            #[trigger] bindings[i],
            commands[i],
        )
}

/// Whether every one of some hotkeys of the settings can be used.
pub open spec fn are_usable(configured: Seq<HotkeyBindingConfig>) -> bool {
    forall|i: int| 0 <= i < configured.len() ==> setting_error(#[trigger] configured[i]) is None
}

/// What keeps a hotkey of the settings from being used, if anything does.
pub fn hotkey_setting_error(binding: &HotkeyBindingConfig) -> (r: Option<HotkeySettingError>)
    ensures
        r == setting_error(*binding),
{
    if let Err(error) = daemon_command_from_binding(binding) {
        return Some(HotkeySettingError::Binding(error));
    }
    if parse_hotkey_chord(&binding.keys).is_none() {
        return Some(HotkeySettingError::UnknownKeys);
    }
    None
}

/// The bindings and commands of the hotkeys of the settings; or the place of the first one that cannot
/// be used, and why. A key is kept from the application only where keys are intercepted and the hotkey
/// says so.
pub fn hotkey_bindings_from_config(config: &Config) -> (r: Result<
    (Vec<HotkeyBinding>, HotkeyCommandMap),
    (usize, HotkeySettingError),
>)
    requires
        config.hotkeys.bindings.len() < i32::MAX,
    ensures
        match r {
            Ok(found) => {
                &&& are_usable(config.hotkeys.bindings@)
                &&& are_bindings(
                    config.hotkeys.bindings@,
                    config.hotkeys.mode is AdvancedInterception,
                    found.0@,
                    found.1.commands@,
                )
            },
            Err(refused) => {
                &&& refused.0 < config.hotkeys.bindings.len()
                &&& setting_error(config.hotkeys.bindings@[refused.0 as int]) == Some(refused.1)
                &&& are_usable(config.hotkeys.bindings@.take(refused.0 as int))
            },
        },
{
    let configured: &Vec<HotkeyBindingConfig> = &config.hotkeys.bindings;
    let intercepting: bool = config.hotkeys.mode == HotkeyMode::AdvancedInterception;
    let mut bindings: Vec<HotkeyBinding> = Vec::new();
    let mut commands: Vec<DaemonCommand> = Vec::new();
    let mut index: usize = 0;
    while index < configured.len()
        invariant
            index <= configured.len() < i32::MAX,
            configured == config.hotkeys.bindings,
            intercepting == (config.hotkeys.mode is AdvancedInterception),
            are_usable(configured@.take(index as int)),
            are_bindings(configured@.take(index as int), intercepting, bindings@, commands@),
        decreases configured.len() - index,
    {
        let ghost bindings_before = bindings@;
        let ghost commands_before = commands@;
        match daemon_command_from_binding(&configured[index]) {
            Err(error) => {
                return Err((index, HotkeySettingError::Binding(error)));
            },
            Ok((command, description)) => {
                match parse_hotkey_chord(&configured[index].keys) {
                    None => {
                        return Err((index, HotkeySettingError::UnknownKeys));
                    },
                    Some(chord) => {
                        let binding: HotkeyBinding = HotkeyBinding::new(
                            HotkeyId((index + 1) as i32),
                            hotkey_modifier_set_from_modifiers(&chord.modifiers),
                            virtual_key_from_config(&chord.key),
                            &description,
                        ).with_suppression(intercepting && configured[index].override_app);
                        bindings.push(binding);
                        commands.push(command);
                        proof {
                            let longer = configured@.take(index + 1);
                            assert forall|i: int| 0 <= i < longer.len() implies stands_for(
                                longer[i],
                                i,
                                intercepting,
                                #[trigger] bindings@[i],
                                commands@[i],
                            ) by {
                                if i < index {
                                    assert(bindings@[i] == bindings_before[i]);
                                    assert(commands@[i] == commands_before[i]);
                                    assert(longer[i] == configured@.take(index as int)[i]);
                                } else {
                                    assert(is_binding_at(
                                        longer[i],
                                        i,
                                        intercepting,
                                        bindings@[i],
                                        commands@[i],
                                        description,
                                    ));
                                }
                            }
                            assert forall|i: int| 0 <= i < longer.len() implies setting_error(
                                #[trigger] longer[i],
                            ) is None by {
                                if i < index {
                                    assert(longer[i] == configured@.take(index as int)[i]);
                                }
                            }
                        }
                    },
                }
            },
        }
        index = index + 1;
    }
    proof {
        assert(configured@.take(index as int) =~= configured@);
    }
    Ok((bindings, HotkeyCommandMap { commands }))
}

/// How intercepted keys are treated; or that the keys of the panic hotkey are not known.
pub fn hotkey_override_options_from_config(config: &Config) -> (r: Result<
    HotkeyOverrideOptions,
    HotkeySettingError,
>)
    ensures
        match chord_named(config.hotkeys.panic_hotkey@) {
            Some(chord) => {
                &&& r matches Ok(options)
                &&& options.panic_hotkey.modifiers == modifier_set(chord.0)
                &&& options.panic_hotkey.virtual_key == key_code(chord.1)
                &&& are_bypass_rules(options.bypass, *config)
                &&& options.latency_budget_micros == config.hotkeys.override_latency_budget_micros
            },
            None => r == Err::<HotkeyOverrideOptions, _>(HotkeySettingError::UnknownKeys),
        },
{
    match parse_hotkey_chord(&config.hotkeys.panic_hotkey) {
        Some(chord) => Ok(
            HotkeyOverrideOptions {
                panic_hotkey: HotkeyLowLevelEvent {
                    modifiers: hotkey_modifier_set_from_modifiers(&chord.modifiers),
                    virtual_key: virtual_key_from_config(&chord.key),
                },
                bypass: hotkey_bypass_rules_from_config(config),
                latency_budget_micros: config.hotkeys.override_latency_budget_micros,
            },
        ),
        None => Err(HotkeySettingError::UnknownKeys),
    }
}

/// How windows are dragged with the modifier keys that are set, if they are; or that the modifiers are
/// not known.
pub fn modifier_drag_options_from_config(config: &Config) -> (r: Result<
    Option<ModifierDragOptions>,
    HotkeySettingError,
>)
    ensures
        if !config.hotkeys.modifier_drag.enabled {
            r == Ok::<Option<ModifierDragOptions>, HotkeySettingError>(None)
        } else {
            match modifiers_named(names(config.hotkeys.modifier_drag.modifiers@)) {
                Some(modifiers) => {
                    &&& r matches Ok(Some(options))
                    &&& options.modifiers == modifier_set(modifiers)
                    &&& are_bypass_rules(options.bypass, *config)
                },
                None => r == Err::<Option<ModifierDragOptions>, _>(HotkeySettingError::UnknownKeys),
            }
        },
{
    if !config.hotkeys.modifier_drag.enabled {
        return Ok(None);
    }
    match parse_hotkey_modifiers(&config.hotkeys.modifier_drag.modifiers) {
        Some(modifiers) => Ok(
            Some(
                ModifierDragOptions {
                    modifiers: hotkey_modifier_set_from_modifiers(&modifiers),
                    bypass: hotkey_bypass_rules_from_config(config),
                },
            ),
        ),
        None => Err(HotkeySettingError::UnknownKeys),
    }
}

} // verus!
