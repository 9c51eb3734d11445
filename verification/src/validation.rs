//! Which settings the daemon can use.

use vstd::prelude::*;

use crate::chord::{chord_named, modifiers_named, names};
use crate::commands::HotkeyBindingConfig;
use crate::config::{BorderConfigError, Config, HotkeyMode};
use crate::hotkey_settings::{
    are_usable, hotkey_override_options_from_config, hotkey_setting_error,
    modifier_drag_options_from_config, setting_error, HotkeySettingError,
};
use crate::runtime_config::RuntimeBorderConfig;

verus! {

/// Why settings cannot be used: a colour of the borders, the hotkey at a place, the panic hotkey, or the
/// modifiers by which windows are dragged.
#[derive(Debug, Clone, Copy, PartialEq, Eq, Structural)]
pub enum SettingsError {
    Borders(BorderConfigError),
    Hotkey { place: usize, error: HotkeySettingError },
    PanicHotkey,
    ModifierDrag,
}

impl Config {
    /// Whether the panic hotkey can be used; it has to be known only where keys are intercepted.
    pub open spec fn has_usable_panic_hotkey(self) -> bool {
        self.hotkeys.mode is AdvancedInterception ==> chord_named(self.hotkeys.panic_hotkey@) is Some
    }

    /// Whether windows can be dragged by the modifiers; they have to be known only where that is on.
    pub open spec fn has_usable_modifier_drag(self) -> bool {
        self.hotkeys.modifier_drag.enabled ==> modifiers_named(
            names(self.hotkeys.modifier_drag.modifiers@),
        ) is Some
    }

    /// Whether the daemon can use the settings.
    pub open spec fn is_valid(self) -> bool {
        &&& RuntimeBorderConfig::made_of(self.borders) is Ok
        &&& are_usable(self.hotkeys.bindings@)
        &&& self.has_usable_panic_hotkey()
        &&& self.has_usable_modifier_drag()
    }

    /// Whether this is the first thing that keeps the daemon from using the settings: the borders are
    /// looked at first, then the hotkeys one by one, the panic hotkey, and the modifiers.
    pub open spec fn is_refused_for(self, error: SettingsError) -> bool {
        let borders = RuntimeBorderConfig::made_of(self.borders);
        let configured = self.hotkeys.bindings@;
        match error {
            SettingsError::Borders(error) => borders == Err::<RuntimeBorderConfig, _>(error),
            SettingsError::Hotkey { place, error } => {
                &&& borders is Ok
                &&& place < configured.len()
                &&& setting_error(configured[place as int]) == Some(error)
                &&& are_usable(configured.take(place as int))
            },
            SettingsError::PanicHotkey => {
                &&& borders is Ok
                &&& are_usable(configured)
                &&& !self.has_usable_panic_hotkey()
            },
            SettingsError::ModifierDrag => {
                &&& borders is Ok
                &&& are_usable(configured)
                &&& self.has_usable_panic_hotkey()
                &&& !self.has_usable_modifier_drag()
            },
        }
    }

    /// Checks that the daemon can use the settings; or says what keeps it from that.
    pub fn validate(&self) -> (r: Result<(), SettingsError>)
        ensures
            match r {
                Ok(_) => self.is_valid(),
                Err(error) => self.is_refused_for(error),
            },
    {
        if let Err(error) = RuntimeBorderConfig::from_config(&self.borders) {
            return Err(SettingsError::Borders(error));
        }
        let configured: &Vec<HotkeyBindingConfig> = &self.hotkeys.bindings;
        let mut place: usize = 0;
        while place < configured.len()
            invariant
                place <= configured.len(),
                configured == self.hotkeys.bindings,
                RuntimeBorderConfig::made_of(self.borders) is Ok,
                are_usable(configured@.take(place as int)),
            decreases configured.len() - place,
        {
            if let Some(error) = hotkey_setting_error(&configured[place]) {
                return Err(SettingsError::Hotkey { place, error });
            }
            proof {
                let longer = configured@.take(place + 1);
                assert forall|i: int| 0 <= i < longer.len() implies setting_error(
                    #[trigger] longer[i],
                ) is None by {
                    if i < place {
                        assert(longer[i] == configured@.take(place as int)[i]);
                    }
                }
            }
            place = place + 1;
        }
        proof {
            assert(configured@.take(place as int) =~= configured@);
        }
        if self.hotkeys.mode == HotkeyMode::AdvancedInterception
            && hotkey_override_options_from_config(self).is_err() {
            return Err(SettingsError::PanicHotkey);
        }
        if modifier_drag_options_from_config(self).is_err() {
            return Err(SettingsError::ModifierDrag);
        }
        Ok(())
    }
}

/// Settings are refused for one reason only, and only if they are not valid.
pub proof fn refusal_has_one_reason(config: Config, error: SettingsError, other: SettingsError)
    requires
        config.is_refused_for(error),
    ensures
        !config.is_valid(),
        config.is_refused_for(other) ==> other == error,
{
    let configured = config.hotkeys.bindings@;
    if config.is_refused_for(other) && error is Hotkey {
        let place = error->place;
        if let SettingsError::Hotkey { place: second, .. } = other {
            if place < second {
                assert(configured.take(second as int)[place as int] == configured[place as int]);
            } else if second < place {
                assert(configured.take(place as int)[second as int] == configured[second as int]);
            }
        }
    }
}

} // verus!
