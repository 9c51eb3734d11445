//! What follows when the settings are read again while the daemon runs.

use vstd::prelude::*;

use crate::commands::HotkeyCommandMap;
use crate::config::{
    changed_names, name_views, reload_is_no_change_iff_no_section_changed, reported_names, Config,
    ConfigDiff,
};
use crate::daemon_state::DaemonState;
use crate::hotkey::HotkeyBinding;
use crate::hotkey_settings::{are_bindings, hotkey_bindings_from_config};
use crate::runtime_config::RuntimeConfig;
use crate::validation::SettingsError;

verus! {

/// What a reload begins with: nothing changed, or there are new settings and hotkeys.
#[derive(Debug, Clone, PartialEq, Eq)]
pub enum ReloadStart {
    Unchanged,
    Changed { config: RuntimeConfig, bindings: Vec<HotkeyBinding>, commands: HotkeyCommandMap },
}

/// Whether a reload from some settings to others begins like this.
pub open spec fn begins(old_config: Config, new_config: Config, start: ReloadStart) -> bool {
    match start {
        ReloadStart::Unchanged => changed_names(old_config, new_config).len() == 0,
        ReloadStart::Changed { config, bindings, commands } => {
            &&& changed_names(old_config, new_config).len() > 0
            &&& config.wf()
            &&& config.is_made_of(new_config)
            &&& are_bindings(
                new_config.hotkeys.bindings@,
                new_config.hotkeys.mode is AdvancedInterception,
                bindings@,
                commands.commands@,
            )
        },
    }
}

impl DaemonState {
    /// Checks new settings, counts their reload and makes of them what the daemon needs; says which
    /// sections changed. Settings that cannot be used are refused, and nothing is counted.
    pub fn begin_reload(&mut self, old_config: &Config, new_config: &Config) -> (r: Result<
        (ConfigDiff, ReloadStart),
        SettingsError,
    >)
        requires
            old(self).wf(),
            new_config.hotkeys.bindings.len() < i32::MAX,
        ensures
            final(self).wf(),
            match r {
                Ok((diff, start)) => {
                    &&& new_config.is_valid()
                    &&& final(self)@ == old(self)@.with_reload_counted()
                    &&& name_views(diff.changed_sections@) == reported_names(*old_config, *new_config)
                    &&& begins(*old_config, *new_config, start)
                },
                Err(error) => {
                    &&& new_config.is_refused_for(error)
                    &&& final(self)@ == old(self)@
                },
            },
    {
        if let Err(error) = new_config.validate() {
            return Err(error);
        }
        let diff: ConfigDiff = ConfigDiff::between(old_config, new_config);
        proof {
            reload_is_no_change_iff_no_section_changed(*old_config, *new_config);
        }
        match (RuntimeConfig::from_config(new_config), hotkey_bindings_from_config(new_config)) {
            (Ok(config), Ok((bindings, commands))) => {
                self.count_config_reload();
                if diff.is_noop() {
                    return Ok((diff, ReloadStart::Unchanged));
                }
                Ok((diff, ReloadStart::Changed { config, bindings, commands }))
            },
            (Err(error), _) => Err(SettingsError::Borders(error)),
            (_, Err((place, error))) => Err(SettingsError::Hotkey { place, error }),
        }
    }
}

/// Settings that say the same as before begin nothing, and settings that say something else begin
/// something.
pub proof fn unchanged_settings_begin_nothing(
    old_config: Config,
    new_config: Config,
    start: ReloadStart,
)
    requires
        begins(old_config, new_config, start),
    ensures
        start == ReloadStart::Unchanged <==> changed_names(old_config, new_config).len() == 0,
{
}

} // verus!
