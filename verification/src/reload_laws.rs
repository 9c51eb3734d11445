//! What is kept when the windows are looked through again and when the settings are read anew.

use vstd::prelude::*;

use crate::config::{changed_names, Config, ConfigDiff};
use crate::daemon_settings::ReloadStart;
use crate::daemon_state::{DaemonState, DaemonView};
use crate::daemon_sync::lemma_synced_keeps;
use crate::geometry::{MonitorInfo, WindowHandle};
use crate::handles::{lemma_filter_holds, ordered_handles, realigned_list_holds_all};
use crate::layout::WindowParticipation;
use crate::monitors::known_monitor;
use crate::rules::decided;
use crate::validation::SettingsError;


verus! {

/// What was known of a window that is still there and on a workspace is kept: how it takes part, where it
/// was, what was learned of it, the monitor it was put on while that is there, and that it gave way.
/// What was known of others is forgotten.
pub proof fn what_is_known_of_windows_is_kept(
    refreshed: DaemonView,
    before: DaemonView,
    monitors: Seq<MonitorInfo>,
    window: WindowHandle,
)
    ensures
        ({
            let moved = refreshed.with_workspaces_of(before, monitors);
            let after = refreshed.preserving(before, monitors);
            let stays = moved.windows.contains_key(window.0) && moved.workspaces.windows.contains_key(
                window.0,
            );
            let key = window.0;
            &&& after.participation.contains_key(key) <==> stays && before.participation.contains_key(
                key,
            )
            &&& after.participation.contains_key(key) ==> after.participation[key]
                == before.participation[key]
            &&& after.previous_rects.contains_key(key) <==> stays
                && before.previous_rects.contains_key(key)
            &&& after.previous_rects.contains_key(key) ==> after.previous_rects[key]
                == before.previous_rects[key]
            &&& after.learned.contains_key(key) <==> stays && before.learned.contains_key(key)
            &&& after.learned.contains_key(key) ==> after.learned[key] == before.learned[key]
            &&& after.promoted.contains_key(key) <==> stays && before.promoted.contains_key(key)
            &&& after.overrides.contains_key(key) <==> stays && before.overrides.contains_key(key)
                && known_monitor(monitors, before.overrides[key])
            &&& after.overrides.contains_key(key) ==> after.overrides[key] == before.overrides[key]
            &&& after.dwindle_splits == before.dwindle_splits
            &&& before.modifier_drag matches Some(drag) ==> (after.modifier_drag == Some(drag)
                <==> moved.windows.contains_key(drag.window.0))
            &&& before.modifier_drag is None ==> after.modifier_drag is None
            &&& before.interactive_drag matches Some(drag) ==> (after.interactive_drag == Some(drag)
                <==> moved.windows.contains_key(drag.window.0))
            &&& before.interactive_drag is None ==> after.interactive_drag is None
        }),
{
}

/// A second look at the windows keeps the game, the settings' version and what was counted.
pub proof fn second_look_keeps_the_rest(
    state: DaemonView,
    refreshed: DaemonView,
    monitors: Seq<MonitorInfo>,
)
    ensures
        ({
            let after = state.adopting(refreshed, monitors);
            &&& after.game_mode == state.game_mode
            &&& after.config_path == state.config_path
            &&& after.config_version == state.config_version
            &&& after.config_loaded_at_unix_ms == state.config_loaded_at_unix_ms
            &&& after.perf == state.perf
            &&& after.tile_order == refreshed.preserving(state, monitors).tile_order
        }),
{
}

/// Settings that are taken over raise the version by one and note when and whence they came; the game and
/// what was counted stay.
pub proof fn new_settings_have_a_new_version(
    state: DaemonView,
    refreshed: DaemonView,
    path: Option<String>,
    loaded_at: u64,
)
    ensures
        ({
            let after = state.committing(refreshed, path, loaded_at);
            &&& state.config_version < u64::MAX ==> after.config_version == state.config_version + 1
            &&& state.config_version == u64::MAX ==> after.config_version == u64::MAX
            &&& after.config_path == path && after.config_loaded_at_unix_ms == loaded_at
            &&& after.game_mode == state.game_mode && after.perf == state.perf
            &&& after.config == refreshed.config && after.windows == refreshed.windows
                && after.workspaces == refreshed.workspaces && after.tile_order == refreshed.tile_order
        }),
{
}

/// Rules that are applied anew let go of a window that may not be managed or is fullscreen. Of any other
/// window they set the workspace, whether it is seen everywhere and whether it floats, each as far as
/// they say so, and leave the rest as it was.
pub proof fn rules_are_applied_anew(
    state: DaemonView,
    window: WindowHandle,
    monitors: Seq<MonitorInfo>,
)
    requires
        state.workspaces.windows.contains_key(window.0),
    ensures
        ({
            let info = state.windows[window.0];
            let decision = decided(info, state.config.window_rules@);
            let after = state.with_rules_on(window, monitors);
            let before = state.workspaces.windows[window.0];
            let kept = state.managed_when_hidden(info) && !state.fullscreen(info, monitors);
            &&& !kept ==> !after.workspaces.windows.contains_key(window.0)
                && !after.participation.contains_key(window.0) && !after.promoted.contains_key(window.0)
            &&& kept ==> {
                let noted = after.workspaces.windows[window.0];
                &&& after.workspaces.windows.contains_key(window.0)
                &&& noted.last_rect == before.last_rect
                &&& decision.target_workspace matches Some(workspace) ==> noted.workspace == workspace
                &&& decision.target_workspace is None ==> noted.workspace == before.workspace
                &&& decision.always_on_workspace matches Some(everywhere)
                    ==> noted.visible_on_all_workspaces == everywhere
                &&& decision.always_on_workspace is None ==> noted.visible_on_all_workspaces
                    == before.visible_on_all_workspaces
                &&& decision.float == Some(true) ==> after.participation.contains_key(window.0)
                    && after.participation[window.0] == WindowParticipation::Floating
                &&& decision.float == Some(false) ==> !after.participation.contains_key(window.0)
                &&& decision.float is None ==> after.participation == state.participation
            }
        }),
{
}

/// After a reload the windows that were visible, are not any more and may be moved are hidden; those that
/// are visible and were not are shown where they were last seen.
pub proof fn reload_hides_and_shows_what_changed(
    state: DaemonView,
    before: Map<u64, bool>,
    monitors: Seq<MonitorInfo>,
    window: WindowHandle,
)
    ensures
        ({
            let seen = before.contains_key(window.0) && before[window.0];
            &&& state.is_newly_hidden(before, monitors)(window) <==> seen && !state.visible(
                window,
                monitors,
            ) && state.safe_to_move(window, monitors)
            &&& state.is_newly_shown(before, monitors)(window) <==> !seen && state.visible(
                window,
                monitors,
            )
            &&& state.shown_again(window).window == window
            &&& state.workspaces.windows.contains_key(window.0) ==> state.shown_again(
                window,
            ).restore_rect == state.workspaces.windows[window.0].last_rect
            &&& !state.workspaces.windows.contains_key(window.0) ==> state.shown_again(
                window,
            ).restore_rect is None
            &&& state.visibility(monitors).contains_key(window.0) <==> state.windows.contains_key(
                window.0,
            )
            &&& state.windows.contains_key(window.0) ==> state.visibility(monitors)[window.0]
                == state.visible(window, monitors)
        }),
{
}

/// Each reload is counted.
pub proof fn reloads_are_counted(state: DaemonView)
    requires
        state.perf.config_reload_count < u64::MAX,
    ensures
        state.with_reload_counted().perf.config_reload_count == state.perf.config_reload_count + 1,
        state.with_reload_counted().perf.relayout_count == state.perf.relayout_count,
        state.with_reload_counted().windows == state.windows,
{
}

/// After rules were applied anew, the order of the tiles lists exactly the windows that are managed.
pub proof fn order_lists_what_is_managed_after_a_reload(
    state: DaemonView,
    monitors: Seq<MonitorInfo>,
    window: WindowHandle,
)
    ensures
        ({
            let ruled = state.with_rules_on_all(ordered_handles(state.windows), monitors);
            let after = state.with_rules_reapplied(monitors);
            &&& after.tile_order.contains(window) <==> ordered_handles(ruled.windows).contains(window)
                && ruled.managed(ruled.windows[window.0])
            &&& after.windows == ruled.windows && after.workspaces == ruled.workspaces
                && after.participation == ruled.participation
        }),
{
    let ruled = state.with_rules_on_all(ordered_handles(state.windows), monitors);
    realigned_list_holds_all(ruled.tile_order, ruled.managed_handles(), window);
    lemma_filter_holds(ordered_handles(ruled.windows), ruled.is_managed_handle(), window);
}

/// Rules are applied to one window after the other.
pub proof fn rules_are_applied_one_by_one(
    state: DaemonView,
    windows: Seq<WindowHandle>,
    window: WindowHandle,
    monitors: Seq<MonitorInfo>,
)
    ensures
        state.with_rules_on_all(Seq::empty(), monitors) == state,
        state.with_rules_on_all(windows.push(window), monitors) == state.with_rules_on_all(
            windows,
            monitors,
        ).with_rules_on(window, monitors),
{
    assert(windows.push(window).drop_last() =~= windows);
}

/// What is counted of a reload are the windows that lost their workspace, those that were floated, those
/// that were tiled, and those that came to the order of the tiles or left it.
pub proof fn reload_counts_what_it_changed(
    state: DaemonView,
    monitors: Seq<MonitorInfo>,
    window: WindowHandle,
)
    ensures
        ({
            let info = state.windows[window.0];
            let kept = state.managed_when_hidden(info) && !state.fullscreen(info, monitors);
            let float = decided(info, state.config.window_rules@).float;
            &&& state.loses_workspace(monitors)(window) <==> !kept
                && state.workspaces.windows.contains_key(window.0)
            &&& state.is_floated(monitors)(window) <==> kept && float == Some(true)
            &&& kept ==> (state.is_unfloated(monitors)(window) <==> float == Some(false))
            &&& !kept ==> (state.is_unfloated(monitors)(window) <==> state.participation.contains_key(
                window.0,
            ))
        }),
{
}

/// Settings that are read anew forget the splits of every layout and make workspaces up to the number that
/// they set.
pub proof fn reload_forgets_the_splits(
    refreshed: DaemonView,
    before: DaemonView,
    monitors: Seq<MonitorInfo>,
    key: (u16, u64),
)
    ensures
        !refreshed.prepared(before, monitors).dwindle_splits.contains_key(key),
        refreshed.prepared(before, monitors).config == refreshed.config,
{
    let preserved = refreshed.preserving(before, monitors);
    let bare = DaemonView {
        dwindle_splits: Map::empty(),
        workspaces: preserved.workspaces.with_count(preserved.config.workspace_count),
        ..preserved
    };
    lemma_synced_keeps(bare, monitors);
    lemma_synced_keeps(
        DaemonView {
            workspaces: before.workspaces.with_count(refreshed.config.workspace_count),
            ..refreshed
        },
        monitors,
    );
}

/// A reload is begun only with settings that are in order, and is counted then; otherwise the daemon stays
/// as it is.
pub proof fn reload_begins_with_settings_in_order(old_config: &Config, new_config: &Config)
    ensures
        forall|state: &mut DaemonState, begun: Result<(ConfigDiff, ReloadStart), SettingsError>|
         #[trigger]
            call_ensures(DaemonState::begin_reload, (state, old_config, new_config), begun) ==> {
                &&& begun is Ok ==> new_config.is_valid()
                &&& begun is Ok && (*state)@.perf.config_reload_count < u64::MAX ==> (
                *final(state))@.perf.config_reload_count == (*state)@.perf.config_reload_count + 1
                &&& begun is Err ==> (*final(state))@ == (*state)@
                &&& (*final(state))@.windows == (*state)@.windows
                &&& begun matches Ok((diff, start)) ==> (start is Unchanged <==> changed_names(
                    *old_config,
                    *new_config,
                ).len() == 0)
            },
{
}

} // verus!
