//! What the answers of further calls satisfy, whatever they are called with.

use vstd::prelude::*;

use crate::border::{BorderOverlayState, BorderUpdate};
use crate::commands::{DaemonCommand, MonitorSelector};
use crate::config::Config;
use crate::daemon_drag::DragReading;
use crate::daemon_reload::ReloadPlan;
use crate::daemon_state::{ActiveModifierDrag, DaemonState};
use crate::daemon_tiling_laws::{lemma_tiling_keeps, tiling_keeps_windows_and_workspaces};
use crate::engine::LayoutEngine;
use crate::events::{count_events, WindowEvent, WindowEventKind};
use crate::geometry::{MonitorId, MonitorInfo, Point, Rect, TileAssignment, WindowHandle};
use crate::handles::{lemma_filter_holds, ordered_handles};
use crate::hotkey::{
    handle_key_message, is_key_down_message, HotkeyBinding, HotkeyLowLevelEvent, HotkeyOverrideOptions,
    HotkeyWindowContext, KeyInput, KeyOutcome, ModifierDragOptions,
};
use crate::hotkey_settings::{
    hotkey_override_options_from_config, modifier_drag_options_from_config, HotkeySettingError,
};
use crate::layout::WindowParticipation;
use crate::monitor_layout::MonitorLayoutState;
use crate::placement::window_style_is_borderless;
use crate::plugin::{json_member, json_text, parse_plugin_block, shown_member, PluginWidgetBlock};
use crate::shell::{shell_command, ShellError};
use crate::text::trimmed;
use crate::window::{windows_in_monitor, WindowInfo};
use crate::workspace::WorkspaceManager;

verus! {

/// A block of a plugin is labelled by what the plugin calls it, first by its label and then by its name, or
/// by where it comes from; its text is what it says, first as text, then as value, then as status, or all
/// that was sent. Nothing is made of what cannot be read.
pub proof fn block_says_what_the_plugin_sent(source: &str, input: &str, block: Option<PluginWidgetBlock>)
    requires
        call_ensures(parse_plugin_block, (source, input), block),
    ensures
        ({
            let member = |name: Seq<char>| shown_member(json_member(input@, name));
            &&& input@.len() == 0 || json_text(input@) is None <==> block is None
            &&& block matches Some(block) ==> {
                &&& block.source@ == source@
                &&& member("label"@) matches Some(label) ==> block.label@ == label
                &&& member("label"@) is None ==> (member("name"@) matches Some(name) ==> block.label@
                    == name)
                &&& member("label"@) is None && member("name"@) is None ==> block.label@ == source@
                &&& member("text"@) matches Some(text) ==> block.text@ == text
                &&& member("text"@) is None ==> (member("value"@) matches Some(value) ==> block.text@
                    == value)
                &&& member("text"@) is None && member("value"@) is None ==> (
                member("status"@) matches Some(status) ==> block.text@ == status)
                &&& member("text"@) is None && member("value"@) is None && member("status"@) is None
                    ==> Some(block.text@) == json_text(input@)
            }
        }),
{
}

/// A key sets off a hotkey only if it goes down, hotkeys do not rest, and a binding has its keys; it is kept
/// from the application only if that binding says so. The panic hotkey sets off none.
pub proof fn key_sets_off_its_hotkey(
    input: KeyInput,
    event: &HotkeyLowLevelEvent,
    bindings: &[HotkeyBinding],
    options: &HotkeyOverrideOptions,
    focused: Option<&HotkeyWindowContext>,
    outcome: KeyOutcome,
)
    requires
        call_ensures(handle_key_message, (input, event, bindings, options, focused), outcome),
    ensures
        outcome.swallow ==> outcome.dispatch is Some,
        input.paused || input.code != 0 ==> outcome.dispatch is None,
        input.message != 0x100 && input.message != 0x104 ==> outcome.dispatch is None,
        event.has_keys(options.panic_hotkey.modifiers, options.panic_hotkey.virtual_key)
            ==> outcome.dispatch is None,
        outcome.dispatch matches Some(id) ==> exists|i: int|
            {
                &&& 0 <= i < bindings@.len()
                &&& (#[trigger] bindings@[i]).id == id
                &&& bindings@[i].virtual_key == event.virtual_key
                &&& bindings@[i].modifiers.control == event.modifiers.control
                &&& bindings@[i].modifiers.alt == event.modifiers.alt
                &&& bindings@[i].modifiers.shift == event.modifiers.shift
                &&& bindings@[i].modifiers.super_key == event.modifiers.super_key
                &&& outcome.swallow == bindings@[i].suppress_app
            },
{
    lemma_bound(*event, bindings@, 0);
}

proof fn lemma_bound(event: HotkeyLowLevelEvent, bindings: Seq<HotkeyBinding>, from: int)
    requires
        0 <= from,
    ensures
        crate::hotkey::bound_from(event, bindings, from) matches Some(binding) ==> exists|i: int|
            0 <= i < bindings.len() && #[trigger] bindings[i] == binding && event.has_keys(
                binding.modifiers,
                binding.virtual_key,
            ),
    decreases bindings.len() - from,
{
    if from < bindings.len() {
        if event.has_keys(bindings[from].modifiers, bindings[from].virtual_key) {
            assert(bindings[from] == bindings[from]);
        } else {
            lemma_bound(event, bindings, from + 1);
        }
    }
}

/// The messages for a key that goes down are the plain one and the one with alt held.
pub proof fn keys_go_down_with_and_without_alt(message: u32, down: bool)
    requires
        call_ensures(is_key_down_message, (message,), down),
    ensures
        down <==> message == 0x100 || message == 0x104,
{
}

/// The panic hotkey and the time that may pass are those of the settings; keys that cannot be read are
/// refused. Drags with modifiers are off where the settings have them off, whatever the modifiers.
pub proof fn interception_goes_by_the_settings(
    config: &Config,
    options: Result<HotkeyOverrideOptions, HotkeySettingError>,
    drags: Result<Option<ModifierDragOptions>, HotkeySettingError>,
)
    requires
        call_ensures(hotkey_override_options_from_config, (config,), options),
        call_ensures(modifier_drag_options_from_config, (config,), drags),
    ensures
        options is Ok <==> crate::chord::chord_named(config.hotkeys.panic_hotkey@) is Some,
        options matches Ok(options) ==> options.latency_budget_micros
            == config.hotkeys.override_latency_budget_micros && options.panic_hotkey.virtual_key
            == crate::commands::key_code(
            crate::chord::chord_named(config.hotkeys.panic_hotkey@).unwrap().1,
        ),
        !config.hotkeys.modifier_drag.enabled ==> drags == Ok::<_, HotkeySettingError>(
            None::<ModifierDragOptions>,
        ),
        config.hotkeys.modifier_drag.enabled ==> (drags matches Ok(options) ==> options is Some),
{
}

/// A command that is given is what is run as the shell, without the white space around it; one of nothing
/// but white space is refused.
pub proof fn given_command_is_run_as_the_shell(
    shell: &str,
    daemon: Option<&str>,
    elevated: bool,
    command: &str,
    line: Result<String, ShellError>,
)
    requires
        call_ensures(shell_command, (shell, daemon, elevated, Some(command)), line),
    ensures
        trimmed(command@).len() == 0 ==> line is Err,
        trimmed(command@).len() > 0 ==> (line matches Ok(text) && text@ == trimmed(command@)),
{
}

/// A window needs a border to be made for it exactly if it covers something and has none yet.
pub proof fn border_is_made_once(borders: &BorderOverlayState, update: &BorderUpdate, needed: bool)
    requires
        call_ensures(BorderOverlayState::needs_overlay, (borders, update), needed),
    ensures
        needed <==> update.rect.left < update.rect.right && update.rect.top < update.rect.bottom
            && !borders@.contains_key(update.window.0),
{
}

/// The windows that are seen are those on the active workspace and those that are seen everywhere.
pub proof fn seen_windows_are_on_the_active_workspace(
    workspaces: &WorkspaceManager,
    windows: Vec<WindowHandle>,
    window: WindowHandle,
)
    requires
        call_ensures(WorkspaceManager::visible_windows, (workspaces,), windows),
    ensures
        windows@.contains(window) <==> workspaces@.windows.contains_key(window.0) && (
        workspaces@.windows[window.0].visible_on_all_workspaces
            || workspaces@.windows[window.0].workspace == workspaces@.active),
{
}

/// The command for a monitor and the call that it comes to do the same.
pub proof fn focus_on_a_monitor_is_the_command(
    selector: MonitorSelector,
    monitors: &[MonitorInfo],
    cursor: Option<Point>,
)
    ensures
        forall|state: &mut DaemonState, focus: Option<WindowHandle>| #[trigger]
            call_ensures(DaemonState::focus_monitor_command, (state, selector, monitors), focus) ==> {
                let (after, plan) = (*state)@.commanded(
                    DaemonCommand::FocusMonitor(selector),
                    monitors@,
                    cursor,
                );
                &&& (*final(state))@ == after
                &&& focus == plan.focus
            },
{
}

/// A tick of a drag moves the window that is dragged and no other.
pub proof fn only_the_dragged_window_follows(window: WindowHandle, cursor: Point)
    ensures
        forall|state: &mut DaemonState, moved: bool| #[trigger]
            call_ensures(DaemonState::handle_interactive_drag_tick, (state, window, cursor), moved) ==> {
                let before = (*state)@;
                let after = (*final(state))@;
                let drags = before.interactive_drag matches Some(drag) && drag.window == window;
                &&& !drags ==> !moved && after == before
                &&& !moved ==> after == before
                &&& moved ==> after.windows.contains_key(window.0) && after.windows[window.0].rect
                    != before.windows[window.0].rect
                &&& after.interactive_drag == before.interactive_drag
            },
{
}

/// A drag with modifiers brings its window to the foreground and begins at the cursor. The tiles close up
/// behind it at once only if it floats for the drag and the settings let the tiles follow.
pub proof fn drag_with_modifiers_begins_at_the_cursor(
    window: WindowHandle,
    cursor: Point,
    start_rect: Rect,
    reading: DragReading,
    monitors: &[MonitorInfo],
)
    ensures
        forall|state: &mut DaemonState, tiles: Option<Vec<TileAssignment>>| #[trigger]
            call_ensures(
                DaemonState::start_modifier_drag,
                (state, window, cursor, start_rect, reading, monitors),
                tiles,
            ) ==> {
                let before = (*state)@;
                let after = (*final(state))@;
                &&& after.foreground == Some(window)
                &&& tiles is Some ==> before.config.dynamic_retile && before.config.drag_to_float
                &&& tiles is None ==> (after.modifier_drag matches Some(drag) && drag.window == window
                    && drag.start_cursor == cursor && drag.last_cursor == cursor && drag.start_rect
                    == start_rect && drag.move_count == 0)
            },
{
    assert forall|state: &mut DaemonState, tiles: Option<Vec<TileAssignment>>| #[trigger]
        call_ensures(
            DaemonState::start_modifier_drag,
            (state, window, cursor, start_rect, reading, monitors),
            tiles,
        ) implies {
        let before = (*state)@;
        let after = (*final(state))@;
        &&& after.foreground == Some(window)
        &&& tiles is Some ==> before.config.dynamic_retile && before.config.drag_to_float
        &&& tiles is None ==> (after.modifier_drag matches Some(drag) && drag.window == window
            && drag.start_cursor == cursor && drag.last_cursor == cursor && drag.start_rect
            == start_rect && drag.move_count == 0)
    } by {
        let started = (*state)@.modifier_drag_started(
            window,
            cursor,
            start_rect,
            reading,
            monitors@,
        );
        tiling_keeps_windows_and_workspaces(started, monitors@, reading.cursor);
    }
}

/// A drag with modifiers that moves its window says where the window goes: as far from where it stood as
/// the cursor has come.
pub proof fn moved_window_is_told_where_to_go(window: WindowHandle, cursor: Point)
    ensures
        forall|state: &mut DaemonState, rect: Option<Rect>| #[trigger]
            call_ensures(DaemonState::move_modifier_drag, (state, window, cursor), rect) ==> {
                let before = (*state)@;
                let after = (*final(state))@;
                let drags = before.modifier_drag matches Some(drag) && drag.window == window;
                &&& rect is Some <==> drags
                &&& !drags ==> after == before
                &&& drags && before.windows.contains_key(window.0) ==> Some(
                    after.windows[window.0].rect,
                ) == rect
                &&& drags ==> (after.modifier_drag matches Some(drag) && drag.last_cursor == cursor)
            },
{
}

/// After a drag with modifiers its window is not dragged any more in any way, and the tiles are placed anew
/// only if they must be.
pub proof fn dropped_window_is_not_dragged(
    drag: ActiveModifierDrag,
    cursor: Point,
    accepted: Rect,
    monitors: &[MonitorInfo],
    position: Option<Point>,
)
    ensures
        forall|state: &mut DaemonState, tiles: Option<Vec<TileAssignment>>| #[trigger]
            call_ensures(
                DaemonState::drop_modifier_drag,
                (state, drag, cursor, accepted, monitors, position),
                tiles,
            ) ==> {
                let before = (*state)@;
                let after = (*final(state))@;
                &&& after.interactive_window() != Some(drag.window)
                &&& tiles is Some <==> before.modifier_drag_dropped(
                    drag,
                    cursor,
                    accepted,
                    monitors@,
                ).1
            },
{
}

/// A window that is put in its place in the order goes by where it stands: it belongs to the monitor it is
/// over. One that is not known changes nothing.
pub proof fn window_is_ordered_by_where_it_stands(window: WindowHandle, monitors: &[MonitorInfo])
    requires
        monitors@.len() > 0,
    ensures
        forall|state: &mut DaemonState, changed: bool| #[trigger]
            call_ensures(DaemonState::reorder_window_by_drop, (state, window, monitors), changed) ==> {
                let before = (*state)@;
                let after = (*final(state))@;
                &&& !before.windows.contains_key(window.0) ==> !changed && after == before
                &&& before.windows.contains_key(window.0) ==> after.overrides.contains_key(window.0)
                    && Some(after.overrides[window.0]) == crate::monitors::monitor_of_rect(
                    before.windows[window.0].rect,
                    monitors@,
                )
            },
{
    assert forall|state: &mut DaemonState, changed: bool| #[trigger]
        call_ensures(DaemonState::reorder_window_by_drop, (state, window, monitors), changed) implies {
        let before = (*state)@;
        let after = (*final(state))@;
        &&& !before.windows.contains_key(window.0) ==> !changed && after == before
        &&& before.windows.contains_key(window.0) ==> after.overrides.contains_key(window.0) && Some(
            after.overrides[window.0],
        ) == crate::monitors::monitor_of_rect(before.windows[window.0].rect, monitors@)
    } by {
        crate::drag_laws::window_is_dropped_where_the_cursor_is(
            (*state)@,
            window,
            (*state)@.windows[window.0].rect,
            None,
            monitors@,
        );
    }
}

/// Moves of windows are taken up by themselves only if each of the windows is known.
pub proof fn moves_of_known_windows_are_taken_up(
    state: &DaemonState,
    batch: &[WindowEvent],
    windows: Option<Vec<WindowHandle>>,
    at: int,
)
    requires
        call_ensures(DaemonState::moved_windows, (state, batch), windows),
        0 <= at < batch@.len(),
    ensures
        !state@.windows.contains_key(batch@[at].window.0) ==> windows is None,
        (forall|i: int|
            0 <= i < batch@.len() ==> state@.windows.contains_key((#[trigger] batch@[i]).window.0))
            ==> windows is Some,
{
}

/// A reload that is carried out goes by the new settings from then on.
pub proof fn reload_takes_over_the_settings(
    refreshed: DaemonState,
    path: Option<String>,
    loaded_at: u64,
    monitors: &[MonitorInfo],
    cursor: Option<Point>,
)
    ensures
        forall|state: &mut DaemonState, plan: Option<ReloadPlan>| #[trigger]
            call_ensures(
                DaemonState::commit_reload,
                (state, refreshed, path, loaded_at, monitors, cursor),
                plan,
            ) ==> (*final(state))@.config == refreshed@.config,
{
    assert forall|state: &mut DaemonState, plan: Option<ReloadPlan>| #[trigger]
        call_ensures(
            DaemonState::commit_reload,
            (state, refreshed, path, loaded_at, monitors, cursor),
            plan,
        ) implies (*final(state))@.config == refreshed@.config by {
        let committed = (*state)@.committing(refreshed@, path, loaded_at);
        let ruled = committed.with_rules_reapplied(monitors@);
        let noted = ruled.with_game_mode(monitors@);
        lemma_rules_keep_the_settings(
            committed,
            crate::handles::ordered_handles(committed.windows),
            monitors@,
        );
        crate::daemon_sync::lemma_synced_keeps(ruled, monitors@);
        lemma_tiling_keeps(noted, monitors@, monitors@, cursor);
    }
}

proof fn lemma_rules_keep_the_settings(
    state: crate::daemon_state::DaemonView,
    windows: Seq<WindowHandle>,
    monitors: Seq<MonitorInfo>,
)
    ensures
        state.with_rules_on_all(windows, monitors).config == state.config,
    decreases windows.len(),
{
    if windows.len() > 0 {
        lemma_rules_keep_the_settings(state, windows.drop_last(), monitors);
    }
}

/// A monitor that is taken away is not known any more and hands back its layout; the others keep theirs.
/// One that is set back keeps its place, and those of the others stay.
pub proof fn other_monitors_keep_their_layouts(monitor: MonitorId, other: u64)
    requires
        other != monitor.0,
    ensures
        forall|engine: &mut LayoutEngine, layout: Option<MonitorLayoutState>| #[trigger]
            call_ensures(LayoutEngine::remove_monitor, (engine, monitor), layout) ==> {
                let before = (*engine)@;
                let after = (*final(engine))@;
                &&& !after.monitors.contains_key(monitor.0)
                &&& layout is Some <==> before.monitors.contains_key(monitor.0)
                &&& layout matches Some(layout) ==> layout@ == before.monitors[monitor.0]
                &&& after.monitors.contains_key(other) == before.monitors.contains_key(other)
                &&& before.monitors.contains_key(other) ==> after.monitors[other]
                    == before.monitors[other]
            },
        forall|engine: &mut LayoutEngine, known: bool| #[trigger]
            call_ensures(LayoutEngine::reset_monitor, (engine, monitor), known) ==> {
                let before = (*engine)@;
                let after = (*final(engine))@;
                &&& known <==> before.monitors.contains_key(monitor.0)
                &&& after.monitors.contains_key(monitor.0) == before.monitors.contains_key(monitor.0)
                &&& after.monitors.contains_key(other) == before.monitors.contains_key(other)
                &&& before.monitors.contains_key(other) ==> after.monitors[other]
                    == before.monitors[other]
                &&& known ==> after.monitors[monitor.0] == before.monitors[monitor.0].after_reset()
            },
{
}

/// How a window takes part is changed for windows of the layout alone.
pub proof fn only_windows_of_the_layout_take_part(
    window: WindowHandle,
    participation: WindowParticipation,
)
    ensures
        forall|layout: &mut MonitorLayoutState, known: bool| #[trigger]
            call_ensures(
                MonitorLayoutState::set_participation,
                (layout, window, participation),
                known,
            ) ==> {
                let before = (*layout)@;
                let after = (*final(layout))@;
                &&& known <==> before.windows.contains(window)
                &&& !known ==> after == before
                &&& after.windows == before.windows
            },
{
}

/// A border is stale exactly if there is one for its window and no update speaks of the window.
pub proof fn border_without_an_update_is_stale(
    borders: &BorderOverlayState,
    updates: &[BorderUpdate],
    stale: Vec<WindowHandle>,
    window: WindowHandle,
)
    requires
        call_ensures(BorderOverlayState::stale_windows, (borders, updates), stale),
    ensures
        stale@.contains(window) <==> ordered_handles(borders@).contains(window) && forall|i: int|
            0 <= i < updates@.len() ==> (#[trigger] updates@[i]).window != window,
{
    lemma_filter_holds(
        ordered_handles(borders@),
        crate::border::not_updated(updates@),
        window,
    );
}

/// A border that was made has no place, no width and no colour yet, so that the next update gives it all of
/// them; the other borders stay.
pub proof fn new_border_waits_for_its_update(window: WindowHandle, other: u64)
    requires
        other != window.0,
    ensures
        forall|borders: &mut BorderOverlayState, done: ()| #[trigger]
            call_ensures(BorderOverlayState::created, (borders, window), done) ==> {
                let before = (*borders)@;
                let after = (*final(borders))@;
                &&& after.contains_key(window.0)
                &&& after[window.0].rect is None
                &&& after[window.0].width == 0
                &&& after.contains_key(other) == before.contains_key(other)
                &&& before.contains_key(other) ==> after[other] == before[other]
            },
{
}

/// The windows of a monitor are those whose middle is on it.
pub proof fn window_is_on_the_monitor_of_its_middle(
    windows: &[WindowInfo],
    monitor: &MonitorInfo,
    found: Vec<&WindowInfo>,
    at: int,
)
    requires
        call_ensures(windows_in_monitor, (windows, monitor), found),
        0 <= at < windows@.len(),
    ensures
        ({
            let middle = windows@[at].rect.middle();
            found@.unref().contains(windows@[at]) <==> monitor.rect.left <= middle.x
                < monitor.rect.right && monitor.rect.top <= middle.y < monitor.rect.bottom
        }),
        found@.len() <= windows@.len(),
{
    let keep = |window: WindowInfo| crate::window::centered_in(window, *monitor);
    lemma_filter_holds(windows@, keep, windows@[at]);
    windows@.lemma_filter_len(keep);
    assert(found@.unref().len() == found@.len());
}

/// A window has no frame exactly if its style has neither a caption nor a border to size it by.
pub proof fn frame_is_a_caption_or_a_border(style: u32, bare: bool)
    requires
        call_ensures(window_style_is_borderless, (style,), bare),
    ensures
        bare <==> style & 0x0080_0000u32 == 0 && style & 0x0040_0000u32 == 0 && style & 0x0004_0000u32
            == 0,
{
    assert((style & 0x00C4_0000u32 == 0) <==> (style & 0x0080_0000u32 == 0 && style & 0x0040_0000u32
        == 0 && style & 0x0004_0000u32 == 0)) by (bit_vector);
}

/// A report of a kind is counted once for each time that it came.
pub proof fn reports_are_counted_by_kind(
    batch: &[WindowEvent],
    kind: WindowEventKind,
    count: usize,
    at: int,
)
    requires
        call_ensures(count_events, (batch, kind), count),
        0 <= at < batch@.len(),
    ensures
        batch@[at].kind == kind ==> count > 0,
        (forall|i: int| 0 <= i < batch@.len() ==> (#[trigger] batch@[i]).kind != kind) ==> count == 0,
        (forall|i: int| 0 <= i < batch@.len() ==> (#[trigger] batch@[i]).kind == kind) ==> count
            == batch@.len(),
{
    let keep = crate::events::of_kind(kind);
    lemma_filter_holds(batch@, keep, batch@[at]);
    lemma_all_or_none_are_kept(batch@, keep);
}

proof fn lemma_all_or_none_are_kept(list: Seq<WindowEvent>, keep: spec_fn(WindowEvent) -> bool)
    ensures
        (forall|i: int| 0 <= i < list.len() ==> keep(#[trigger] list[i])) ==> list.filter(keep) == list,
        (forall|i: int| 0 <= i < list.len() ==> !keep(#[trigger] list[i])) ==> list.filter(keep).len()
            == 0,
    decreases list.len(),
{
    reveal(Seq::filter);
    if list.len() > 0 {
        let rest = list.drop_last();
        lemma_all_or_none_are_kept(rest, keep);
        assert(forall|i: int| 0 <= i < rest.len() ==> #[trigger] rest[i] == list[i]);
        assert(list[list.len() - 1] == list.last());
        assert(list =~= rest.push(list.last()));
    }
}

} // verus!
