//! Which keys are hotkeys, which mouse movements are drags, and which windows have borders.

use vstd::prelude::*;

use crate::border::border_sides;
use crate::daemon_state::DaemonView;
use crate::game_mode::GameModeActions;
use crate::geometry::{MonitorInfo, Rect, WindowHandle};
use crate::hotkey::{
    bound_from, is_interception, key_outcome, HotkeyBinding, HotkeyBypassRules, HotkeyId,
    HotkeyInterceptionDecision, HotkeyLowLevelEvent, HotkeyModifierSet, HotkeyOverrideOptions,
    HotkeyWindowContext, KeyInput, VirtualKey,
};
use crate::layout::WindowParticipation;
use crate::monitors::monitor_of_rect;
use crate::mouse_drag::{
    drag_after, drag_report, drag_swallows, ActiveMouseDrag, MouseDragEventKind, MouseInput,
};
use crate::path_name::file_name;

verus! {

/// A key is that of a binding exactly if it is the same key and the same of alt, control, shift and the
/// super key are held; whether the binding repeats does not matter.
pub proof fn binding_is_met_by_its_keys(
    event: HotkeyLowLevelEvent,
    modifiers: HotkeyModifierSet,
    key: VirtualKey,
)
    ensures
        event.has_keys(modifiers, key) <==> {
            &&& event.virtual_key.0 == key.0
            &&& event.modifiers.alt == modifiers.alt
            &&& event.modifiers.control == modifiers.control
            &&& event.modifiers.shift == modifiers.shift
            &&& event.modifiers.super_key == modifiers.super_key
        },
{
}

/// Each of alt, control, shift and the super key has a flag of its own, and so has what does not repeat.
pub proof fn modifiers_have_flags_of_their_own(modifiers: HotkeyModifierSet)
    ensures
        (HotkeyModifierSet { alt: true, ..modifiers }).flags() == (HotkeyModifierSet {
            alt: false,
            ..modifiers
        }).flags() + 0x1,
        (HotkeyModifierSet { control: true, ..modifiers }).flags() == (HotkeyModifierSet {
            control: false,
            ..modifiers
        }).flags() + 0x2,
        (HotkeyModifierSet { shift: true, ..modifiers }).flags() == (HotkeyModifierSet {
            shift: false,
            ..modifiers
        }).flags() + 0x4,
        (HotkeyModifierSet { super_key: true, ..modifiers }).flags() == (HotkeyModifierSet {
            super_key: false,
            ..modifiers
        }).flags() + 0x8,
        (HotkeyModifierSet { no_repeat: true, ..modifiers }).flags() == (HotkeyModifierSet {
            no_repeat: false,
            ..modifiers
        }).flags() + 0x4000,
        (HotkeyModifierSet {
            alt: false,
            control: false,
            shift: false,
            super_key: false,
            no_repeat: false,
        }).flags() == 0,
{
}

proof fn lemma_bound(event: HotkeyLowLevelEvent, bindings: Seq<HotkeyBinding>, from: int, at: int)
    requires
        0 <= from <= at < bindings.len(),
        event.has_keys(bindings[at].modifiers, bindings[at].virtual_key),
        forall|i: int|
            from <= i < at ==> !event.has_keys(
                (#[trigger] bindings[i]).modifiers,
                bindings[i].virtual_key,
            ),
    ensures
        bound_from(event, bindings, from) == Some(bindings[at]),
    decreases at - from,
{
    if from < at {
        lemma_bound(event, bindings, from + 1, at);
    }
}

proof fn lemma_unbound(event: HotkeyLowLevelEvent, bindings: Seq<HotkeyBinding>, from: int)
    requires
        0 <= from <= bindings.len(),
        forall|i: int|
            from <= i < bindings.len() ==> !event.has_keys(
                (#[trigger] bindings[i]).modifiers,
                bindings[i].virtual_key,
            ),
    ensures
        bound_from(event, bindings, from) is None,
    decreases bindings.len() - from,
{
    if from < bindings.len() {
        lemma_unbound(event, bindings, from + 1);
    }
}

/// A key that is neither the panic hotkey nor pressed over a window that is spared gives the hotkey of the
/// first binding that it meets, and the application is kept from seeing it if that binding says so. One
/// that meets none is passed on.
pub proof fn first_binding_gets_the_key(
    event: HotkeyLowLevelEvent,
    bindings: Seq<HotkeyBinding>,
    options: HotkeyOverrideOptions,
    focused: Option<&HotkeyWindowContext>,
    decision: HotkeyInterceptionDecision,
    at: int,
)
    requires
        is_interception(event, bindings, options, focused, decision),
        !event.has_keys(options.panic_hotkey.modifiers, options.panic_hotkey.virtual_key),
        focused is None || !options.bypass.spares(*focused.unwrap()),
    ensures
        0 <= at < bindings.len() && event.has_keys(bindings[at].modifiers, bindings[at].virtual_key) && (
        forall|i: int|
            0 <= i < at ==> !event.has_keys(
                (#[trigger] bindings[i]).modifiers,
                bindings[i].virtual_key,
            )) ==> decision == (HotkeyInterceptionDecision::Dispatch {
            id: bindings[at].id,
            suppress: bindings[at].suppress_app,
        }),
        (forall|i: int|
            0 <= i < bindings.len() ==> !event.has_keys(
                (#[trigger] bindings[i]).modifiers,
                bindings[i].virtual_key,
            )) ==> decision is PassThrough,
{
    if 0 <= at < bindings.len() && event.has_keys(bindings[at].modifiers, bindings[at].virtual_key) && (
    forall|i: int|
        0 <= i < at ==> !event.has_keys(
            (#[trigger] bindings[i]).modifiers,
            bindings[i].virtual_key,
        )) {
        lemma_bound(event, bindings, 0, at);
    }
    if forall|i: int|
        0 <= i < bindings.len() ==> !event.has_keys(
            (#[trigger] bindings[i]).modifiers,
            bindings[i].virtual_key,
        ) {
        lemma_unbound(event, bindings, 0);
    }
}

/// A window is spared exactly if it is fullscreen and fullscreen windows are spared, or one of the
/// conditions on the class, on the path of the executable or on the name of its file accepts it.
pub proof fn window_is_spared_for_a_reason(rules: HotkeyBypassRules, focused: HotkeyWindowContext)
    ensures
        rules.spares(focused) <==> {
            ||| rules.fullscreen && focused.is_fullscreen
            ||| exists|i: int|
                0 <= i < rules.class_names@.len() && (#[trigger] rules.class_names@[i]).accepts(
                    focused.class_name@,
                )
            ||| focused.executable_path matches Some(path) && exists|i: int|
                0 <= i < rules.executable_paths@.len() && (
                #[trigger] rules.executable_paths@[i]).accepts(path@)
            ||| focused.executable_path matches Some(path) && file_name(path@) matches Some(name)
                && exists|i: int|
                0 <= i < rules.process_names@.len() && (#[trigger] rules.process_names@[i]).accepts(
                    name,
                )
        },
{
}

/// A hotkey is given out on a key that goes down, alone or with the system key, while hooks do not rest;
/// nothing is given out or kept from the application otherwise.
pub proof fn only_keys_that_go_down_count(input: KeyInput, id: HotkeyId, suppress: bool)
    ensures
        ({
            let outcome = key_outcome(input, HotkeyInterceptionDecision::Dispatch { id, suppress });
            let down = input.code == 0 && !input.paused && (input.message == 0x100 || input.message
                == 0x104);
            &&& down ==> outcome.dispatch == Some(id) && outcome.swallow == suppress
            &&& !down ==> outcome.dispatch is None && !outcome.swallow
        }),
{
}

/// A drag begins when the left button goes down over a window while the modifiers are held, and the
/// application does not see the button then; it sees it otherwise. Nothing begins while hooks rest.
pub proof fn drag_begins_with_the_button(drag: Option<ActiveMouseDrag>, input: MouseInput)
    requires
        input.message == 0x0201,
    ensures
        ({
            let begins = !input.paused && input.modifiers_held && input.target is Some;
            &&& drag_swallows(drag, input) == begins
            &&& begins ==> {
                &&& drag_after(drag, input) matches Some(active)
                &&& active.window == input.target.unwrap() && active.last_cursor == input.cursor
                &&& drag_report(drag, input) matches Some(event)
                &&& event.kind == MouseDragEventKind::Started && event.window == input.target.unwrap()
                    && event.cursor == input.cursor
            }
            &&& !begins ==> drag_after(drag, input) == drag && drag_report(drag, input) is None
        }),
{
}

/// While a drag goes on, movements are kept from the application and told of at once the first time and
/// then no sooner than sixteen milliseconds after the one told of before; the end is told of with the
/// place where the cursor was last. Where nothing is dragged, nothing is kept or told.
pub proof fn drag_goes_on_with_the_mouse(drag: ActiveMouseDrag, input: MouseInput)
    requires
        input.message == 0x0200 || input.message == 0x0202,
    ensures
        drag_swallows(Some(drag), input) == !input.paused,
        !drag_swallows(None, input),
        drag_report(None, input) is None,
        drag_after(None, input) is None,
        input.paused ==> drag_report(Some(drag), input) is None && drag_after(Some(drag), input)
            == Some(drag),
        !input.paused && input.message == 0x0200 ==> {
            let due = !drag.sent_move || input.now - drag.last_sent_move_at >= 16_000;
            &&& due ==> (drag_report(Some(drag), input) matches Some(event) && event.kind
                == MouseDragEventKind::Moved && event.window == drag.window && event.cursor
                == input.cursor)
            &&& !due ==> drag_report(Some(drag), input) is None
            &&& drag_after(Some(drag), input) matches Some(after)
            &&& after.window == drag.window && after.last_cursor == input.cursor && after.sent_move
            &&& after.last_sent_move_at == if due {
                input.now
            } else {
                drag.last_sent_move_at
            }
        },
        !input.paused && input.message == 0x0202 ==> {
            &&& drag_after(Some(drag), input) is None
            &&& drag_report(Some(drag), input) matches Some(event)
            &&& event.kind == MouseDragEventKind::Ended && event.window == drag.window && event.cursor
                == drag.last_cursor
        },
{
}

/// A window has a border exactly if borders are drawn, it can be moved by commands and its monitor does not
/// rest, and it has the focus, floats, or the settings say that other windows have borders too.
pub proof fn window_has_a_border_if_it_stands_out(
    state: DaemonView,
    window: WindowHandle,
    monitors: Seq<MonitorInfo>,
)
    ensures
        ({
            let borders = state.config.borders;
            let apart = state.foreground is Some && state.windows.contains_key(
                state.foreground.unwrap().0,
            ) && (state.fullscreen(state.windows[state.foreground.unwrap().0], monitors)
                || !state.managed(state.windows[state.foreground.unwrap().0]));
            let drawn = borders.enabled && !state.game_mode.hides_borders() && !(
            borders.disable_when_fullscreen && apart);
            let floats = state.participation.contains_key(window.0)
                && state.participation[window.0] != WindowParticipation::Tiled;
            state.has_border(monitors)(window) <==> drawn && state.movable(window, monitors)
                && state.owner(window, monitors) is Some && !state.game_mode.pauses_monitor(
                state.owner(window, monitors).unwrap(),
            ) && (state.foreground == Some(window) || floats || borders.show_inactive)
        }),
{
}

/// The border of the window with the focus has the colour for that, that of another floating window the
/// colour for floating ones, and that of any other window the colour for the rest.
pub proof fn border_colours_tell_windows_apart(state: DaemonView, window: WindowHandle)
    ensures
        ({
            let border = state.border_of(window);
            let floats = state.participation.contains_key(window.0)
                && state.participation[window.0] != WindowParticipation::Tiled;
            &&& border.window == window && border.rect == state.windows[window.0].rect
            &&& border.focused == (state.foreground == Some(window)) && border.floating == floats
            &&& state.foreground == Some(window) ==> border.color == state.config.borders.active_color
            &&& state.foreground != Some(window) && floats ==> border.color
                == state.config.borders.floating_color
            &&& state.foreground != Some(window) && !floats ==> border.color
                == state.config.borders.inactive_color
        }),
{
}

/// The border that is drawn lies around the rectangle that the window really has, where it is known and
/// the window is not being dragged; and around the one noted of it otherwise.
pub proof fn border_lies_where_the_window_is(
    state: DaemonView,
    window: WindowHandle,
    monitors: Seq<MonitorInfo>,
    actual: Map<u64, Rect>,
)
    ensures
        ({
            let update = state.border_update(window, monitors, actual);
            &&& update.window == window
            &&& update.visible == state.has_border(monitors)(window)
            &&& update.color == state.border_of(window).color
            &&& update.visible && actual.contains_key(window.0) && state.dragged_window() != Some(
                window,
            ) ==> update.rect == actual[window.0]
            &&& !update.visible || !actual.contains_key(window.0) || state.dragged_window() == Some(
                window,
            ) ==> update.rect == state.windows[window.0].rect
        }),
{
}

/// Borders that are drawn lie above those that are not, those of floating windows above those of tiled
/// ones, and among both that of the window with the focus on top.
pub proof fn borders_lie_in_layers(
    state: DaemonView,
    a: WindowHandle,
    b: WindowHandle,
    monitors: Seq<MonitorInfo>,
)
    requires
        state.has_border(monitors)(a),
    ensures
        state.border_layer(a, monitors) > 0,
        !state.has_border(monitors)(b) ==> state.border_layer(b, monitors) == 0,
        state.has_border(monitors)(b) && state.floats(a) && !state.floats(b) ==> state.border_layer(
            a,
            monitors,
        ) > state.border_layer(b, monitors),
        state.has_border(monitors)(b) && state.floats(a) == state.floats(b) && state.foreground == Some(
            a,
        ) && a != b ==> state.border_layer(a, monitors) > state.border_layer(b, monitors),
        state.border_layer(a, monitors) <= 4,
{
}

/// The four sides of a border cover exactly the pixels around a rectangle that are no farther from it than
/// the border is wide, and it is one pixel wide at least.
pub proof fn border_covers_the_frame(rect: Rect, width: int, x: int, y: int)
    requires
        rect.left < rect.right,
        rect.top < rect.bottom,
        width <= 0x1000_0000,
        -0x1000_0000 <= rect.left && rect.right <= 0x1000_0000,
        -0x1000_0000 <= rect.top && rect.bottom <= 0x1000_0000,
    ensures
        ({
            let wide = if width >= 1 {
                width
            } else {
                1
            };
            let sides = border_sides(rect, width);
            let around = rect.left - wide <= x < rect.right + wide && rect.top - wide <= y < rect.bottom
                + wide;
            &&& sides.len() == 4
            &&& (sides[0].covers(x, y) || sides[1].covers(x, y) || sides[2].covers(x, y)
                || sides[3].covers(x, y)) <==> around && !rect.covers(x, y)
        }),
{
}

/// A game that is found has the focus, is on the monitor that it fills, or else on that of its rectangle,
/// and puts off what the settings say.
pub proof fn found_game_is_the_focused_window(state: DaemonView, monitors: Seq<MonitorInfo>)
    ensures
        ({
            let detection = state.detected(monitors);
            let settings = state.config.game_mode;
            match state.activation(monitors) {
                Some(active) => {
                    let info = state.windows[active.window.0];
                    &&& detection.active && state.foreground == Some(active.window)
                    &&& Some(active.reason) == detection.reason && active.fullscreen
                        == detection.fullscreen
                    &&& active.title == info.title@
                    &&& active.executable_path is Some <==> info.executable_path is Some
                    &&& info.executable_path matches Some(path) ==> active.executable_path == Some(path@)
                    &&& detection.fullscreen.monitor is Some ==> active.monitor
                        == detection.fullscreen.monitor
                    &&& detection.fullscreen.monitor is None ==> active.monitor == monitor_of_rect(
                        info.rect,
                        monitors,
                    )
                    &&& active.actions == (GameModeActions {
                        pause_layouts: settings.pause_all_layouts_when_game_focused,
                        pause_focused_monitor_only: settings.pause_focused_monitor_only,
                        hide_borders: settings.disable_borders,
                        disable_animations: settings.disable_animations,
                        disable_keyboard_hooks: settings.disable_keyboard_hooks,
                    })
                },
                None => !detection.active,
            }
        }),
{
}

/// A game ends with the first look that does not find it, unless it was a game for being fullscreen and
/// still has the focus: then it takes two such looks in a row.
pub proof fn game_ends_when_it_is_not_found(state: DaemonView, monitors: Seq<MonitorInfo>)
    requires
        state.game_mode.active is Some,
        !state.detected(monitors).active,
    ensures
        ({
            let active = state.game_mode.active.unwrap();
            let after = state.next_game_mode(monitors);
            let patient = state.foreground == Some(active.window) && active.reason is Fullscreen;
            &&& patient && state.game_mode.misses == 0 ==> after.active == Some(active) && after.misses
                == 1
            &&& patient && state.game_mode.misses >= 1 ==> after.active is None && after.misses == 0
            &&& !patient ==> after.active is None && after.misses == 0
        }),
{
}

} // verus!
