//! Which windows are games, why, and what a game puts off.

use vstd::prelude::*;

use crate::detection::{found_out, has_filled_work_area, is_filled};
use crate::game_mode::{pause_scope, ActivationView, FullscreenArea, GameModeView, ReasonView};
use crate::geometry::{MonitorId, MonitorInfo, Rect};
use crate::handles::{first_kept, lemma_first_kept};
use crate::path_name::file_name;
use crate::rules::{decided, WindowRule, WindowRuleMode};
use crate::runtime_config::GameModePolicy;
use crate::window::WindowInfo;
use crate::text::lowercase;

verus! {

/// Where games are looked for and the executable of a window is not one of those that are passed over, a
/// window that the rules call a game, or fullscreen, is found to be one. The reason given is its
/// executable if that is one of the games, and otherwise what the rules call it, with the rules that
/// matched.
pub proof fn window_that_rules_call_a_game_is_one(
    window: WindowInfo,
    monitors: Seq<MonitorInfo>,
    rules: Seq<WindowRule>,
    policy: GameModePolicy,
    name: Seq<char>,
)
    requires
        policy.enabled,
        window.executable_path is Some ==> file_name(window.executable_path.unwrap()@) == Some(name),
        window.executable_path is Some ==> forall|i: int|
            0 <= i < policy.ignored_exes@.len() ==> lowercase((#[trigger] policy.ignored_exes@[i])@)
                != lowercase(name),
        decided(window, rules).mode == Some(WindowRuleMode::Game) || decided(window, rules).mode == Some(
            WindowRuleMode::Fullscreen,
        ),
    ensures
        ({
            let result = found_out(Some(window), monitors, rules, policy);
            let known = window.executable_path is Some && exists|i: int|
                0 <= i < policy.game_exes@.len() && lowercase((#[trigger] policy.game_exes@[i])@)
                    == lowercase(name);
            &&& result.active
            &&& known ==> result.reason == Some(ReasonView::ConfiguredExecutable(name))
            &&& !known ==> result.reason == Some(
                ReasonView::WindowRule {
                    mode: decided(window, rules).mode.unwrap(),
                    matched_rules: decided(window, rules).matched_rules,
                },
            )
            &&& result.matched_rules == decided(window, rules).matched_rules
        }),
{
}

/// A window whose executable is one of the games, without regard to case, is found to be a game for that
/// reason, whatever the rules say and wherever it stands, unless games are not looked for or the
/// executable is passed over as well.
pub proof fn window_of_a_known_game_is_one(
    window: WindowInfo,
    monitors: Seq<MonitorInfo>,
    rules: Seq<WindowRule>,
    policy: GameModePolicy,
    name: Seq<char>,
    at: int,
)
    requires
        policy.enabled,
        window.executable_path is Some,
        file_name(window.executable_path.unwrap()@) == Some(name),
        forall|i: int|
            0 <= i < policy.ignored_exes@.len() ==> lowercase((#[trigger] policy.ignored_exes@[i])@)
                != lowercase(name),
        0 <= at < policy.game_exes@.len(),
        lowercase(policy.game_exes@[at]@) == lowercase(name),
    ensures
        found_out(Some(window), monitors, rules, policy).active,
        found_out(Some(window), monitors, rules, policy).reason == Some(
            ReasonView::ConfiguredExecutable(name),
        ),
        found_out(Some(window), monitors, rules, policy).matched_executable == Some(name),
{
}

/// No window is a game where games are not looked for, and none is whose executable is passed over; nor
/// is there one where there is no window.
pub proof fn window_that_is_passed_over_is_no_game(
    window: WindowInfo,
    monitors: Seq<MonitorInfo>,
    rules: Seq<WindowRule>,
    policy: GameModePolicy,
    name: Seq<char>,
    at: int,
)
    requires
        !policy.enabled || (window.executable_path is Some && file_name(
            window.executable_path.unwrap()@,
        ) == Some(name) && 0 <= at < policy.ignored_exes@.len() && lowercase(policy.ignored_exes@[at]@)
            == lowercase(name)),
    ensures
        !found_out(Some(window), monitors, rules, policy).active,
        found_out(Some(window), monitors, rules, policy).reason is None,
        !found_out(None, monitors, rules, policy).active,
        found_out(None, monitors, rules, policy).reason is None,
{
}

/// A window that neither its executable nor the rules make a game is one exactly if fullscreen windows
/// are games and its rectangle reaches, up to the tolerance, every edge of a monitor or of its work
/// area. The monitor that is named is one that it fills, and the first of these in the order of the
/// monitors; work areas count only where no whole monitor is filled.
pub proof fn window_that_fills_a_monitor_is_a_game(
    window: WindowInfo,
    monitors: Seq<MonitorInfo>,
    rules: Seq<WindowRule>,
    policy: GameModePolicy,
)
    requires
        policy.enabled,
        window.executable_path is None,
        decided(window, rules).mode is None || decided(window, rules).mode == Some(
            WindowRuleMode::Ignore,
        ),
    ensures
        ({
            let result = found_out(Some(window), monitors, rules, policy);
            let slack = policy.fullscreen_tolerance_px;
            let reaches = |area: Rect|
                window.rect.left <= area.left + slack && window.rect.top <= area.top + slack
                    && window.rect.right >= area.right - slack && window.rect.bottom >= area.bottom
                    - slack;
            let whole = |i: int| 0 <= i < monitors.len() && reaches(monitors[i].rect);
            let work = |i: int| 0 <= i < monitors.len() && reaches(monitors[i].work_area);
            &&& result.active <==> policy.pause_on_fullscreen && ((exists|i: int| #[trigger]
                whole(i)) || (exists|i: int| #[trigger] work(i)))
            &&& result.matched_rules.len() == 0
            &&& forall|i: int|
                #[trigger] whole(i) && (forall|j: int| 0 <= j < i ==> !#[trigger] whole(j))
                    ==> result.fullscreen.monitor == Some(monitors[i].id) && result.fullscreen.area
                    == Some(FullscreenArea::MonitorBounds) && result.fullscreen.is_fullscreen && (
                policy.pause_on_fullscreen ==> result.reason == Some(
                    ReasonView::Fullscreen {
                        monitor: monitors[i].id,
                        area: FullscreenArea::MonitorBounds,
                    },
                ))
            &&& forall|i: int|
                (forall|j: int| !#[trigger] whole(j)) && #[trigger] work(i) && (forall|j: int|
                    0 <= j < i ==> !#[trigger] work(j)) ==> result.fullscreen.monitor == Some(
                    monitors[i].id,
                ) && result.fullscreen.area == Some(FullscreenArea::WorkArea)
                    && result.fullscreen.is_fullscreen && (policy.pause_on_fullscreen
                    ==> result.reason == Some(
                    ReasonView::Fullscreen { monitor: monitors[i].id, area: FullscreenArea::WorkArea },
                ))
            &&& (forall|j: int| !#[trigger] whole(j)) && (forall|j: int| !#[trigger] work(j))
                ==> !result.fullscreen.is_fullscreen
        }),
{
    let slack = policy.fullscreen_tolerance_px;
    let reaches = |area: Rect|
        window.rect.left <= area.left + slack && window.rect.top <= area.top + slack
            && window.rect.right >= area.right - slack && window.rect.bottom >= area.bottom - slack;
    let whole = |i: int| 0 <= i < monitors.len() && reaches(monitors[i].rect);
    let work = |i: int| 0 <= i < monitors.len() && reaches(monitors[i].work_area);
    let bounds = is_filled(window.rect, slack as int);
    let areas = has_filled_work_area(window.rect, slack as int);
    lemma_first_kept(monitors, bounds);
    lemma_first_kept(monitors, areas);
    assert forall|i: int| 0 <= i < monitors.len() implies #[trigger] whole(i) == bounds(monitors[i]) by {
    }
    assert forall|i: int| 0 <= i < monitors.len() implies #[trigger] work(i) == areas(monitors[i]) by {}
    if let Some(found) = first_kept(monitors, bounds) {
        let at = choose|i: int|
            0 <= i < monitors.len() && #[trigger] monitors[i] == found && forall|j: int|
                0 <= j < i ==> !bounds(#[trigger] monitors[j]);
        assert(whole(at));
        assert(forall|j: int| 0 <= j < at ==> !#[trigger] whole(j));
    } else {
        assert(forall|j: int| !#[trigger] whole(j));
    }
    if let Some(found) = first_kept(monitors, areas) {
        let at = choose|i: int|
            0 <= i < monitors.len() && #[trigger] monitors[i] == found && forall|j: int|
                0 <= j < i ==> !areas(#[trigger] monitors[j]);
        assert(work(at));
        assert(forall|j: int| 0 <= j < at ==> !#[trigger] work(j));
    } else {
        assert(forall|j: int| !#[trigger] work(j));
    }
}

/// While a game has the focus, the layouts of all monitors rest if its settings say so, or those of its
/// own monitor only; no game, no rest. Borders and hooks rest as the settings say.
pub proof fn game_puts_off_what_its_settings_say(
    active: ActivationView,
    misses: u8,
    monitor: MonitorId,
)
    ensures
        ({
            let game = GameModeView { active: Some(active), misses };
            let none = GameModeView { active: None, misses };
            let everywhere = game.pauses_layouts();
            let here = game.pauses_monitor(monitor);
            &&& !active.actions.pause_layouts ==> !everywhere && !here && pause_scope(active) == "none"@
            &&& active.actions.pause_layouts && !active.actions.pause_focused_monitor_only
                ==> everywhere && !here && pause_scope(active) == "global"@
            &&& active.actions.pause_layouts && active.actions.pause_focused_monitor_only
                && active.monitor == Some(monitor) ==> !everywhere && here && pause_scope(active)
                == "focused-monitor"@
            &&& active.actions.pause_layouts && active.actions.pause_focused_monitor_only
                && active.monitor is Some && active.monitor != Some(monitor) ==> !everywhere && !here
            &&& active.actions.pause_layouts && active.monitor is None ==> everywhere && !here
                && pause_scope(active) == "global"@
            &&& game.hides_borders() == active.actions.hide_borders
            &&& game.pauses_hooks() == active.actions.disable_keyboard_hooks
            &&& !none.pauses_layouts() && !none.pauses_monitor(monitor) && !none.hides_borders()
                && !none.pauses_hooks()
        }),
{
}

} // verus!
