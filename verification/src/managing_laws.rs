//! Which windows the daemon takes in hand, where they belong, and which of them give way.

use vstd::prelude::*;

use crate::daemon_state::DaemonView;
use crate::daemon_tiling::last_other;
use crate::geometry::{MonitorId, MonitorInfo, Rect, WindowHandle};
use crate::layout::WindowParticipation;
use crate::monitors::{every_rect_has_a_monitor, monitor_of_rect};
use crate::path_name::file_name;
use crate::rules::decided;
use crate::runtime_config::OverflowFocusPolicy;
use crate::text::lowercase;
use crate::window::WindowInfo;
use crate::window_laws::only_plain_application_windows_are_managed;

verus! {

/// A window is managed exactly if nothing is against it in itself, no rule says that it is not to be
/// managed, no rule gives it a special treatment, and its executable is not one of the games. No rule
/// can make a window managed that is against it in itself.
pub proof fn window_is_managed_if_nothing_is_against_it(state: DaemonView, info: WindowInfo, name: Seq<char>)
    requires
        info.executable_path is Some ==> file_name(info.executable_path.unwrap()@) == Some(name),
    ensures
        ({
            let games = state.config.game_mode.policy.game_exes@;
            let rules = state.config.window_rules@;
            let allowed = decided(info, rules).manage != Some(false) && decided(info, rules).mode is None
                && (info.executable_path is None || forall|i: int|
                0 <= i < games.len() ==> lowercase((#[trigger] games[i])@) != lowercase(name));
            &&& state.managed(info) <==> info.refusal() is None && allowed
            &&& state.managed_when_hidden(info) <==> info.refusal_when_hidden() is None && allowed
            &&& state.managed(info) ==> info.is_visible && !info.is_minimized && !info.is_dwm_cloaked
                && !info.has_owner && !info.is_tool_window && info.rect.left < info.rect.right
                && info.rect.top < info.rect.bottom
            &&& state.managed_when_hidden(info) ==> !info.is_minimized && !info.is_dwm_cloaked
                && !info.has_owner && !info.is_tool_window && info.rect.left < info.rect.right
                && info.rect.top < info.rect.bottom
        }),
{
    only_plain_application_windows_are_managed(info);
}

/// A window belongs to the monitor that it was put on while that is there, and otherwise to the monitor of
/// the rectangle where it was last seen, or where it is if it was not seen yet. One that is neither put
/// anywhere nor known belongs to none.
pub proof fn window_belongs_where_it_was_put(
    state: DaemonView,
    window: WindowHandle,
    monitors: Seq<MonitorInfo>,
)
    ensures
        ({
            let there = |id: MonitorId|
                exists|i: int| 0 <= i < monitors.len() && (#[trigger] monitors[i]).id == id;
            let put = state.overrides.contains_key(window.0) && there(state.overrides[window.0]);
            let seen = state.workspaces.windows.contains_key(window.0)
                && state.workspaces.windows[window.0].last_rect is Some;
            &&& put ==> state.owner(window, monitors) == Some(state.overrides[window.0])
            &&& !put && state.windows.contains_key(window.0) && seen ==> state.owner(window, monitors)
                == monitor_of_rect(state.workspaces.windows[window.0].last_rect.unwrap(), monitors)
            &&& !put && state.windows.contains_key(window.0) && !seen ==> state.owner(window, monitors)
                == monitor_of_rect(state.windows[window.0].rect, monitors)
            &&& !put && !state.windows.contains_key(window.0) ==> state.owner(window, monitors) is None
        }),
{
}

/// A window is visible exactly if it is on the workspace that its monitor shows, or is to be seen on all
/// of them; where it has no monitor, the active workspace counts.
pub proof fn window_is_visible_on_the_workspace_shown(
    state: DaemonView,
    window: WindowHandle,
    monitors: Seq<MonitorInfo>,
)
    ensures
        ({
            let shown = match state.owner(window, monitors) {
                Some(monitor) => if state.workspaces.monitors.contains_key(monitor.0) {
                    state.workspaces.monitors[monitor.0]
                } else {
                    state.workspaces.active
                },
                None => state.workspaces.active,
            };
            state.visible(window, monitors) <==> state.workspaces.windows.contains_key(window.0) && (
            state.workspaces.windows[window.0].visible_on_all_workspaces
                || state.workspaces.windows[window.0].workspace == shown)
        }),
{
}

/// Commands move windows that are visible, managed and not fullscreen. The daemon moves, hides and shows
/// those that would be managed if they were visible, and no fullscreen ones either.
pub proof fn fullscreen_windows_are_left_alone(
    state: DaemonView,
    window: WindowHandle,
    monitors: Seq<MonitorInfo>,
)
    ensures
        ({
            let known = state.windows.contains_key(window.0);
            let info = state.windows[window.0];
            let slack = state.config.game_mode.policy.fullscreen_tolerance_px;
            let reaches = |area: Rect|
                info.rect.left <= area.left + slack && info.rect.top <= area.top + slack
                    && info.rect.right >= area.right - slack && info.rect.bottom >= area.bottom - slack;
            let full = exists|i: int|
                0 <= i < monitors.len() && (reaches((#[trigger] monitors[i]).rect) || reaches(
                    monitors[i].work_area,
                ));
            &&& state.manageable(window, monitors) <==> known && state.visible(window, monitors)
                && state.managed(info)
            &&& state.movable(window, monitors) <==> known && state.visible(window, monitors)
                && state.managed(info) && !full
            &&& state.safe_to_move(window, monitors) <==> known && state.managed_when_hidden(info)
                && !full
        }),
{
    let info = state.windows[window.0];
    let slack = state.config.game_mode.policy.fullscreen_tolerance_px;
    assert(state.fullscreen(info, monitors) <==> exists|i: int|
        0 <= i < monitors.len() && (crate::monitors::fills(
            info.rect,
            (#[trigger] monitors[i]).rect,
            slack as int,
        ) || crate::monitors::fills(info.rect, monitors[i].work_area, slack as int)));
}

/// The windows that are tiled on a monitor are those in the order of the tiles that are to be tiled, are
/// on the workspace that the monitor shows, may be managed and belong to the monitor.
pub proof fn tiled_windows_are_on_the_workspace_shown(
    state: DaemonView,
    monitor: MonitorInfo,
    monitors: Seq<MonitorInfo>,
    window: WindowHandle,
)
    requires
        state.windows.contains_key(window.0),
    ensures
        state.tiled_on(monitor, monitors).contains(window) <==> {
            &&& state.tile_order.contains(window)
            &&& !state.participation.contains_key(window.0) || state.participation[window.0]
                == WindowParticipation::Tiled
            &&& state.workspaces.windows.contains_key(window.0) && (
            state.workspaces.windows[window.0].visible_on_all_workspaces
                || state.workspaces.windows[window.0].workspace == state.workspaces.active_on(
                monitor.id,
            ))
            &&& state.managed_when_hidden(state.windows[window.0])
            &&& state.owner(window, monitors) == Some(monitor.id)
        },
{
    crate::handles::lemma_filter_holds(
        state.tile_order,
        state.is_tiled_on(monitor, monitors),
        window,
    );
}

/// A window that gives way because the tiles do not fit is the last one that does not have the focus; the
/// one with the focus gives way only where it is the last that is left. Where the settings say so, the
/// one with the focus gives way first.
pub proof fn focused_window_gives_way_as_set(state: DaemonView, windows: Seq<WindowHandle>, at: int)
    requires
        0 <= at < windows.len(),
    ensures
        ({
            let chosen = state.next_overflow(windows);
            let present = state.foreground is Some && windows.contains(state.foreground.unwrap());
            &&& state.config.overflow_focus_policy == OverflowFocusPolicy::FloatFocused && present
                ==> chosen == state.foreground
            &&& (state.config.overflow_focus_policy == OverflowFocusPolicy::KeepFocused || !present)
                && state.foreground != Some(windows[at]) && (forall|i: int|
                at < i < windows.len() ==> state.foreground == Some(#[trigger] windows[i])) ==> chosen
                == Some(windows[at])
            &&& (forall|i: int| 0 <= i < windows.len() ==> state.foreground == Some(#[trigger] windows[i]))
                ==> chosen == state.foreground
            &&& state.next_overflow(Seq::empty()) is None
        }),
{
    let present = state.foreground is Some && windows.contains(state.foreground.unwrap());
    let focused = if present {
        state.foreground
    } else {
        None
    };
    if state.foreground != Some(windows[at]) && (forall|i: int|
        at < i < windows.len() ==> state.foreground == Some(#[trigger] windows[i])) {
        assert forall|i: int| at < i < windows.len() implies Some(#[trigger] windows[i]) == focused by {
            assert(windows.contains(windows[i]));
        }
        lemma_last_other(windows, focused, at);
    }
    if forall|i: int| 0 <= i < windows.len() ==> state.foreground == Some(#[trigger] windows[i]) {
        assert(windows.contains(windows[at]));
        assert(windows[windows.len() - 1] == windows.last());
        lemma_no_other(windows, focused);
    }
}

proof fn lemma_last_other(windows: Seq<WindowHandle>, focused: Option<WindowHandle>, at: int)
    requires
        0 <= at < windows.len(),
        focused != Some(windows[at]),
        forall|i: int| at < i < windows.len() ==> Some(#[trigger] windows[i]) == focused,
    ensures
        last_other(windows, focused) == Some(windows[at]),
    decreases windows.len(),
{
    assert(windows[windows.len() - 1] == windows.last());
    if at < windows.len() - 1 {
        let rest = windows.drop_last();
        assert(forall|i: int| 0 <= i < rest.len() ==> #[trigger] rest[i] == windows[i]);
        lemma_last_other(rest, focused, at);
    }
}

proof fn lemma_no_other(windows: Seq<WindowHandle>, focused: Option<WindowHandle>)
    requires
        forall|i: int| 0 <= i < windows.len() ==> Some(#[trigger] windows[i]) == focused,
    ensures
        last_other(windows, focused) is None,
    decreases windows.len(),
{
    if windows.len() > 0 {
        let rest = windows.drop_last();
        assert(windows[windows.len() - 1] == windows.last());
        assert(forall|i: int| 0 <= i < rest.len() ==> #[trigger] rest[i] == windows[i]);
        lemma_no_other(rest, focused);
    }
}

/// A window that gave way floats, is remembered to have given way, and its rectangle is remembered.
pub proof fn window_that_gave_way_is_remembered(state: DaemonView, window: WindowHandle)
    requires
        state.windows.contains_key(window.0),
    ensures
        state.with_promoted(window).participation.contains_key(window.0),
        state.with_promoted(window).participation[window.0] == WindowParticipation::Floating,
        state.with_promoted(window).promoted.contains_key(window.0),
        state.with_promoted(window).previous_rects.contains_key(window.0),
        state.with_promoted(window).previous_rects[window.0] == state.windows[window.0].rect,
{
}

/// The limits of a window are the largest of the least sizes that it states and that were learned of it,
/// and the greatest size that it states, raised to the least where it is smaller.
pub proof fn limits_are_stated_and_learned(state: DaemonView, window: WindowHandle)
    requires
        state.size_constraints.contains_key(window.0),
        state.learned.contains_key(window.0),
    ensures
        ({
            let limits = state.limits(window);
            let stated = state.size_constraints[window.0];
            let learned = state.learned[window.0];
            &&& limits.min.width >= 0 && limits.min.width >= stated.min.width && limits.min.width
                >= learned.min.width
            &&& limits.min.width == 0 || limits.min.width == stated.min.width || limits.min.width
                == learned.min.width
            &&& limits.min.height >= 0 && limits.min.height >= stated.min.height && limits.min.height
                >= learned.min.height
            &&& limits.min.height == 0 || limits.min.height == stated.min.height || limits.min.height
                == learned.min.height
            &&& limits.max is Some <==> stated.max is Some
            &&& stated.max matches Some(most) ==> {
                &&& most.width >= limits.min.width ==> limits.max.unwrap().width == most.width
                &&& most.width < limits.min.width ==> limits.max.unwrap().width == limits.min.width
                &&& most.height >= limits.min.height ==> limits.max.unwrap().height == most.height
                &&& most.height < limits.min.height ==> limits.max.unwrap().height == limits.min.height
            }
        }),
{
}

/// A new window that may be managed and is not fullscreen goes to the workspace that the rules name, or
/// to the one that its monitor shows; it floats if the rules say so, and is seen everywhere if they say
/// so. Where it is, is taken note of. Other new windows are not taken in hand.
pub proof fn new_window_goes_where_the_rules_say(
    state: DaemonView,
    window: WindowHandle,
    monitors: Seq<MonitorInfo>,
)
    requires
        state.windows.contains_key(window.0),
        !state.workspaces.windows.contains_key(window.0),
        monitors.len() > 0,
    ensures
        ({
            let info = state.windows[window.0];
            let after = state.with_window_synced(window, monitors);
            let decision = decided(info, state.config.window_rules@);
            let taken = state.managed(info) && !state.fullscreen(info, monitors);
            &&& after.workspaces.windows.contains_key(window.0) <==> taken
            &&& taken ==> {
                let noted = after.workspaces.windows[window.0];
                &&& decision.target_workspace matches Some(workspace) ==> noted.workspace == workspace
                &&& decision.target_workspace is None ==> noted.workspace
                    == state.workspaces.active_on(monitor_of_rect(info.rect, monitors).unwrap())
                &&& noted.last_rect == Some(info.rect)
                &&& noted.visible_on_all_workspaces <==> decision.always_on_workspace == Some(true)
                &&& decision.float == Some(true) ==> after.takes_part(window)
                    == WindowParticipation::Floating
                &&& decision.float != Some(true) ==> after.takes_part(window) == state.takes_part(
                    window,
                )
                &&& after.overrides.contains_key(window.0) && Some(after.overrides[window.0])
                    == monitor_of_rect(info.rect, monitors)
            }
        }),
{
    let info = state.windows[window.0];
    every_rect_has_a_monitor(info.rect, monitors);
    only_plain_application_windows_are_managed(info);
}

/// A visible window that was brought to another monitor goes to the workspace that that monitor shows,
/// unless it is seen there anyway. A window that stays on its monitor stays on its workspace.
pub proof fn window_brought_to_another_monitor_is_on_its_workspace(
    state: DaemonView,
    window: WindowHandle,
    monitors: Seq<MonitorInfo>,
)
    requires
        state.windows.contains_key(window.0),
        state.workspaces.windows.contains_key(window.0),
        state.windows[window.0].is_visible,
        state.managed_when_hidden(state.windows[window.0]),
        monitors.len() > 0,
    ensures
        ({
            let info = state.windows[window.0];
            let after = state.with_window_synced(window, monitors);
            let before = state.workspaces.windows[window.0];
            let monitor = monitor_of_rect(info.rect, monitors).unwrap();
            let shown = state.workspaces.active_on(monitor);
            &&& after.owner(window, monitors) == Some(monitor)
            &&& after.workspaces.windows[window.0].last_rect == Some(info.rect)
            &&& after.workspaces.windows[window.0].visible_on_all_workspaces
                == before.visible_on_all_workspaces
            &&& state.owner(window, monitors) != Some(monitor) && !before.visible_on_all_workspaces
                ==> after.workspaces.windows[window.0].workspace == shown
            &&& state.owner(window, monitors) == Some(monitor) || before.visible_on_all_workspaces
                ==> after.workspaces.windows[window.0].workspace == before.workspace
        }),
{
    every_rect_has_a_monitor(state.windows[window.0].rect, monitors);
}

} // verus!
