//! What every answer of a call satisfies, and how what was before a call and what is after it relate.

use vstd::prelude::*;

use crate::border::{BorderOverlayState, BorderStep, BorderUpdate};
use crate::commands::{DaemonCommand, HotkeyCommandMap};
use crate::daemon_commands::CommandRoute;
use crate::daemon_events::{drag_poll, extend_batch, movesize_start_window, BatchInput, BatchStep, DragPoll};
use crate::daemon_state::DaemonState;
use crate::events::{window_event, WindowEvent, WindowEventKind};
use crate::geometry::{MonitorInfo, Point, Rect, TileAssignment, WindowHandle};
use crate::handles::lemma_first_kept;
use crate::hotkey::{held_modifiers, HotkeyBypassRules, HotkeyId, HotkeyModifierSet};
use crate::ipc::{IpcResponseResult, ReloadConfigReport};
use crate::layout::{LayoutDirection, WindowParticipation};
use crate::monitor_layout::MonitorLayoutState;
use crate::mouse_drag::is_modifier_drag_candidate;
use crate::placement::{
    extended_style_is_tool_window, far_from_the_ends, fills_monitor_without_frame, next_placement,
};
use crate::size::{constraints_from_min_track_size, Size, WindowSizeConstraints};
use crate::workspace::{WorkspaceId, WorkspaceManager, WorkspaceSwitchPlan};

verus! {

/// A window that is not where it is to be is moved by as much as it missed its place, at each edge, and
/// this is tried twice at most; one that is in its place, or of which nothing is known, is left.
pub proof fn missed_place_is_corrected(
    pass: usize,
    target: Rect,
    desired: Rect,
    actual: Option<Rect>,
    next: Option<Rect>,
)
    requires
        call_ensures(next_placement, (pass, target, desired, actual), next),
        far_from_the_ends(target),
        far_from_the_ends(desired),
        actual matches Some(rect) ==> far_from_the_ends(rect),
    ensures
        actual is None || actual == Some(desired) || pass >= 2 ==> next is None,
        actual matches Some(rect) ==> (rect != desired && pass < 2 ==> (next matches Some(moved)
            && moved.left - target.left == desired.left - rect.left && moved.top - target.top
            == desired.top - rect.top && moved.right - target.right == desired.right - rect.right
            && moved.bottom - target.bottom == desired.bottom - rect.bottom)),
{
}

/// A window can be dragged with the modifiers held exactly if it is visible, not cloaked, covers something
/// as far as is known, and is neither the desktop nor the taskbar.
pub proof fn desktop_is_not_dragged(
    visible: bool,
    cloaked: bool,
    rect: Option<Rect>,
    class_name: Option<&str>,
    found: bool,
)
    requires
        call_ensures(is_modifier_drag_candidate, (visible, cloaked, rect, class_name), found),
    ensures
        found <==> {
            &&& visible
            &&& !cloaked
            &&& rect matches Some(rect) ==> rect.left < rect.right && rect.top < rect.bottom
            &&& class_name matches Some(name) ==> name@ != "Progman"@ && name@ != "WorkerW"@ && name@
                != "Shell_TrayWnd"@ && name@ != "NotifyIconOverflowWindow"@
        },
{
}

/// While a game rests the layouts, commands that touch windows are ignored; programs are started, settings
/// are reloaded and the daemon quits all the same.
pub proof fn resting_layouts_ignore_commands(
    state: &DaemonState,
    command: &DaemonCommand,
    route: CommandRoute,
)
    requires
        call_ensures(DaemonState::command_route, (state, command), route),
    ensures
        *command is Launch ==> route == CommandRoute::Launch,
        *command is Reload ==> route == CommandRoute::Reload,
        *command is Quit ==> route == CommandRoute::Plan,
        !(*command is Launch) && !(*command is Reload) && !(*command is Quit) ==> (route
            == if state@.game_mode.pauses_layouts() {
            CommandRoute::Ignore
        } else {
            CommandRoute::Plan
        }),
{
}

/// Commands that touch windows need the monitors, and all of these but those that only move the focus in
/// a direction need the layout.
pub proof fn commands_need_what_they_touch(
    command: &DaemonCommand,
    monitors: bool,
    layout: bool,
    suppressed: bool,
)
    requires
        call_ensures(DaemonCommand::needs_monitors, (command,), monitors),
        call_ensures(DaemonCommand::needs_layout, (command,), layout),
        call_ensures(DaemonCommand::is_suppressed_by_game_mode, (command,), suppressed),
    ensures
        *command is Quit || *command is Reload || *command is Launch ==> !monitors && !layout
            && !suppressed,
        !(*command is Quit || *command is Reload || *command is Launch) ==> monitors && suppressed,
        *command is Focus ==> !layout,
        *command is Swap || *command is Retile || *command is ToggleFloat || *command is SwitchWorkspace
            || *command is SwitchWorkspaceRelative || *command is MoveFocusedToWorkspace
            || *command is MoveFocusedToWorkspaceAndFollow || *command is MoveFocusedToMonitor
            || *command is SendWorkspaceToMonitor ==> layout,
{
}

/// The hotkeys are numbered from one, and each number gives the command that is bound under it.
pub proof fn hotkeys_are_numbered_from_one(
    map: &HotkeyCommandMap,
    id: HotkeyId,
    found: Option<&DaemonCommand>,
)
    requires
        call_ensures(HotkeyCommandMap::command, (map, id), found),
    ensures
        1 <= id.0 <= map.commands@.len() ==> (found matches Some(command) && *command
            == map.commands@[id.0 - 1]),
        id.0 < 1 || id.0 > map.commands@.len() ==> found is None,
{
}

/// Each modifier counts as held if its key is down, the super key if either of the two is.
pub proof fn keys_that_are_down_are_held(
    alt: bool,
    control: bool,
    shift: bool,
    left: bool,
    right: bool,
    held: HotkeyModifierSet,
)
    requires
        call_ensures(held_modifiers, (alt, control, shift, left, right), held),
    ensures
        held.alt == alt,
        held.control == control,
        held.shift == shift,
        held.super_key <==> left || right,
        !held.no_repeat,
{
}

/// A report is one of a window if it names one, is about the window itself and not about a part of it, is
/// not about a border that the daemon draws, and is of a kind that counts; it keeps its window and time.
pub proof fn only_reports_on_windows_count(
    event: u32,
    window: WindowHandle,
    object: i32,
    child: i32,
    time: u32,
    border: bool,
    report: Option<WindowEvent>,
)
    requires
        call_ensures(window_event, (event, window, object, child, time, border), report),
    ensures
        window.0 == 0 || object != 0 || child != 0 || border ==> report is None,
        report matches Some(told) ==> told.window == window && told.event_time == time,
        window.0 != 0 && object == 0 && child == 0 && !border && event == 0x800b ==> (report matches Some(
            told,
        ) && told.kind == WindowEventKind::Moved),
        window.0 != 0 && object == 0 && child == 0 && !border && event == 0x8001 ==> (report matches Some(
            told,
        ) && told.kind == WindowEventKind::Destroyed),
{
}

/// A drag has ended when the button is up; while it is down, the cursor has moved, stands still or is not
/// known.
pub proof fn drag_ends_with_the_button(
    down: bool,
    last: Option<Point>,
    cursor: Option<Point>,
    poll: DragPoll,
)
    requires
        call_ensures(drag_poll, (down, last, cursor), poll),
    ensures
        !down ==> poll is Ended,
        down && cursor is None ==> poll is Lost,
        down ==> (cursor matches Some(at) ==> (if last == cursor {
            poll is Still
        } else {
            poll == DragPoll::Moved(at)
        })),
{
    if down && cursor is Some {
        let at = cursor.unwrap();
        assert(poll == DragPoll::Moved(at) <==> last != Some(at));
        if last == cursor {
            if let DragPoll::Moved(other) = poll {
                assert(poll == DragPoll::Moved(other) <==> cursor == Some(other) && last != Some(
                    other,
                ));
            }
        }
    }
}

/// The window whose move begins is that of the first report in a batch that says so.
pub proof fn first_beginning_of_a_move_counts(
    batch: &[WindowEvent],
    found: Option<WindowHandle>,
    at: int,
)
    requires
        call_ensures(movesize_start_window, (batch,), found),
    ensures
        0 <= at < batch@.len() && batch@[at].kind == WindowEventKind::MoveSizeStart && (forall|i: int|
            0 <= i < at ==> (#[trigger] batch@[i]).kind != WindowEventKind::MoveSizeStart) ==> found
            == Some(batch@[at].window),
        (forall|i: int|
            0 <= i < batch@.len() ==> (#[trigger] batch@[i]).kind != WindowEventKind::MoveSizeStart)
            ==> found is None,
{
    lemma_first_kept(batch@, crate::daemon_events::begins_movesize());
    assert(forall|i: int|
        0 <= i < batch@.len() ==> crate::daemon_events::begins_movesize()(#[trigger] batch@[i]) == (
        batch@[i].kind == WindowEventKind::MoveSizeStart));
}

/// A least size that a window states is believed if one of its sides is more than nothing and both are less
/// than ten thousand pixels; sides below zero count as none.
pub proof fn implausible_sizes_are_not_believed(stated: Option<Size>, limits: WindowSizeConstraints)
    requires
        call_ensures(constraints_from_min_track_size, (stated,), limits),
    ensures
        limits.max is None,
        stated is None ==> limits.min.width == 0 && limits.min.height == 0,
        stated matches Some(size) ==> {
            let believed = (size.width > 0 || size.height > 0) && size.width < 10_000 && size.height
                < 10_000;
            &&& !believed ==> limits.min.width == 0 && limits.min.height == 0
            &&& believed && size.width >= 0 ==> limits.min.width == size.width
            &&& believed && size.height >= 0 ==> limits.min.height == size.height
            &&& believed && size.width < 0 ==> limits.min.width == 0
            &&& believed && size.height < 0 ==> limits.min.height == 0
        },
{
}

/// A window fills a monitor without a frame if its style has neither caption nor thick frame and its
/// rectangle reaches the edges of a monitor or its work area up to four pixels.
pub proof fn frameless_window_fills_a_monitor(
    rect: Rect,
    monitors: &[MonitorInfo],
    style: u32,
    found: bool,
    at: int,
)
    requires
        call_ensures(fills_monitor_without_frame, (Some(rect), monitors, style), found),
        0 <= at < monitors@.len(),
    ensures
        found ==> style & 0x00c4_0000u32 == 0,
        style & 0x00c4_0000u32 == 0 && rect.left <= monitors@[at].rect.left + 4 && rect.top
            <= monitors@[at].rect.top + 4 && rect.right >= monitors@[at].rect.right - 4 && rect.bottom
            >= monitors@[at].rect.bottom - 4 ==> found,
        found ==> exists|i: int|
            0 <= i < monitors@.len() && (rect.right >= (#[trigger] monitors@[i]).rect.right - 4
                || rect.right >= monitors@[i].work_area.right - 4),
{
    if style & 0x00c4_0000u32 == 0 && rect.left <= monitors@[at].rect.left + 4 && rect.top
        <= monitors@[at].rect.top + 4 && rect.right >= monitors@[at].rect.right - 4 && rect.bottom
        >= monitors@[at].rect.bottom - 4 {
        assert(crate::monitors::fills(rect, monitors@[at].rect, 4));
        assert(crate::monitors::fills_some_monitor(rect, monitors@, 4));
    }
}

/// A tool window is told by its own style bit.
pub proof fn tool_windows_have_their_bit(style: u32, found: bool)
    requires
        call_ensures(extended_style_is_tool_window, (style,), found),
    ensures
        found <==> style & 0x80u32 != 0,
{
}

/// The path of the executable is needed only where conditions speak of it or of its name.
pub proof fn paths_are_needed_for_conditions_on_them(rules: &HotkeyBypassRules, needed: bool)
    requires
        call_ensures(HotkeyBypassRules::needs_process_metadata, (rules,), needed),
    ensures
        needed <==> rules.executable_paths@.len() > 0 || rules.process_names@.len() > 0,
{
}

/// An answer is taken only for what was asked: a state for a state, and a report of a reload for a reload.
pub proof fn answers_are_taken_for_what_was_asked(
    answer: IpcResponseResult,
    state: Result<crate::ipc::DaemonStateSnapshot, String>,
    reload: Result<ReloadConfigReport, String>,
)
    requires
        call_ensures(crate::report::expect_state, (answer,), state),
        call_ensures(crate::report::expect_reload_config, (answer,), reload),
    ensures
        state is Ok <==> answer is State,
        reload is Ok <==> answer is ReloadConfig,
        answer matches IpcResponseResult::State(told) ==> state == Ok::<_, String>(told),
        answer matches IpcResponseResult::ReloadConfig(told) ==> reload == Ok::<_, String>(told),
{
}

/// A batch grows with each report on a window and is handled when it holds five hundred and twelve or
/// nothing more comes; a shutdown stops it.
pub proof fn batch_is_handled_when_it_is_full_or_all_is_quiet(event: WindowEvent)
    ensures
        forall|batch: &mut Vec<WindowEvent>, step: BatchStep| #[trigger]
            call_ensures(extend_batch, (batch, BatchInput::Window(event)), step) ==> (*final(batch))@
                == (*batch)@.push(event) && (step == if (*batch)@.len() + 1 < 512 {
                BatchStep::Wait
            } else {
                BatchStep::Handle
            }),
        forall|batch: &mut Vec<WindowEvent>, step: BatchStep| #[trigger]
            call_ensures(extend_batch, (batch, BatchInput::Silence), step) ==> (*final(batch))@
                == (*batch)@ && step == BatchStep::Handle,
        forall|batch: &mut Vec<WindowEvent>, step: BatchStep| #[trigger]
            call_ensures(extend_batch, (batch, BatchInput::Shutdown), step) ==> (*final(batch))@
                == (*batch)@ && step == BatchStep::Stop,
        forall|batch: &mut Vec<WindowEvent>, step: BatchStep| #[trigger]
            call_ensures(extend_batch, (batch, BatchInput::Other), step) ==> (*final(batch))@
                == (*batch)@ && step == BatchStep::Wait,
{
}

/// A border is removed when its window covers nothing, coloured anew when its colour changed, and moved
/// when its rectangle or its width did; nothing is done for one that is as it is to be.
pub proof fn borders_change_when_they_must(update: BorderUpdate, width: i32)
    requires
        width >= 1,
    ensures
        forall|borders: &mut BorderOverlayState, step: BorderStep| #[trigger]
            call_ensures(BorderOverlayState::update, (borders, update, width), step) && (
            *borders)@.contains_key(update.window.0) ==> {
                let before = (*borders)@[update.window.0];
                let after = (*final(borders))@;
                let empty = update.rect.right <= update.rect.left || update.rect.bottom
                    <= update.rect.top;
                &&& step.remove <==> empty
                &&& empty ==> !after.contains_key(update.window.0) && step.recolor is None
                    && step.reposition is None
                &&& !empty ==> {
                    &&& step.recolor is Some <==> before.color != update.color
                    &&& step.recolor is Some ==> step.recolor == Some(update.color)
                    &&& step.reposition is Some <==> before.rect != Some(update.rect) || before.width
                        != width
                    &&& after.contains_key(update.window.0)
                    &&& after[update.window.0].rect == Some(update.rect)
                    &&& after[update.window.0].width == width
                    &&& after[update.window.0].color == update.color
                }
            },
{
}

/// Switching the floating of a window floats it if it is tiled and tiles it if it floats, in whatever way,
/// and says which; a window that is not there is left and nothing is said.
pub proof fn floating_is_switched_on_the_monitor(window: WindowHandle)
    ensures
        forall|layout: &mut MonitorLayoutState, answer: Option<bool>| #[trigger]
            call_ensures(MonitorLayoutState::toggle_floating, (layout, window), answer) ==> {
                let before = (*layout)@;
                let after = (*final(layout))@;
                let tiled = !before.floating.contains_key(window.0)
                    || before.floating[window.0] == WindowParticipation::Tiled;
                &&& !before.windows.contains(window) ==> answer is None && after == before
                &&& before.windows.contains(window) && tiled ==> answer == Some(true)
                    && after.floating.contains_key(window.0) && after.floating[window.0]
                    == WindowParticipation::Floating
                &&& before.windows.contains(window) && !tiled ==> answer == Some(false)
                    && !after.floating.contains_key(window.0)
                &&& after.windows == before.windows && after.focused == before.focused
            },
{
}

/// A window floats for a while unless it floats for good, and what floats for a while, and that alone, is
/// tiled again.
pub proof fn floating_for_a_while_comes_and_goes(window: WindowHandle)
    ensures
        forall|layout: &mut MonitorLayoutState, answer: bool| #[trigger]
            call_ensures(MonitorLayoutState::set_temporarily_floating, (layout, window), answer) ==> {
                let before = (*layout)@;
                let after = (*final(layout))@;
                let good = before.floating.contains_key(window.0) && before.floating[window.0]
                    == WindowParticipation::Floating;
                &&& answer <==> before.windows.contains(window) && !good
                &&& answer ==> after.floating.contains_key(window.0) && after.floating[window.0]
                    == WindowParticipation::TemporarilyFloating
                &&& !answer ==> after == before
            },
        forall|layout: &mut MonitorLayoutState, answer: bool| #[trigger]
            call_ensures(MonitorLayoutState::clear_temporary_floating, (layout, window), answer) ==> {
                let before = (*layout)@;
                let after = (*final(layout))@;
                let short = before.floating.contains_key(window.0) && before.floating[window.0]
                    == WindowParticipation::TemporarilyFloating;
                &&& answer <==> short
                &&& answer ==> !after.floating.contains_key(window.0)
                &&& !answer ==> after == before
            },
        forall|state: &mut DaemonState, answer: bool| #[trigger]
            call_ensures(DaemonState::clear_temporary_float, (state, window), answer) ==> {
                let before = (*state)@;
                let after = (*final(state))@;
                let short = before.participation.contains_key(window.0)
                    && before.participation[window.0] == WindowParticipation::TemporarilyFloating;
                &&& answer <==> short
                &&& answer ==> !after.participation.contains_key(window.0)
                &&& !answer ==> after == before
            },
{
}

/// The ratio of the master moves by the points asked for and stays between a tenth and nine tenths.
pub proof fn master_ratio_moves_within_its_range(points: i8)
    ensures
        forall|layout: &mut MonitorLayoutState, ratio: u8| #[trigger]
            call_ensures(MonitorLayoutState::adjust_master_ratio, (layout, points), ratio) ==> {
                let wanted = (*layout)@.config.master_ratio_percent + points;
                &&& 10 <= wanted <= 90 ==> ratio == wanted
                &&& wanted < 10 ==> ratio == 10
                &&& wanted > 90 ==> ratio == 90
                &&& (*final(layout))@.config.master_ratio_percent == ratio
                &&& (*final(layout))@.windows == (*layout)@.windows
                &&& (*final(layout))@.config.kind == (*layout)@.config.kind
                &&& (*final(layout))@.config.gap == (*layout)@.config.gap
            },
{
}

/// The focus goes to a window that is there, and stays otherwise; moving it in a direction brings it to the
/// neighbour and says which that is.
pub proof fn focus_goes_to_windows_that_are_there(window: WindowHandle, direction: LayoutDirection)
    ensures
        forall|layout: &mut MonitorLayoutState, answer: bool| #[trigger]
            call_ensures(MonitorLayoutState::focus_window, (layout, window), answer) ==> {
                &&& answer <==> (*layout)@.windows.contains(window)
                &&& answer ==> (*final(layout))@.focused == Some(window)
                &&& !answer ==> (*final(layout))@ == (*layout)@
                &&& (*final(layout))@.windows == (*layout)@.windows
            },
        forall|layout: &mut MonitorLayoutState, answer: Option<WindowHandle>| #[trigger]
            call_ensures(MonitorLayoutState::move_focus, (layout, direction), answer) ==> {
                &&& answer == (*layout)@.neighbor((*layout)@.focused, direction)
                &&& (*final(layout))@.focused == answer
                &&& (*final(layout))@.windows == (*layout)@.windows
            },
{
}

/// The window with the focus changes places with its neighbour in the direction, and every other window
/// stays in its place.
pub proof fn focused_window_changes_places(direction: LayoutDirection, at: int, to: int)
    ensures
        forall|layout: &mut MonitorLayoutState, answer: Option<WindowHandle>| #[trigger]
            call_ensures(MonitorLayoutState::swap_focused, (layout, direction), answer) && (
            *layout)@.windows.no_duplicates() && 0 <= at < (*layout)@.windows.len() && (
            *layout)@.focused == Some((*layout)@.windows[at]) && 0 <= to < (*layout)@.windows.len() && (
            direction is Right || direction is Down ==> to == at + 1 || (to == 0 && at + 1 == (
            *layout)@.windows.len())) && (direction is Left || direction is Up ==> to == at - 1 || (at == 0
                && to + 1 == (*layout)@.windows.len())) ==> {
                let before = (*layout)@.windows;
                let after = (*final(layout))@.windows;
                &&& answer == Some(before[to])
                &&& after.len() == before.len()
                &&& after[at] == before[to] && after[to] == before[at]
                &&& forall|i: int|
                    0 <= i < before.len() && i != at && i != to ==> #[trigger] after[i] == before[i]
                &&& (*final(layout))@.focused == (*layout)@.focused
            },
{
    assert forall|layout: &mut MonitorLayoutState, answer: Option<WindowHandle>| #[trigger]
        call_ensures(MonitorLayoutState::swap_focused, (layout, direction), answer) && (
        *layout)@.windows.no_duplicates() && 0 <= at < (*layout)@.windows.len() && (*layout)@.focused
            == Some((*layout)@.windows[at]) && 0 <= to < (*layout)@.windows.len() && (direction is Right
            || direction is Down ==> to == at + 1 || (to == 0 && at + 1 == (*layout)@.windows.len())) && (
        direction is Left || direction is Up ==> to == at - 1 || (at == 0 && to + 1 == (
        *layout)@.windows.len())) implies {
        let before = (*layout)@.windows;
        let after = (*final(layout))@.windows;
        &&& answer == Some(before[to])
        &&& after.len() == before.len()
        &&& after[at] == before[to] && after[to] == before[at]
        &&& forall|i: int|
            0 <= i < before.len() && i != at && i != to ==> #[trigger] after[i] == before[i]
        &&& (*final(layout))@.focused == (*layout)@.focused
    } by {
        crate::handles::lemma_position_is((*layout)@.windows, (*layout)@.windows[at], at);
    }
}

/// A window that is moved to another workspace is said to have moved; one that is there already, or is not
/// known, is not.
pub proof fn moves_between_workspaces_are_told(window: WindowHandle, workspace: WorkspaceId)
    ensures
        forall|workspaces: &mut WorkspaceManager, answer: bool| #[trigger]
            call_ensures(
                WorkspaceManager::move_window_to_workspace,
                (workspaces, window, workspace),
                answer,
            ) ==> {
                let before = (*workspaces)@;
                let after = (*final(workspaces))@;
                &&& answer <==> before.windows.contains_key(window.0)
                    && before.windows[window.0].workspace != workspace
                &&& before.windows.contains_key(window.0) ==> after.windows[window.0].workspace
                    == workspace
                &&& after.active == before.active && after.monitors == before.monitors
            },
{
}

/// Where a window was last seen, and whether it is seen everywhere, is noted of windows that are known, and
/// of them alone.
pub proof fn only_known_windows_are_noted(window: WindowHandle, rect: Rect, everywhere: bool)
    ensures
        forall|workspaces: &mut WorkspaceManager, answer: bool| #[trigger]
            call_ensures(WorkspaceManager::update_window_rect, (workspaces, window, rect), answer) ==> {
                let before = (*workspaces)@;
                let after = (*final(workspaces))@;
                &&& answer <==> before.windows.contains_key(window.0)
                &&& answer ==> after.windows[window.0].last_rect == Some(rect)
                    && after.windows[window.0].workspace == before.windows[window.0].workspace
                &&& !answer ==> after == before
            },
        forall|workspaces: &mut WorkspaceManager, answer: bool| #[trigger]
            call_ensures(
                WorkspaceManager::set_visible_on_all_workspaces,
                (workspaces, window, everywhere),
                answer,
            ) ==> {
                let before = (*workspaces)@;
                let after = (*final(workspaces))@;
                &&& answer <==> before.windows.contains_key(window.0)
                &&& answer ==> after.windows[window.0].visible_on_all_workspaces == everywhere
                    && after.windows[window.0].workspace == before.windows[window.0].workspace
                    && after.windows[window.0].last_rect == before.windows[window.0].last_rect
                &&& !answer ==> after == before
            },
        forall|workspaces: &mut WorkspaceManager, answer: bool| #[trigger]
            call_ensures(WorkspaceManager::remove_window, (workspaces, window), answer) ==> {
                &&& answer <==> (*workspaces)@.windows.contains_key(window.0)
                &&& !(*final(workspaces))@.windows.contains_key(window.0)
                &&& (*final(workspaces))@.active == (*workspaces)@.active
            },
{
}

/// A switch of the active workspace hides what is bound to the old one and shows what is bound to the new
/// one, and a switch on a monitor does so with what that monitor shows.
pub proof fn switches_hide_and_show(target: WorkspaceId, monitor: crate::geometry::MonitorId, window: WindowHandle)
    ensures
        forall|workspaces: &mut WorkspaceManager, plan: WorkspaceSwitchPlan| #[trigger]
            call_ensures(WorkspaceManager::switch_to, (workspaces, target), plan) ==> {
                let before = (*workspaces)@;
                &&& (*final(workspaces))@.active == target
                &&& plan.hide@.contains(window) <==> target != before.active
                    && before.windows.contains_key(window.0)
                    && !before.windows[window.0].visible_on_all_workspaces
                    && before.windows[window.0].workspace == before.active
            },
        forall|workspaces: &mut WorkspaceManager, plan: WorkspaceSwitchPlan| #[trigger]
            call_ensures(
                WorkspaceManager::switch_monitor_to,
                (workspaces, monitor, target),
                plan,
            ) ==> {
                let before = (*workspaces)@;
                let shown = before.active_on(monitor);
                &&& (*final(workspaces))@.active == target
                &&& (*final(workspaces))@.focused == Some(monitor)
                &&& (*final(workspaces))@.active_on(monitor) == target
                &&& plan.hide@.contains(window) <==> target != shown && before.windows.contains_key(
                    window.0,
                ) && !before.windows[window.0].visible_on_all_workspaces
                    && before.windows[window.0].workspace == shown
            },
{
}

/// The windows are placed at the start exactly if the settings say so and no game rests the layouts then.
pub proof fn windows_are_placed_at_the_start_if_set(monitors: &[MonitorInfo], cursor: Option<Point>)
    ensures
        forall|state: &mut DaemonState, tiles: Option<Vec<TileAssignment>>| #[trigger]
            call_ensures(DaemonState::startup_retile, (state, monitors, cursor), tiles) ==> {
                let before = (*state)@;
                let found = before.synced(monitors@).with_game_mode(monitors@);
                &&& !before.config.startup_retile ==> tiles is None && (*final(state))@ == before
                &&& before.config.startup_retile && found.game_mode.pauses_layouts() ==> tiles is None
                &&& before.config.startup_retile && !found.game_mode.pauses_layouts() ==> (
                tiles matches Some(list) && list@ == found.all_tiles(monitors@, cursor))
            },
{
}

/// A drag by the title bar begins only where no drag with the modifiers goes on.
pub proof fn one_drag_at_a_time(
    window: WindowHandle,
    cursor: Point,
    rect: Option<Rect>,
    monitors: &[MonitorInfo],
)
    ensures
        forall|state: &mut DaemonState, begun: bool| #[trigger]
            call_ensures(
                DaemonState::start_titlebar_drag,
                (state, window, cursor, rect, monitors),
                begun,
            ) ==> {
                let before = (*state)@;
                let after = (*final(state))@;
                &&& before.modifier_drag is Some ==> !begun && after == before
                &&& begun ==> (after.interactive_drag matches Some(drag) && drag.window == window
                    && drag.start_cursor == cursor)
            },
        forall|state: &mut DaemonState, found: Option<(crate::daemon_state::ActiveModifierDrag, Rect)>|
         #[trigger]
            call_ensures(DaemonState::end_modifier_drag, (state, window, cursor), found) ==> {
                let before = (*state)@;
                &&& (*final(state))@.modifier_drag is None
                &&& found is Some <==> before.modifier_drag is Some
                    && before.modifier_drag.unwrap().window == window
                &&& found matches Some(ended) ==> Some(ended.0) == before.modifier_drag
                &&& (*final(state))@.windows == before.windows
            },
{
}

} // verus!
