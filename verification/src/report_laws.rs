//! What is told of the daemon, and what the widget makes of it.

use vstd::prelude::*;

use crate::daemon_state::DaemonView;
use crate::game_mode::{joined, reason_text, GameModeReason};
use crate::geometry::{MonitorInfo, Rect, WindowHandle};
use crate::handles::{lemma_first_kept, ordered_handles};
use crate::ipc::{
    accepted_request, accepted_response, framed, DaemonStateSnapshot, IpcRequest, IpcResponse,
    MonitorStateSnapshot, ProtocolError, WindowParticipationSnapshot, WindowStateSnapshot,
};
use crate::layout::WindowParticipation;
use crate::numeral::{handle_text, numeral};
use crate::report::{handle_or_dash, monitor_line, participation_name, window_line, workspace_or_dash};
use crate::widget::{
    are_window_rows, are_workspace_rows, difference, highest_shown, highest_used, highest_workspace,
    is_active_workspace, is_focused_monitor, most_alike, shown_workspace, widget_height, widget_monitors,
    is_active_row, is_focused_row, summary, with_block, WidgetData, WidgetUpdate, WindowWidgetRow,
    WorkspaceWidgetRow,
};
use crate::window::WindowInfo;

verus! {

/// A window is told with its title, its monitor and workspace, whether it has the focus, is minimized, is
/// seen, how it takes part, and whether its size is limited.
pub proof fn windows_are_told_as_they_are(
    state: DaemonView,
    window: WindowHandle,
    monitors: Seq<MonitorInfo>,
    told: WindowStateSnapshot,
)
    requires
        state.tells_window(window, monitors, told),
    ensures
        told.handle == window.0 && told.title@ == state.windows[window.0].title@,
        told.focused <==> state.foreground == Some(window),
        told.is_minimized <==> state.windows[window.0].is_minimized,
        told.visible_on_active_workspace <==> state.visible(window, monitors),
        told.monitor_id is Some <==> state.owner(window, monitors) is Some,
        state.owner(window, monitors) matches Some(monitor) ==> told.monitor_id == Some(monitor.0),
        told.workspace_id is Some <==> state.workspaces.windows.contains_key(window.0),
        state.workspaces.windows.contains_key(window.0) ==> told.workspace_id == Some(
            state.workspaces.windows[window.0].workspace.0,
        ),
        told.participation == WindowParticipationSnapshot::Tiled <==> !state.floats(window),
        told.participation == WindowParticipationSnapshot::Floating <==> state.takes_part(window)
            == WindowParticipation::Floating,
        told.participation == WindowParticipationSnapshot::TemporarilyFloating <==> state.takes_part(
            window,
        ) == WindowParticipation::TemporarilyFloating,
        told.constrained <==> state.limits(window).min.width != 0 || state.limits(window).min.height != 0
            || state.limits(window).max is Some,
{
}

/// Each monitor is told with the workspace that it shows and whether it has the focus, in their order, and
/// the state as a whole with what is active, what has the focus, and what was counted.
pub proof fn state_is_told_as_it_is(
    state: DaemonView,
    monitors: Seq<MonitorInfo>,
    told: DaemonStateSnapshot,
    i: int,
)
    requires
        state.tells(monitors, told),
    ensures
        told.monitors@.len() == monitors.len(),
        0 <= i < monitors.len() ==> {
            &&& told.monitors@[i].monitor_id == monitors[i].id.0
            &&& told.monitors@[i].workspace_id == state.workspaces.active_on(monitors[i].id).0
            &&& told.monitors@[i].focused <==> state.workspaces.focused == Some(monitors[i].id)
        },
        told.active_workspace == state.workspaces.active.0,
        state.foreground is None ==> told.foreground_window is None,
        state.foreground matches Some(window) ==> told.foreground_window == Some(window.0),
        told.config_version == state.config_version,
        told.windows@.len() == ordered_handles(state.windows).len(),
        told.windows@.len() == told.total_windows,
        told.performance.relayout_count == state.perf.relayout_count,
        told.performance.skipped_relayout_count == state.perf.skipped_relayout_count,
        told.performance.last_relayout_duration_ms == state.perf.last_relayout_duration_ms,
        told.performance.last_relayout_move_count == state.perf.last_relayout_move_count,
        told.performance.border_window_count == state.perf.border_window_count,
        told.performance.config_reload_count == state.perf.config_reload_count,
        told.performance.managed_window_count == told.manageable_windows,
        told.performance.game_mode_active <==> state.game_mode.active is Some,
{
}

/// Messages are accepted, and written, in version one of the protocol only; another version is told of
/// together with the one expected, and what cannot be read is told of as such.
pub proof fn only_version_one_is_spoken(
    request: IpcRequest,
    response: IpcResponse,
    reason: String,
    body: Vec<u8>,
    version: u16,
)
    ensures
        request.protocol_version == 1 ==> accepted_request(Ok(request)) == Ok::<
            IpcRequest,
            ProtocolError,
        >(request),
        request.protocol_version != 1 ==> accepted_request(Ok(request)) == Err::<
            IpcRequest,
            ProtocolError,
        >(
            ProtocolError::UnsupportedVersion { actual: request.protocol_version, expected: 1 },
        ),
        accepted_request(Err(reason)) == Err::<IpcRequest, ProtocolError>(ProtocolError::Json(reason)),
        response.protocol_version == 1 ==> accepted_response(Ok(response)) == Ok::<
            IpcResponse,
            ProtocolError,
        >(response),
        response.protocol_version != 1 ==> accepted_response(Ok(response)) == Err::<
            IpcResponse,
            ProtocolError,
        >(
            ProtocolError::UnsupportedVersion { actual: response.protocol_version, expected: 1 },
        ),
        accepted_response(Err(reason)) == Err::<IpcResponse, ProtocolError>(
            ProtocolError::Json(reason),
        ),
        version == 1 ==> framed(version, Ok(body)) == Ok::<Seq<u8>, ProtocolError>(body@.push(10)),
        version != 1 ==> framed(version, Ok(body)) == Err::<Seq<u8>, ProtocolError>(
            ProtocolError::UnsupportedVersion { actual: version, expected: 1 },
        ),
        version == 1 ==> framed(version, Err(reason)) == Err::<Seq<u8>, ProtocolError>(
            ProtocolError::Json(reason),
        ),
{
}

/// The widget shows the workspace of the first monitor that has the focus, or the active one where none
/// has, and never one below the first.
pub proof fn widget_shows_the_focused_workspace(snapshot: DaemonStateSnapshot, at: int)
    ensures
        0 <= at < snapshot.monitors@.len() && snapshot.monitors@[at].focused && (forall|i: int|
            0 <= i < at ==> !(#[trigger] snapshot.monitors@[i]).focused)
            && snapshot.monitors@[at].workspace_id >= 1 ==> shown_workspace(snapshot)
            == snapshot.monitors@[at].workspace_id,
        (forall|i: int| 0 <= i < snapshot.monitors@.len() ==> !(#[trigger] snapshot.monitors@[i]).focused)
            && snapshot.active_workspace >= 1 ==> shown_workspace(snapshot)
            == snapshot.active_workspace,
        shown_workspace(snapshot) >= 1,
{
    lemma_first_kept(snapshot.monitors@, is_focused_monitor());
    assert(forall|i: int|
        0 <= i < snapshot.monitors@.len() ==> is_focused_monitor()(#[trigger] snapshot.monitors@[i])
            == snapshot.monitors@[i].focused);
}

proof fn lemma_highest_shown(
    monitors: Seq<crate::ipc::MonitorStateSnapshot>,
    least: int,
    at: int,
)
    ensures
        highest_shown(monitors, least) >= least,
        0 <= at < monitors.len() ==> highest_shown(monitors, least) >= monitors[at].workspace_id,
    decreases monitors.len(),
{
    if monitors.len() > 0 {
        lemma_highest_shown(monitors.drop_last(), least, at);
        assert(monitors[monitors.len() - 1] == monitors.last());
        if 0 <= at < monitors.len() - 1 {
            assert(monitors.drop_last()[at] == monitors[at]);
        }
    }
}

proof fn lemma_highest_used(windows: Seq<WindowStateSnapshot>, least: int, at: int)
    ensures
        highest_used(windows, least) >= least,
        0 <= at < windows.len() && windows[at].workspace_id is Some ==> highest_used(windows, least)
            >= windows[at].workspace_id.unwrap(),
    decreases windows.len(),
{
    if windows.len() > 0 {
        lemma_highest_used(windows.drop_last(), least, at);
        assert(windows[windows.len() - 1] == windows.last());
        if 0 <= at < windows.len() - 1 {
            assert(windows.drop_last()[at] == windows[at]);
        }
    }
}

/// The widget lists every workspace up to the highest one that is active, that a monitor shows or that a
/// window is on.
pub proof fn widget_lists_every_workspace_in_use(snapshot: DaemonStateSnapshot, at: int)
    ensures
        highest_workspace(snapshot) >= snapshot.active_workspace,
        0 <= at < snapshot.monitors@.len() ==> highest_workspace(snapshot)
            >= snapshot.monitors@[at].workspace_id,
        0 <= at < snapshot.windows@.len() && snapshot.windows@[at].workspace_id is Some
            ==> highest_workspace(snapshot) >= snapshot.windows@[at].workspace_id.unwrap(),
{
    let shown = highest_shown(snapshot.monitors@, snapshot.active_workspace as int);
    lemma_highest_shown(snapshot.monitors@, snapshot.active_workspace as int, at);
    lemma_highest_used(snapshot.windows@, shown, at);
}

/// A workspace is marked in the widget exactly if it is the active one or is shown on a monitor that has
/// the focus; each has a row of its own, numbered from one.
pub proof fn widget_rows_are_numbered(
    rows: Seq<WorkspaceWidgetRow>,
    count: u16,
    snapshot: DaemonStateSnapshot,
    cli: Seq<char>,
    i: int,
)
    requires
        are_workspace_rows(rows, count, Some(snapshot), cli),
        0 <= i < rows.len(),
    ensures
        rows.len() == count,
        rows[i].id == i + 1,
        rows[i].name@ == crate::numeral::numeral((i + 1) as nat, 10),
        rows[i].command@ == cli + " command "@ + ("switch-workspace "@ + crate::numeral::numeral(
            (i + 1) as nat,
            10,
        )),
        rows[i].active <==> snapshot.active_workspace == i + 1 || exists|j: int|
            0 <= j < snapshot.monitors@.len() && (#[trigger] snapshot.monitors@[j]).focused
                && snapshot.monitors@[j].workspace_id == i + 1,
        rows[i].window_count <= snapshot.windows@.len(),
{
    let row = rows[i];
    let id = (i + 1) as u16;
    crate::daemon_focus::lemma_filter_members(
        snapshot.windows@,
        crate::widget::is_on_workspace(id),
    );
    assert(is_active_workspace(snapshot, id) == row.active);
}

/// A window's row in the widget says of it what the daemon tells.
pub proof fn widget_rows_say_what_is_told(
    rows: Seq<WindowWidgetRow>,
    windows: Seq<WindowStateSnapshot>,
    cli: Seq<char>,
    i: int,
)
    requires
        are_window_rows(rows, windows, cli),
        0 <= i < rows.len(),
    ensures
        rows.len() == windows.len(),
        rows[i].handle == windows[i].handle,
        rows[i].title@ == windows[i].title@,
        rows[i].focused <==> windows[i].focused,
        rows[i].visible <==> windows[i].visible_on_active_workspace,
        rows[i].is_minimized <==> windows[i].is_minimized,
        windows[i].workspace_id matches Some(workspace) ==> rows[i].workspace_id == workspace,
        windows[i].workspace_id is None ==> rows[i].workspace_id == 0,
        rows[i].command@ == cli + " command "@ + ("focus-window "@ + crate::numeral::handle_text(
            windows[i].handle,
        )),
{
}

/// The widget is as high as it is to be, but no higher than its monitor, which counts as a pixel high at
/// least.
pub proof fn widget_is_no_higher_than_its_monitor(monitor: MonitorInfo, height: u32)
    requires
        monitor.rect.bottom - monitor.rect.top <= i32::MAX,
        height <= i32::MAX,
    ensures
        ({
            let room = monitor.rect.bottom - monitor.rect.top;
            &&& room >= 1 && height <= room ==> widget_height(monitor, height) == height
            &&& room >= 1 && height > room ==> widget_height(monitor, height) == room
            &&& room < 1 && height >= 1 ==> widget_height(monitor, height) == 1
        }),
{
}

/// The window of a process that is most like a rectangle is one of that process, none of its windows is
/// more like it, and of those as like it is the first.
pub proof fn most_alike_window_is_of_the_process(
    windows: Seq<WindowInfo>,
    process: u32,
    target: Rect,
    other: int,
) -> (at: int)
    requires
        0 <= other < windows.len(),
        windows[other].process_id == process,
    ensures
        0 <= at < windows.len(),
        most_alike(windows, process, target) == Some(windows[at]),
        windows[at].process_id == process,
        difference(windows[at].rect, target) <= difference(windows[other].rect, target),
        other < at ==> difference(windows[at].rect, target) < difference(windows[other].rect, target),
    decreases windows.len(),
{
    let rest = windows.drop_last();
    let last = windows.len() - 1;
    assert(windows[last] == windows.last());
    assert(forall|i: int| 0 <= i < rest.len() ==> #[trigger] rest[i] == windows[i]);
    if other < rest.len() {
        let before = most_alike_window_is_of_the_process(rest, process, target, other);
        if windows.last().process_id == process && difference(windows.last().rect, target) < difference(
            rest[before].rect,
            target,
        ) {
            last
        } else {
            before
        }
    } else {
        lemma_none_or_of_the_process(rest, process, target);
        match most_alike(rest, process, target) {
            None => last,
            Some(best) => {
                let place = choose|i: int| 0 <= i < rest.len() && #[trigger] rest[i] == best;
                let before = most_alike_window_is_of_the_process(rest, process, target, place);
                if difference(windows.last().rect, target) < difference(best.rect, target) {
                    last
                } else {
                    before
                }
            },
        }
    }
}

proof fn lemma_none_or_of_the_process(windows: Seq<WindowInfo>, process: u32, target: Rect)
    ensures
        most_alike(windows, process, target) matches Some(best) ==> best.process_id == process
            && exists|i: int| 0 <= i < windows.len() && #[trigger] windows[i] == best,
    decreases windows.len(),
{
    if windows.len() > 0 {
        let rest = windows.drop_last();
        lemma_none_or_of_the_process(rest, process, target);
        assert(windows[windows.len() - 1] == windows.last());
        if let Some(best) = most_alike(rest, process, target) {
            let i = choose|i: int| 0 <= i < rest.len() && #[trigger] rest[i] == best;
            assert(windows[i] == best);
        }
    }
}

/// A rectangle is most like itself, and the less so the farther its middle is and the more its size
/// differs.
pub proof fn rect_is_most_like_itself(rect: Rect, target: Rect)
    ensures
        difference(target, target) == 0,
        difference(rect, target) >= 0,
        difference(rect, target) == 0 ==> rect.middle() == target.middle() && rect.spec_width()
            == target.spec_width() && rect.spec_height() == target.spec_height(),
{
    let dx = crate::num::clamp_i32(rect.middle().x - target.middle().x);
    let dy = crate::num::clamp_i32(rect.middle().y - target.middle().y);
    assert(dx * dx >= 0 && dy * dy >= 0 && (dx * dx == 0 ==> dx == 0) && (dy * dy == 0 ==> dy == 0))
        by (nonlinear_arith);
    let none = crate::num::clamp_i32(target.middle().x - target.middle().x);
    assert(none * none == 0) by (nonlinear_arith)
        requires
            none == 0,
    ;
}

/// The widget stands on every monitor if it is to, and on the main one otherwise.
pub proof fn widget_stands_where_it_is_to(monitors: Seq<MonitorInfo>)
    ensures
        widget_monitors(monitors, true) == Some(monitors),
        widget_monitors(monitors, false) matches Some(chosen) ==> chosen.len() == 1 && Some(chosen[0])
            == crate::cli::main_monitor(monitors),
        widget_monitors(monitors, false) is None <==> crate::cli::main_monitor(monitors) is None,
{
}

/// A block that a plugin sends takes the place of the one that it sent before, or comes last; the blocks
/// of others stay.
pub proof fn block_takes_the_place_of_its_own(
    blocks: Seq<crate::plugin::PluginWidgetBlock>,
    block: crate::plugin::PluginWidgetBlock,
    at: int,
    other: int,
)
    requires
        0 <= other < blocks.len(),
    ensures
        0 <= at < blocks.len() && blocks[at].source@ == block.source@ && (forall|i: int|
            0 <= i < at ==> (#[trigger] blocks[i]).source@ != block.source@) ==> {
            let after = with_block(blocks, block);
            after.len() == blocks.len() && after[at] == block && (other != at ==> after[other]
                == blocks[other])
        },
        (forall|i: int| 0 <= i < blocks.len() ==> (#[trigger] blocks[i]).source@ != block.source@) ==> {
            let after = with_block(blocks, block);
            after.len() == blocks.len() + 1 && after[blocks.len() as int] == block && after[other]
                == blocks[other]
        },
{
    if 0 <= at < blocks.len() && blocks[at].source@ == block.source@ && (forall|i: int|
        0 <= i < at ==> (#[trigger] blocks[i]).source@ != block.source@) {
        lemma_block_place(blocks, block.source@, 0, at);
    }
    if forall|i: int| 0 <= i < blocks.len() ==> (#[trigger] blocks[i]).source@ != block.source@ {
        lemma_no_block(blocks, block.source@, 0);
    }
}

proof fn lemma_block_place(
    blocks: Seq<crate::plugin::PluginWidgetBlock>,
    source: Seq<char>,
    from: int,
    at: int,
)
    requires
        0 <= from <= at < blocks.len(),
        blocks[at].source@ == source,
        forall|i: int| from <= i < at ==> (#[trigger] blocks[i]).source@ != source,
    ensures
        crate::widget::block_place(blocks, source, from) == Some(at),
    decreases at - from,
{
    if from < at {
        lemma_block_place(blocks, source, from + 1, at);
    }
}

proof fn lemma_no_block(
    blocks: Seq<crate::plugin::PluginWidgetBlock>,
    source: Seq<char>,
    from: int,
)
    requires
        0 <= from <= blocks.len(),
        forall|i: int| from <= i < blocks.len() ==> (#[trigger] blocks[i]).source@ != source,
    ensures
        crate::widget::block_place(blocks, source, from) is None,
    decreases blocks.len() - from,
{
    if from < blocks.len() {
        lemma_no_block(blocks, source, from + 1);
    }
}

/// A state that the daemon tells makes the widget show its workspace, list the windows of that workspace,
/// and have a row for each workspace; the time and the blocks of plugins stay.
pub proof fn widget_takes_over_what_is_told(snapshot: DaemonStateSnapshot, text: String)
    ensures
        forall|data: &mut WidgetData| #[trigger]
            call_ensures(WidgetData::apply, (data, WidgetUpdate::DaemonState(snapshot)), ()) ==> {
                let after = *final(data);
                &&& after.active_workspace == shown_workspace(snapshot)
                &&& after.workspace_count >= (*data).workspace_count
                &&& after.workspace_count >= snapshot.active_workspace && after.workspace_count >= 1
                &&& after.workspaces@.len() == after.workspace_count
                &&& after.windows@.len() == snapshot.windows@.filter(
                    crate::widget::is_on_workspace(shown_workspace(snapshot) as u16),
                ).len()
                &&& after.time_text == (*data).time_text && after.plugin_blocks == (
                *data).plugin_blocks
            },
        forall|data: &mut WidgetData| #[trigger]
            call_ensures(WidgetData::apply, (data, WidgetUpdate::Time(text)), ()) ==> (
            *final(data)).time_text == text && (*final(data)).workspaces == (*data).workspaces && (
            *final(data)).windows == (*data).windows,
{
    widget_lists_every_workspace_in_use(snapshot, 0);
}

/// The widget's line names the first workspace that is marked, the first window that has the focus, and the
/// time; a dash stands for no workspace, and words for no window.
pub proof fn widget_line_names_what_is_active(data: WidgetData, i: int, j: int)
    ensures
        0 <= i < data.workspaces@.len() && data.workspaces@[i].active && (forall|k: int|
            0 <= k < i ==> !(#[trigger] data.workspaces@[k]).active) && 0 <= j < data.windows@.len()
            && data.windows@[j].focused && (forall|k: int|
            0 <= k < j ==> !(#[trigger] data.windows@[k]).focused) ==> summary(data) == "Workspace "@
            + data.workspaces@[i].name@ + " | "@ + data.windows@[j].title@ + " | "@ + data.time_text@,
        (forall|k: int| 0 <= k < data.workspaces@.len() ==> !(#[trigger] data.workspaces@[k]).active) && (
        forall|k: int| 0 <= k < data.windows@.len() ==> !(#[trigger] data.windows@[k]).focused)
            ==> summary(data) == "Workspace "@ + "-"@ + " | "@ + "no focused window"@ + " | "@
            + data.time_text@,
{
    lemma_first_kept(data.workspaces@, is_active_row());
    lemma_first_kept(data.windows@, is_focused_row());
    assert(forall|k: int|
        0 <= k < data.workspaces@.len() ==> is_active_row()(#[trigger] data.workspaces@[k])
            == data.workspaces@[k].active);
    assert(forall|k: int|
        0 <= k < data.windows@.len() ==> is_focused_row()(#[trigger] data.windows@[k])
            == data.windows@[k].focused);
}

/// A monitor's line tells its identifier and workspace and whether it has the focus; a window's line tells
/// its handle, workspace, monitor and participation, whether it is constrained and whether it is seen.
pub proof fn lines_tell_what_is_told(monitor: MonitorStateSnapshot, window: WindowStateSnapshot)
    ensures
        monitor_line(monitor) == "\n  "@ + handle_text(monitor.monitor_id) + " workspace "@ + numeral(
            monitor.workspace_id as nat,
            10,
        ) + (if monitor.focused {
            " focused"@
        } else {
            ""@
        }),
        window.constrained && window.visible_on_active_workspace ==> window_line(window) == "\n  "@
            + handle_text(window.handle) + " ws "@ + workspace_or_dash(window.workspace_id) + " mon "@
            + handle_or_dash(window.monitor_id) + " "@ + participation_name(window.participation)
            + " constrained"@ + " visible"@ + " - "@ + crate::table::cut(window.title@, 48),
        !window.constrained && !window.visible_on_active_workspace ==> window_line(window) == "\n  "@
            + handle_text(window.handle) + " ws "@ + workspace_or_dash(window.workspace_id) + " mon "@
            + handle_or_dash(window.monitor_id) + " "@ + participation_name(window.participation)
            + ""@ + " hidden"@ + " - "@ + crate::table::cut(window.title@, 48),
        workspace_or_dash(None) == "-"@ && handle_or_dash(None) == "-"@,
        window.workspace_id matches Some(id) ==> workspace_or_dash(window.workspace_id) == numeral(
            id as nat,
            10,
        ),
        window.monitor_id matches Some(id) ==> handle_or_dash(window.monitor_id) == handle_text(id),
        participation_name(WindowParticipationSnapshot::Tiled) == "tiled"@,
        participation_name(WindowParticipationSnapshot::Floating) == "floating"@,
        participation_name(WindowParticipationSnapshot::TemporarilyFloating) == "temporary-floating"@,
        participation_name(WindowParticipationSnapshot::OverflowFloating) == "overflow-floating"@,
{
}

/// Why a window counts as a game is told by its executable, by what the rules call it and the rules that
/// matched, or by what it fills of which monitor.
pub proof fn reasons_are_told(
    exe: String,
    rules: Vec<String>,
    monitor: crate::geometry::MonitorId,
    more: String,
)
    ensures
        reason_text(GameModeReason::ConfiguredExecutable(exe)) == "configured executable "@ + exe@,
        reason_text(
            GameModeReason::WindowRule {
                mode: crate::rules::WindowRuleMode::Game,
                matched_rules: rules,
            },
        ) == "window rule mode "@ + "Game"@ + " via "@ + joined(rules@, ", "@),
        reason_text(
            GameModeReason::WindowRule {
                mode: crate::rules::WindowRuleMode::Fullscreen,
                matched_rules: rules,
            },
        ) == "window rule mode "@ + "Fullscreen"@ + " via "@ + joined(rules@, ", "@),
        reason_text(
            GameModeReason::Fullscreen {
                monitor,
                area: crate::game_mode::FullscreenArea::MonitorBounds,
            },
        ) == "fullscreen "@ + "MonitorBounds"@ + " on monitor "@ + handle_text(monitor.0),
        reason_text(
            GameModeReason::Fullscreen { monitor, area: crate::game_mode::FullscreenArea::WorkArea },
        ) == "fullscreen "@ + "WorkArea"@ + " on monitor "@ + handle_text(monitor.0),
        rules@.len() > 0 ==> joined(rules@.push(more), ", "@) == joined(rules@, ", "@) + ", "@ + more@,
        joined(seq![more], ", "@) == more@,
        joined(Seq::empty(), ", "@).len() == 0,
{
    assert(rules@.push(more).drop_last() =~= rules@);
    assert(rules@.push(more).last() == more);
}

} // verus!
