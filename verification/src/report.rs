//! What is told to the user: the state of the daemon, and the outcome of a reload or a command.

use vstd::prelude::*;

use crate::game_mode::{join_texts, joined};
use crate::ipc::{
    CommandReport, DaemonPerformanceSnapshot, DaemonStateSnapshot, IpcResponseResult,
    MonitorStateSnapshot, ReloadConfigReport, WindowParticipationSnapshot, WindowStateSnapshot, PROTOCOL_VERSION,
};
use crate::numeral::{decimal, format_handle, handle_text, numeral};
use crate::table::{cut, truncate, yes_no, yes_or_no};

verus! {

/// A number in decimal.
pub open spec fn number(value: int) -> Seq<char> {
    numeral(value as nat, 10)
}

/// Where settings come from.
pub open spec fn path_or_defaults(path: Option<String>) -> Seq<char> {
    match path {
        Some(path) => path@,
        None => "<defaults>"@,
    }
}

/// A handle, or a dash if there is none.
pub open spec fn handle_or_dash(handle: Option<u64>) -> Seq<char> {
    match handle {
        Some(handle) => handle_text(handle),
        None => "-"@,
    }
}

/// The number of a workspace, or a dash if there is none.
pub open spec fn workspace_or_dash(workspace: Option<u16>) -> Seq<char> {
    match workspace {
        Some(workspace) => number(workspace as int),
        None => "-"@,
    }
}

fn push_path(text: &mut String, path: &Option<String>)
    ensures
        final(text)@ == old(text)@ + path_or_defaults(*path),
{
    match path {
        Some(path) => text.push_str(path),
        None => text.push_str("<defaults>"),
    }
}

fn push_number(text: &mut String, value: u64)
    ensures
        final(text)@ == old(text)@ + number(value as int),
{
    text.push_str(&decimal(value));
}

fn push_handle(text: &mut String, handle: Option<u64>)
    ensures
        final(text)@ == old(text)@ + handle_or_dash(handle),
{
    match handle {
        Some(handle) => text.push_str(&format_handle(handle)),
        None => text.push_str("-"),
    }
}

/// How a window takes part, as text.
pub open spec fn participation_name(participation: WindowParticipationSnapshot) -> Seq<char> {
    match participation {
        WindowParticipationSnapshot::Tiled => "tiled"@,
        WindowParticipationSnapshot::Floating => "floating"@,
        WindowParticipationSnapshot::TemporarilyFloating => "temporary-floating"@,
        WindowParticipationSnapshot::OverflowFloating => "overflow-floating"@,
    }
}

/// How a window takes part, as text.
pub fn participation_label(participation: WindowParticipationSnapshot) -> (r: &'static str)
    ensures
        r@ == participation_name(participation),
{
    match participation {
        WindowParticipationSnapshot::Tiled => "tiled",
        WindowParticipationSnapshot::Floating => "floating",
        WindowParticipationSnapshot::TemporarilyFloating => "temporary-floating",
        WindowParticipationSnapshot::OverflowFloating => "overflow-floating",
    }
}

/// The lines on the settings, the windows, the workspace and the focus.
pub open spec fn state_head(snapshot: DaemonStateSnapshot) -> Seq<char> {
    "Winland daemon is running (IPC protocol v"@ + number(PROTOCOL_VERSION as int)
        + ").\nConfig: v"@ + number(snapshot.config_version as int) + " from "@ + path_or_defaults(
        snapshot.config_path,
    ) + " loaded at "@ + number(snapshot.config_loaded_at_unix_ms as int) + "\nWindows: "@ + number(
        snapshot.total_windows as int,
    ) + " total, "@ + number(snapshot.manageable_windows as int) + " manageable, "@ + number(
        snapshot.floating_windows as int,
    ) + " floating, "@ + number(snapshot.temporary_floating_windows as int)
        + " temporary floating\nWorkspace: active "@ + number(snapshot.active_workspace as int)
        + "\nForeground: "@ + handle_or_dash(snapshot.foreground_window)
}

/// The line on what the daemon has done.
pub open spec fn performance_line(performance: DaemonPerformanceSnapshot) -> Seq<char> {
    "\nPerformance: "@ + number(performance.relayout_count as int) + " relayouts, "@ + number(
        performance.skipped_relayout_count as int,
    ) + " skipped, last "@ + number(performance.last_relayout_duration_ms as int) + " ms / "@
        + number(performance.last_relayout_move_count as int) + " moves, "@ + number(
        performance.border_window_count as int,
    ) + " borders, game mode "@ + yes_or_no(performance.game_mode_active) + ", "@ + number(
        performance.config_reload_count as int,
    ) + " config reloads"@
}

/// The line on a monitor.
pub open spec fn monitor_line(monitor: MonitorStateSnapshot) -> Seq<char> {
    "\n  "@ + handle_text(monitor.monitor_id) + " workspace "@ + number(monitor.workspace_id as int)
        + (if monitor.focused {
        " focused"@
    } else {
        ""@
    })
}

/// The lines on monitors.
pub open spec fn monitor_lines(monitors: Seq<MonitorStateSnapshot>) -> Seq<char>
    decreases monitors.len(),
{
    if monitors.len() == 0 {
        "\n\nMonitors:"@
    } else {
        monitor_lines(monitors.drop_last()) + monitor_line(monitors.last())
    }
}

/// The line on a window.
pub open spec fn window_line(window: WindowStateSnapshot) -> Seq<char> {
    "\n  "@ + handle_text(window.handle) + " ws "@ + workspace_or_dash(window.workspace_id)
        + " mon "@ + handle_or_dash(window.monitor_id) + " "@ + participation_name(
        window.participation,
    ) + (if window.constrained {
        " constrained"@
    } else {
        ""@
    }) + (if window.visible_on_active_workspace {
        " visible"@
    } else {
        " hidden"@
    }) + " - "@ + cut(window.title@, 48)
}

/// The lines on windows.
pub open spec fn window_lines(windows: Seq<WindowStateSnapshot>) -> Seq<char>
    decreases windows.len(),
{
    if windows.len() == 0 {
        "\n\nWindows:"@
    } else {
        window_lines(windows.drop_last()) + window_line(windows.last())
    }
}

/// The state of the daemon as text.
pub open spec fn state_text(snapshot: DaemonStateSnapshot) -> Seq<char> {
    state_head(snapshot) + performance_line(snapshot.performance) + (if snapshot.monitors@.len() > 0 {
        monitor_lines(snapshot.monitors@)
    } else {
        Seq::empty()
    }) + (if snapshot.windows@.len() > 0 {
        window_lines(snapshot.windows@)
    } else {
        Seq::empty()
    })
}

fn format_head(snapshot: &DaemonStateSnapshot) -> (r: String)
    ensures
        r@ == state_head(*snapshot),
{
    let mut text: String = "Winland daemon is running (IPC protocol v".to_owned();
    push_number(&mut text, PROTOCOL_VERSION as u64);
    text.push_str(").\nConfig: v");
    push_number(&mut text, snapshot.config_version);
    text.push_str(" from ");
    push_path(&mut text, &snapshot.config_path);
    text.push_str(" loaded at ");
    push_number(&mut text, snapshot.config_loaded_at_unix_ms);
    text.push_str("\nWindows: ");
    push_number(&mut text, snapshot.total_windows as u64);
    text.push_str(" total, ");
    push_number(&mut text, snapshot.manageable_windows as u64);
    text.push_str(" manageable, ");
    push_number(&mut text, snapshot.floating_windows as u64);
    text.push_str(" floating, ");
    push_number(&mut text, snapshot.temporary_floating_windows as u64);
    text.push_str(" temporary floating\nWorkspace: active ");
    push_number(&mut text, snapshot.active_workspace as u64);
    text.push_str("\nForeground: ");
    push_handle(&mut text, snapshot.foreground_window);
    text
}

fn format_performance(performance: &DaemonPerformanceSnapshot) -> (r: String)
    ensures
        r@ == performance_line(*performance),
{
    let mut text: String = "\nPerformance: ".to_owned();
    push_number(&mut text, performance.relayout_count);
    text.push_str(" relayouts, ");
    push_number(&mut text, performance.skipped_relayout_count);
    text.push_str(" skipped, last ");
    push_number(&mut text, performance.last_relayout_duration_ms);
    text.push_str(" ms / ");
    push_number(&mut text, performance.last_relayout_move_count as u64);
    text.push_str(" moves, ");
    push_number(&mut text, performance.border_window_count as u64);
    text.push_str(" borders, game mode ");
    text.push_str(yes_no(performance.game_mode_active));
    text.push_str(", ");
    push_number(&mut text, performance.config_reload_count);
    text.push_str(" config reloads");
    text
}

fn format_monitor(monitor: &MonitorStateSnapshot) -> (r: String)
    ensures
        r@ == monitor_line(*monitor),
{
    let mut text: String = "\n  ".to_owned();
    text.push_str(&format_handle(monitor.monitor_id));
    text.push_str(" workspace ");
    push_number(&mut text, monitor.workspace_id as u64);
    text.push_str(
        if monitor.focused {
            " focused"
        } else {
            ""
        },
    );
    text
}

fn format_window(window: &WindowStateSnapshot) -> (r: String)
    ensures
        r@ == window_line(*window),
{
    let mut text: String = "\n  ".to_owned();
    text.push_str(&format_handle(window.handle));
    text.push_str(" ws ");
    match window.workspace_id {
        Some(workspace) => push_number(&mut text, workspace as u64),
        None => text.push_str("-"),
    }
    text.push_str(" mon ");
    push_handle(&mut text, window.monitor_id);
    text.push_str(" ");
    text.push_str(participation_label(window.participation));
    text.push_str(
        if window.constrained {
            " constrained"
        } else {
            ""
        },
    );
    text.push_str(
        if window.visible_on_active_workspace {
            " visible"
        } else {
            " hidden"
        },
    );
    text.push_str(" - ");
    text.push_str(&truncate(&window.title, 48));
    text
}

fn format_monitors(monitors: &[MonitorStateSnapshot]) -> (r: String)
    ensures
        r@ == monitor_lines(monitors@),
{
    let mut text: String = "\n\nMonitors:".to_owned();
    let mut index: usize = 0;
    while index < monitors.len()
        invariant
            index <= monitors.len(),
            text@ == monitor_lines(monitors@.take(index as int)),
        decreases monitors.len() - index,
    {
        proof {
            assert(monitors@.take(index + 1).drop_last() =~= monitors@.take(index as int));
            assert(monitors@.take(index + 1).last() == monitors@[index as int]);
        }
        text.push_str(&format_monitor(&monitors[index]));
        index = index + 1;
    }
    proof {
        assert(monitors@.take(index as int) =~= monitors@);
    }
    text
}

fn format_windows(windows: &[WindowStateSnapshot]) -> (r: String)
    ensures
        r@ == window_lines(windows@),
{
    let mut text: String = "\n\nWindows:".to_owned();
    let mut index: usize = 0;
    while index < windows.len()
        invariant
            index <= windows.len(),
            text@ == window_lines(windows@.take(index as int)),
        decreases windows.len() - index,
    {
        proof {
            assert(windows@.take(index + 1).drop_last() =~= windows@.take(index as int));
            assert(windows@.take(index + 1).last() == windows@[index as int]);
        }
        text.push_str(&format_window(&windows[index]));
        index = index + 1;
    }
    proof {
        assert(windows@.take(index as int) =~= windows@);
    }
    text
}

/// The state of the daemon as text.
pub fn format_state_snapshot(snapshot: &DaemonStateSnapshot) -> (r: String)
    ensures
        r@ == state_text(*snapshot),
{
    let mut text: String = format_head(snapshot);
    text.push_str(&format_performance(&snapshot.performance));
    if snapshot.monitors.len() > 0 {
        text.push_str(&format_monitors(&snapshot.monitors));
    }
    if snapshot.windows.len() > 0 {
        text.push_str(&format_windows(&snapshot.windows));
    }
    proof {
        assert(text@ =~= state_text(*snapshot));
    }
    text
}

/// The outcome of a reload as text.
pub open spec fn reload_text(report: ReloadConfigReport) -> Seq<char> {
    "Config reloaded successfully.\nConfig: v"@ + number(report.config_version as int) + " from "@
        + path_or_defaults(report.config_path) + " loaded at "@ + number(
        report.reloaded_at_unix_ms as int,
    ) + "\nChanged: "@ + joined(report.changed_sections@, ", "@) + "\nWindows: "@ + number(
        report.state.total_windows as int,
    ) + " total, "@ + number(report.state.manageable_windows as int)
        + " manageable\nWorkspace: active "@ + number(report.state.active_workspace as int)
}

/// The outcome of a reload as text.
pub fn format_reload_config_report(report: &ReloadConfigReport) -> (r: String)
    ensures
        r@ == reload_text(*report),
{
    let mut text: String = "Config reloaded successfully.\nConfig: v".to_owned();
    push_number(&mut text, report.config_version);
    text.push_str(" from ");
    push_path(&mut text, &report.config_path);
    text.push_str(" loaded at ");
    push_number(&mut text, report.reloaded_at_unix_ms);
    text.push_str("\nChanged: ");
    text.push_str(&join_texts(&report.changed_sections, ", "));
    text.push_str("\nWindows: ");
    push_number(&mut text, report.state.total_windows as u64);
    text.push_str(" total, ");
    push_number(&mut text, report.state.manageable_windows as u64);
    text.push_str(" manageable\nWorkspace: active ");
    push_number(&mut text, report.state.active_workspace as u64);
    text
}

/// The outcome of a command as text.
pub fn format_command_report(report: &CommandReport) -> (r: String)
    ensures
        r@ == "Command executed: "@ + report.command@,
{
    let mut text: String = "Command executed: ".to_owned();
    text.push_str(&report.command);
    text
}

/// Why an answer is not the one that was asked for.
pub open spec fn refused_answer(message: Seq<char>) -> Seq<char> {
    "daemon IPC error: "@ + message
}

fn refusal_text(message: &str) -> (r: String)
    ensures
        r@ == refused_answer(message@),
{
    let mut text: String = "daemon IPC error: ".to_owned();
    text.push_str(message);
    text
}

/// The state in the answer to a request for it, or what is said if the answer is another one.
pub fn expect_state(result: IpcResponseResult) -> (r: Result<DaemonStateSnapshot, String>)
    ensures
        match result {
            IpcResponseResult::State(snapshot) => r == Ok::<_, String>(snapshot),
            IpcResponseResult::Error(error) => r matches Err(text) && text@ == refused_answer(
                error.message@,
            ),
            IpcResponseResult::ReloadConfig(_) => r matches Err(text) && text@
                == "daemon returned reload-config response to state request"@,
            IpcResponseResult::Command(_) => r matches Err(text) && text@
                == "daemon returned command response to state request"@,
        },
{
    match result {
        IpcResponseResult::State(snapshot) => Ok(snapshot),
        IpcResponseResult::Error(error) => Err(refusal_text(&error.message)),
        IpcResponseResult::ReloadConfig(_) => Err(
            "daemon returned reload-config response to state request".to_owned(),
        ),
        IpcResponseResult::Command(_) => Err(
            "daemon returned command response to state request".to_owned(),
        ),
    }
}

/// The report in the answer to a request to reload the settings, or what is said if the answer is
/// another one.
pub fn expect_reload_config(result: IpcResponseResult) -> (r: Result<ReloadConfigReport, String>)
    ensures
        match result {
            IpcResponseResult::ReloadConfig(report) => r == Ok::<_, String>(report),
            IpcResponseResult::Error(error) => r matches Err(text) && text@ == refused_answer(
                error.message@,
            ),
            IpcResponseResult::State(_) => r matches Err(text) && text@
                == "daemon returned state response to reload-config request"@,
            IpcResponseResult::Command(_) => r matches Err(text) && text@
                == "daemon returned command response to reload-config request"@,
        },
{
    match result {
        IpcResponseResult::ReloadConfig(report) => Ok(report),
        IpcResponseResult::Error(error) => Err(refusal_text(&error.message)),
        IpcResponseResult::State(_) => Err(
            "daemon returned state response to reload-config request".to_owned(),
        ),
        IpcResponseResult::Command(_) => Err(
            "daemon returned command response to reload-config request".to_owned(),
        ),
    }
}

} // verus!
