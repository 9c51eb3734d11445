//! What the texts say that are shown to people.

use vstd::prelude::*;

use crate::cli::{
    detection_lines, fullscreen_note, given_or_dash, identity_lines, is_listed, monitor_cells, monitor_name,
    monitors_text, move_cells, pause_lines, pause_scope_note, reason_note, refusal_or_dash, style_text,
    text_or_dash, window_cells, window_grid, window_headers, windows_text,
};
use crate::commands::{chord_name, failure_text, failures_text, key_name};
use crate::config::{summary_text, GameModeConfig};
use crate::game_mode::{joined, FullscreenArea, FullscreenDetection, GameModeDetection};
use crate::geometry::{MonitorId, MonitorInfo, Rect, TileAssignment};
use crate::handles::lemma_filter_holds;
use crate::hotkey::{HotkeyModifierSet, HotkeyRegistrationFailure, VirtualKey};
use crate::ipc::{
    DaemonPerformanceSnapshot, DaemonStateSnapshot, MonitorStateSnapshot, ReloadConfigReport,
    WindowStateSnapshot,
};
use crate::layout::LayoutConfig;
use crate::monitors::widest;
use crate::numeral::{handle_text, numeral, signed_numeral};
use crate::report::{
    handle_or_dash, monitor_line, monitor_lines, number, path_or_defaults, performance_line, reload_text,
    state_head, state_text, window_line, window_lines,
};
use crate::runtime_config::RuntimeGameModeConfig;
use crate::shell::{ShellReplacementChange, ShellReplacementStatus};
use crate::shell_report::{change_text, given_or, install_text, status_text};
use crate::table::{cut, padded, row_cells, row_text, rows_text, table_text, widths_of, yes_or_no};
use crate::text::{has_part, stands_at};
use crate::window::WindowInfo;

verus! {

proof fn lemma_kept(first: Seq<char>, second: Seq<char>)
    ensures
        forall|part: Seq<char>|
            has_part(first, part) || has_part(second, part) ==> #[trigger] has_part(first + second, part),
{
    assert forall|part: Seq<char>| has_part(first, part) || has_part(second, part) implies #[trigger] has_part(
        first + second,
        part,
    ) by {
        let text = first + second;
        if has_part(first, part) {
            let at = choose|at: int| #[trigger] stands_at(first, part, at);
            assert(text.subrange(at, at + part.len()) =~= first.subrange(at, at + part.len()));
            assert(stands_at(text, part, at));
        } else {
            let at = choose|at: int| #[trigger] stands_at(second, part, at);
            let there = first.len() + at;
            assert(text.subrange(there, there + part.len()) =~= second.subrange(at, at + part.len()));
            assert(stands_at(text, part, there));
        }
    }
}

proof fn lemma_whole(text: Seq<char>)
    ensures
        has_part(text, text),
{
    assert(text.subrange(0, text.len() as int) =~= text);
    assert(stands_at(text, text, 0));
}

proof fn lemma_pair(before: Seq<char>, first: Seq<char>, second: Seq<char>)
    ensures
        has_part(before + first + second, first + second),
{
    let text = before + first + second;
    let part = first + second;
    let at = before.len() as int;
    assert(text.subrange(at, at + part.len()) =~= part);
    assert(stands_at(text, part, at));
}

/// The head of the daemon's state says the version of the protocol, where the settings come from, which
/// version they are and when they were read, how many windows there are of each kind, which workspace is
/// active and which window has the focus.
#[verifier::rlimit(50)]
pub proof fn head_says_what_the_daemon_has(snapshot: DaemonStateSnapshot)
    ensures
        has_part(state_head(snapshot), "Winland daemon is running (IPC protocol v"@ + number(crate::ipc::PROTOCOL_VERSION as int)),
        has_part(state_head(snapshot), ").\nConfig: v"@ + number(snapshot.config_version as int)),
        has_part(state_head(snapshot), " from "@ + path_or_defaults(snapshot.config_path)),
        has_part(state_head(snapshot), " loaded at "@ + number(snapshot.config_loaded_at_unix_ms as int)),
        has_part(state_head(snapshot), "\nWindows: "@ + number(snapshot.total_windows as int)),
        has_part(state_head(snapshot), number(snapshot.total_windows as int) + " total, "@),
        has_part(state_head(snapshot), number(snapshot.manageable_windows as int) + " manageable, "@),
        has_part(state_head(snapshot), number(snapshot.floating_windows as int) + " floating, "@),
        has_part(state_head(snapshot), number(snapshot.temporary_floating_windows as int) + " temporary floating\nWorkspace: active "@),
        has_part(state_head(snapshot), " temporary floating\nWorkspace: active "@ + number(snapshot.active_workspace as int)),
        has_part(state_head(snapshot), "\nForeground: "@ + handle_or_dash(snapshot.foreground_window)),
        snapshot.config_path is None ==> path_or_defaults(snapshot.config_path) == "<defaults>"@,
        snapshot.config_path matches Some(path) ==> path_or_defaults(snapshot.config_path) == path@,
{
    let t0 = "Winland daemon is running (IPC protocol v"@;
    let t1 = t0 + number(crate::ipc::PROTOCOL_VERSION as int);
    let t2 = t1 + ").\nConfig: v"@;
    let t3 = t2 + number(snapshot.config_version as int);
    let t4 = t3 + " from "@;
    let t5 = t4 + path_or_defaults(snapshot.config_path);
    let t6 = t5 + " loaded at "@;
    let t7 = t6 + number(snapshot.config_loaded_at_unix_ms as int);
    let t8 = t7 + "\nWindows: "@;
    let t9 = t8 + number(snapshot.total_windows as int);
    let t10 = t9 + " total, "@;
    let t11 = t10 + number(snapshot.manageable_windows as int);
    let t12 = t11 + " manageable, "@;
    let t13 = t12 + number(snapshot.floating_windows as int);
    let t14 = t13 + " floating, "@;
    let t15 = t14 + number(snapshot.temporary_floating_windows as int);
    let t16 = t15 + " temporary floating\nWorkspace: active "@;
    let t17 = t16 + number(snapshot.active_workspace as int);
    let t18 = t17 + "\nForeground: "@;
    let t19 = t18 + handle_or_dash(snapshot.foreground_window);
    lemma_kept(t0, number(crate::ipc::PROTOCOL_VERSION as int));
    lemma_kept(t1, ").\nConfig: v"@);
    lemma_kept(t2, number(snapshot.config_version as int));
    lemma_kept(t3, " from "@);
    lemma_kept(t4, path_or_defaults(snapshot.config_path));
    lemma_kept(t5, " loaded at "@);
    lemma_kept(t6, number(snapshot.config_loaded_at_unix_ms as int));
    lemma_kept(t7, "\nWindows: "@);
    lemma_kept(t8, number(snapshot.total_windows as int));
    lemma_kept(t9, " total, "@);
    lemma_kept(t10, number(snapshot.manageable_windows as int));
    lemma_kept(t11, " manageable, "@);
    lemma_kept(t12, number(snapshot.floating_windows as int));
    lemma_kept(t13, " floating, "@);
    lemma_kept(t14, number(snapshot.temporary_floating_windows as int));
    lemma_kept(t15, " temporary floating\nWorkspace: active "@);
    lemma_kept(t16, number(snapshot.active_workspace as int));
    lemma_kept(t17, "\nForeground: "@);
    lemma_kept(t18, handle_or_dash(snapshot.foreground_window));
    lemma_whole("Winland daemon is running (IPC protocol v"@ + number(crate::ipc::PROTOCOL_VERSION as int));
    lemma_pair(t1, ").\nConfig: v"@, number(snapshot.config_version as int));
    lemma_pair(t3, " from "@, path_or_defaults(snapshot.config_path));
    lemma_pair(t5, " loaded at "@, number(snapshot.config_loaded_at_unix_ms as int));
    lemma_pair(t7, "\nWindows: "@, number(snapshot.total_windows as int));
    lemma_pair(t8, number(snapshot.total_windows as int), " total, "@);
    lemma_pair(t10, number(snapshot.manageable_windows as int), " manageable, "@);
    lemma_pair(t12, number(snapshot.floating_windows as int), " floating, "@);
    lemma_pair(t14, number(snapshot.temporary_floating_windows as int), " temporary floating\nWorkspace: active "@);
    lemma_pair(t15, " temporary floating\nWorkspace: active "@, number(snapshot.active_workspace as int));
    lemma_pair(t17, "\nForeground: "@, handle_or_dash(snapshot.foreground_window));
    assert(state_head(snapshot) == t19);
}

/// What was counted is said with what it counts: the layouts that were made and those that were not needed,
/// how long the last one took and how many windows it moved, the borders, and the reloads.
pub proof fn counts_are_said_with_what_they_count(performance: DaemonPerformanceSnapshot)
    ensures
        has_part(performance_line(performance), number(performance.relayout_count as int) + " relayouts, "@),
        has_part(performance_line(performance), number(performance.skipped_relayout_count as int) + " skipped, last "@),
        has_part(performance_line(performance), number(performance.last_relayout_duration_ms as int) + " ms / "@),
        has_part(performance_line(performance), number(performance.last_relayout_move_count as int) + " moves, "@),
        has_part(performance_line(performance), number(performance.border_window_count as int) + " borders, game mode "@),
        has_part(performance_line(performance), " borders, game mode "@ + yes_or_no(performance.game_mode_active)),
        has_part(performance_line(performance), number(performance.config_reload_count as int) + " config reloads"@),
{
    let t0 = "\nPerformance: "@;
    let t1 = t0 + number(performance.relayout_count as int);
    let t2 = t1 + " relayouts, "@;
    let t3 = t2 + number(performance.skipped_relayout_count as int);
    let t4 = t3 + " skipped, last "@;
    let t5 = t4 + number(performance.last_relayout_duration_ms as int);
    let t6 = t5 + " ms / "@;
    let t7 = t6 + number(performance.last_relayout_move_count as int);
    let t8 = t7 + " moves, "@;
    let t9 = t8 + number(performance.border_window_count as int);
    let t10 = t9 + " borders, game mode "@;
    let t11 = t10 + yes_or_no(performance.game_mode_active);
    let t12 = t11 + ", "@;
    let t13 = t12 + number(performance.config_reload_count as int);
    let t14 = t13 + " config reloads"@;
    lemma_kept(t0, number(performance.relayout_count as int));
    lemma_kept(t1, " relayouts, "@);
    lemma_kept(t2, number(performance.skipped_relayout_count as int));
    lemma_kept(t3, " skipped, last "@);
    lemma_kept(t4, number(performance.last_relayout_duration_ms as int));
    lemma_kept(t5, " ms / "@);
    lemma_kept(t6, number(performance.last_relayout_move_count as int));
    lemma_kept(t7, " moves, "@);
    lemma_kept(t8, number(performance.border_window_count as int));
    lemma_kept(t9, " borders, game mode "@);
    lemma_kept(t10, yes_or_no(performance.game_mode_active));
    lemma_kept(t11, ", "@);
    lemma_kept(t12, number(performance.config_reload_count as int));
    lemma_kept(t13, " config reloads"@);
    lemma_pair(t0, number(performance.relayout_count as int), " relayouts, "@);
    lemma_pair(t2, number(performance.skipped_relayout_count as int), " skipped, last "@);
    lemma_pair(t4, number(performance.last_relayout_duration_ms as int), " ms / "@);
    lemma_pair(t6, number(performance.last_relayout_move_count as int), " moves, "@);
    lemma_pair(t8, number(performance.border_window_count as int), " borders, game mode "@);
    lemma_pair(t9, " borders, game mode "@, yes_or_no(performance.game_mode_active));
    lemma_pair(t12, number(performance.config_reload_count as int), " config reloads"@);
    assert(performance_line(performance) == t14);
}

proof fn lemma_monitor_lines(monitors: Seq<MonitorStateSnapshot>, i: int)
    requires
        0 <= i < monitors.len(),
    ensures
        has_part(monitor_lines(monitors), monitor_line(monitors[i])),
    decreases monitors.len(),
{
    let rest = monitors.drop_last();
    lemma_kept(monitor_lines(rest), monitor_line(monitors.last()));
    if i < rest.len() {
        lemma_monitor_lines(rest, i);
        assert(rest[i] == monitors[i]);
    } else {
        lemma_whole(monitor_line(monitors.last()));
    }
}

proof fn lemma_window_lines(windows: Seq<WindowStateSnapshot>, i: int)
    requires
        0 <= i < windows.len(),
    ensures
        has_part(window_lines(windows), window_line(windows[i])),
    decreases windows.len(),
{
    let rest = windows.drop_last();
    lemma_kept(window_lines(rest), window_line(windows.last()));
    if i < rest.len() {
        lemma_window_lines(rest, i);
        assert(rest[i] == windows[i]);
    } else {
        lemma_whole(window_line(windows.last()));
    }
}

/// The daemon's state as text has its head, what was counted, a line for each monitor and one for each
/// window; where there are none, their headings are left out.
pub proof fn state_is_told_line_by_line(snapshot: DaemonStateSnapshot, i: int, j: int)
    ensures
        has_part(state_text(snapshot), state_head(snapshot)),
        has_part(state_text(snapshot), performance_line(snapshot.performance)),
        0 <= i < snapshot.monitors@.len() ==> has_part(
            state_text(snapshot),
            monitor_line(snapshot.monitors@[i]),
        ),
        0 <= j < snapshot.windows@.len() ==> has_part(
            state_text(snapshot),
            window_line(snapshot.windows@[j]),
        ),
        snapshot.monitors@.len() == 0 && snapshot.windows@.len() == 0 ==> state_text(snapshot)
            == state_head(snapshot) + performance_line(snapshot.performance),
{
    let monitors = if snapshot.monitors@.len() > 0 {
        monitor_lines(snapshot.monitors@)
    } else {
        Seq::empty()
    };
    let windows = if snapshot.windows@.len() > 0 {
        window_lines(snapshot.windows@)
    } else {
        Seq::empty()
    };
    let head = state_head(snapshot);
    let counts = performance_line(snapshot.performance);
    lemma_whole(head);
    lemma_whole(counts);
    lemma_kept(head, counts);
    lemma_kept(head + counts, monitors);
    lemma_kept(head + counts + monitors, windows);
    assert(state_text(snapshot) == head + counts + monitors + windows);
    if 0 <= i < snapshot.monitors@.len() {
        lemma_monitor_lines(snapshot.monitors@, i);
    }
    if 0 <= j < snapshot.windows@.len() {
        lemma_window_lines(snapshot.windows@, j);
    }
    if snapshot.monitors@.len() == 0 && snapshot.windows@.len() == 0 {
        assert(head + counts + monitors + windows =~= head + counts);
    }
}

/// What is said of a reload: the version of the settings, where they come from, when they were read, what
/// changed in them, and how many windows there are.
pub proof fn reload_is_told(report: ReloadConfigReport)
    ensures
        has_part(reload_text(report), "Config reloaded successfully.\nConfig: v"@ + number(report.config_version as int)),
        has_part(reload_text(report), " from "@ + path_or_defaults(report.config_path)),
        has_part(reload_text(report), " loaded at "@ + number(report.reloaded_at_unix_ms as int)),
        has_part(reload_text(report), "\nChanged: "@ + joined(report.changed_sections@, ", "@)),
        has_part(reload_text(report), number(report.state.total_windows as int) + " total, "@),
        has_part(reload_text(report), number(report.state.manageable_windows as int) + " manageable\nWorkspace: active "@),
        has_part(reload_text(report), " manageable\nWorkspace: active "@ + number(report.state.active_workspace as int)),
{
    let t0 = "Config reloaded successfully.\nConfig: v"@;
    let t1 = t0 + number(report.config_version as int);
    let t2 = t1 + " from "@;
    let t3 = t2 + path_or_defaults(report.config_path);
    let t4 = t3 + " loaded at "@;
    let t5 = t4 + number(report.reloaded_at_unix_ms as int);
    let t6 = t5 + "\nChanged: "@;
    let t7 = t6 + joined(report.changed_sections@, ", "@);
    let t8 = t7 + "\nWindows: "@;
    let t9 = t8 + number(report.state.total_windows as int);
    let t10 = t9 + " total, "@;
    let t11 = t10 + number(report.state.manageable_windows as int);
    let t12 = t11 + " manageable\nWorkspace: active "@;
    let t13 = t12 + number(report.state.active_workspace as int);
    lemma_kept(t0, number(report.config_version as int));
    lemma_kept(t1, " from "@);
    lemma_kept(t2, path_or_defaults(report.config_path));
    lemma_kept(t3, " loaded at "@);
    lemma_kept(t4, number(report.reloaded_at_unix_ms as int));
    lemma_kept(t5, "\nChanged: "@);
    lemma_kept(t6, joined(report.changed_sections@, ", "@));
    lemma_kept(t7, "\nWindows: "@);
    lemma_kept(t8, number(report.state.total_windows as int));
    lemma_kept(t9, " total, "@);
    lemma_kept(t10, number(report.state.manageable_windows as int));
    lemma_kept(t11, " manageable\nWorkspace: active "@);
    lemma_kept(t12, number(report.state.active_workspace as int));
    lemma_whole("Config reloaded successfully.\nConfig: v"@ + number(report.config_version as int));
    lemma_pair(t1, " from "@, path_or_defaults(report.config_path));
    lemma_pair(t3, " loaded at "@, number(report.reloaded_at_unix_ms as int));
    lemma_pair(t5, "\nChanged: "@, joined(report.changed_sections@, ", "@));
    lemma_pair(t8, number(report.state.total_windows as int), " total, "@);
    lemma_pair(t10, number(report.state.manageable_windows as int), " manageable\nWorkspace: active "@);
    lemma_pair(t11, " manageable\nWorkspace: active "@, number(report.state.active_workspace as int));
    assert(reload_text(report) == t13);
}

/// A window is described by its handle, title, class, executable and monitor, by whether it is managed, and
/// by what is against it.
pub proof fn window_is_described(window: WindowInfo, monitors: Seq<MonitorInfo>)
    ensures
        has_part(identity_lines(window, monitors), "Window: "@ + handle_text(window.handle.0)),
        has_part(identity_lines(window, monitors), "\nTitle: "@ + text_or_dash(window.title@)),
        has_part(identity_lines(window, monitors), "\nClass: "@ + text_or_dash(window.class_name@)),
        has_part(identity_lines(window, monitors), "\nExecutable: "@ + given_or_dash(window.executable_path)),
        has_part(identity_lines(window, monitors), "\nMonitor: "@ + monitor_name(window, monitors)),
        has_part(identity_lines(window, monitors), "\nManageable: "@ + yes_or_no(window.refusal() is None)),
        has_part(identity_lines(window, monitors), " ("@ + refusal_or_dash(window)),
{
    let t0 = "Window: "@;
    let t1 = t0 + handle_text(window.handle.0);
    let t2 = t1 + "\nTitle: "@;
    let t3 = t2 + text_or_dash(window.title@);
    let t4 = t3 + "\nClass: "@;
    let t5 = t4 + text_or_dash(window.class_name@);
    let t6 = t5 + "\nExecutable: "@;
    let t7 = t6 + given_or_dash(window.executable_path);
    let t8 = t7 + "\nMonitor: "@;
    let t9 = t8 + monitor_name(window, monitors);
    let t10 = t9 + "\nManageable: "@;
    let t11 = t10 + yes_or_no(window.refusal() is None);
    let t12 = t11 + " ("@;
    let t13 = t12 + refusal_or_dash(window);
    let t14 = t13 + ")\n"@;
    lemma_kept(t0, handle_text(window.handle.0));
    lemma_kept(t1, "\nTitle: "@);
    lemma_kept(t2, text_or_dash(window.title@));
    lemma_kept(t3, "\nClass: "@);
    lemma_kept(t4, text_or_dash(window.class_name@));
    lemma_kept(t5, "\nExecutable: "@);
    lemma_kept(t6, given_or_dash(window.executable_path));
    lemma_kept(t7, "\nMonitor: "@);
    lemma_kept(t8, monitor_name(window, monitors));
    lemma_kept(t9, "\nManageable: "@);
    lemma_kept(t10, yes_or_no(window.refusal() is None));
    lemma_kept(t11, " ("@);
    lemma_kept(t12, refusal_or_dash(window));
    lemma_kept(t13, ")\n"@);
    lemma_whole("Window: "@ + handle_text(window.handle.0));
    lemma_pair(t1, "\nTitle: "@, text_or_dash(window.title@));
    lemma_pair(t3, "\nClass: "@, text_or_dash(window.class_name@));
    lemma_pair(t5, "\nExecutable: "@, given_or_dash(window.executable_path));
    lemma_pair(t7, "\nMonitor: "@, monitor_name(window, monitors));
    lemma_pair(t9, "\nManageable: "@, yes_or_no(window.refusal() is None));
    lemma_pair(t11, " ("@, refusal_or_dash(window));
    assert(identity_lines(window, monitors) == t14);
}

/// What was found out of a window is said: whether it is fullscreen, whether it is a game and why, and the
/// executable and the rules that matched.
pub proof fn findings_are_told(detection: GameModeDetection)
    ensures
        has_part(detection_lines(detection), "Fullscreen: "@ + yes_or_no(detection.fullscreen.is_fullscreen)),
        has_part(detection_lines(detection), "\nGame mode: "@ + (if detection.active {
        "active"@
    } else {
        "inactive"@
    })),
        has_part(detection_lines(detection), "\nDetection reason: "@ + (match detection.reason {
        Some(reason) => reason_note(reason),
        None => "-"@,
    })),
        has_part(detection_lines(detection), "\nMatched game exe: "@ + given_or_dash(detection.matched_executable)),
        has_part(detection_lines(detection), "\nMatched game rule: "@ + (if detection.matched_rules@.len() == 0 {
        "-"@
    } else {
        joined(detection.matched_rules@, ", "@)
    })),
{
    let t0 = "Fullscreen: "@;
    let t1 = t0 + yes_or_no(detection.fullscreen.is_fullscreen);
    let t2 = t1 + fullscreen_note(detection.fullscreen);
    let t3 = t2 + "\nGame mode: "@;
    let t4 = t3 + (if detection.active {
        "active"@
    } else {
        "inactive"@
    });
    let t5 = t4 + "\nDetection reason: "@;
    let t6 = t5 + (match detection.reason {
        Some(reason) => reason_note(reason),
        None => "-"@,
    });
    let t7 = t6 + "\nMatched game exe: "@;
    let t8 = t7 + given_or_dash(detection.matched_executable);
    let t9 = t8 + "\nMatched game rule: "@;
    let t10 = t9 + (if detection.matched_rules@.len() == 0 {
        "-"@
    } else {
        joined(detection.matched_rules@, ", "@)
    });
    let t11 = t10 + "\n"@;
    lemma_kept(t0, yes_or_no(detection.fullscreen.is_fullscreen));
    lemma_kept(t1, fullscreen_note(detection.fullscreen));
    lemma_kept(t2, "\nGame mode: "@);
    lemma_kept(t3, (if detection.active {
        "active"@
    } else {
        "inactive"@
    }));
    lemma_kept(t4, "\nDetection reason: "@);
    lemma_kept(t5, (match detection.reason {
        Some(reason) => reason_note(reason),
        None => "-"@,
    }));
    lemma_kept(t6, "\nMatched game exe: "@);
    lemma_kept(t7, given_or_dash(detection.matched_executable));
    lemma_kept(t8, "\nMatched game rule: "@);
    lemma_kept(t9, (if detection.matched_rules@.len() == 0 {
        "-"@
    } else {
        joined(detection.matched_rules@, ", "@)
    }));
    lemma_kept(t10, "\n"@);
    lemma_whole("Fullscreen: "@ + yes_or_no(detection.fullscreen.is_fullscreen));
    lemma_pair(t2, "\nGame mode: "@, (if detection.active {
        "active"@
    } else {
        "inactive"@
    }));
    lemma_pair(t4, "\nDetection reason: "@, (match detection.reason {
        Some(reason) => reason_note(reason),
        None => "-"@,
    }));
    lemma_pair(t6, "\nMatched game exe: "@, given_or_dash(detection.matched_executable));
    lemma_pair(t8, "\nMatched game rule: "@, (if detection.matched_rules@.len() == 0 {
        "-"@
    } else {
        joined(detection.matched_rules@, ", "@)
    }));
    assert(detection_lines(detection) == t11);
}

/// What rests for a game is said of layouts, borders, animations and hooks, each by its own setting; nothing
/// rests where there is no game.
pub proof fn what_rests_is_told(detection: GameModeDetection, settings: RuntimeGameModeConfig)
    ensures
        has_part(pause_lines(detection, settings), "Layout paused: "@ + yes_or_no(detection.active && settings.pause_all_layouts_when_game_focused)),
        has_part(pause_lines(detection, settings), "\nLayout pause scope: "@ + pause_scope_note(detection, settings)),
        has_part(pause_lines(detection, settings), "\nBorders paused: "@ + yes_or_no(detection.active && settings.disable_borders)),
        has_part(pause_lines(detection, settings), "\nAnimations paused: "@ + yes_or_no(detection.active && settings.disable_animations)),
        has_part(pause_lines(detection, settings), "\nKeyboard/mouse hook bypass: "@ + yes_or_no(detection.active && settings.disable_keyboard_hooks)),
{
    let t0 = "Layout paused: "@;
    let t1 = t0 + yes_or_no(detection.active && settings.pause_all_layouts_when_game_focused);
    let t2 = t1 + "\nLayout pause scope: "@;
    let t3 = t2 + pause_scope_note(detection, settings);
    let t4 = t3 + "\nBorders paused: "@;
    let t5 = t4 + yes_or_no(detection.active && settings.disable_borders);
    let t6 = t5 + "\nAnimations paused: "@;
    let t7 = t6 + yes_or_no(detection.active && settings.disable_animations);
    let t8 = t7 + "\nKeyboard/mouse hook bypass: "@;
    let t9 = t8 + yes_or_no(detection.active && settings.disable_keyboard_hooks);
    let t10 = t9 + "\n"@;
    lemma_kept(t0, yes_or_no(detection.active && settings.pause_all_layouts_when_game_focused));
    lemma_kept(t1, "\nLayout pause scope: "@);
    lemma_kept(t2, pause_scope_note(detection, settings));
    lemma_kept(t3, "\nBorders paused: "@);
    lemma_kept(t4, yes_or_no(detection.active && settings.disable_borders));
    lemma_kept(t5, "\nAnimations paused: "@);
    lemma_kept(t6, yes_or_no(detection.active && settings.disable_animations));
    lemma_kept(t7, "\nKeyboard/mouse hook bypass: "@);
    lemma_kept(t8, yes_or_no(detection.active && settings.disable_keyboard_hooks));
    lemma_kept(t9, "\n"@);
    lemma_whole("Layout paused: "@ + yes_or_no(detection.active && settings.pause_all_layouts_when_game_focused));
    lemma_pair(t1, "\nLayout pause scope: "@, pause_scope_note(detection, settings));
    lemma_pair(t3, "\nBorders paused: "@, yes_or_no(detection.active && settings.disable_borders));
    lemma_pair(t5, "\nAnimations paused: "@, yes_or_no(detection.active && settings.disable_animations));
    lemma_pair(t7, "\nKeyboard/mouse hook bypass: "@, yes_or_no(detection.active && settings.disable_keyboard_hooks));
    assert(pause_lines(detection, settings) == t10);
}

/// A hotkey that could not be registered is told with its description, its number and what went wrong; each
/// of several is told of, in their order and parted by semicolons.
pub proof fn failed_hotkeys_are_told(
    failures: Seq<HotkeyRegistrationFailure>,
    failure: HotkeyRegistrationFailure,
)
    ensures
        failure_text(failure) == failure.description@ + " (id "@ + signed_numeral(failure.id.0 as int)
            + "): "@ + failure.error@,
        failures_text(Seq::empty()).len() == 0,
        failures_text(seq![failure]) == failure_text(failure),
        failures.len() > 0 ==> failures_text(failures.push(failure)) == failures_text(failures) + "; "@
            + failure_text(failure),
{
    assert(failures.push(failure).drop_last() =~= failures);
    assert(seq![failure][0] == failure);
}

/// The keys of a hotkey are named with the Windows key first, then control, alt and shift, as far as they
/// are held, and the key itself last.
pub proof fn held_modifiers_are_named_in_order(modifiers: HotkeyModifierSet, key: VirtualKey)
    ensures
        ({
            let without = |held: HotkeyModifierSet| chord_name(held, key);
            let none = HotkeyModifierSet {
                super_key: false,
                control: false,
                alt: false,
                shift: false,
                ..modifiers
            };
            &&& without(none) == key_name(key)
            &&& modifiers.super_key ==> chord_name(modifiers, key) == "Win+"@ + chord_name(
                HotkeyModifierSet { super_key: false, ..modifiers },
                key,
            )
            &&& !modifiers.super_key && modifiers.control ==> chord_name(modifiers, key) == "Ctrl+"@
                + chord_name(HotkeyModifierSet { control: false, ..modifiers }, key)
            &&& !modifiers.super_key && !modifiers.control && modifiers.alt ==> chord_name(
                modifiers,
                key,
            ) == "Alt+"@ + chord_name(HotkeyModifierSet { alt: false, ..modifiers }, key)
            &&& !modifiers.super_key && !modifiers.control && !modifiers.alt && modifiers.shift
                ==> chord_name(modifiers, key) == "Shift+"@ + key_name(key)
        }),
{
    let none = HotkeyModifierSet {
        super_key: false,
        control: false,
        alt: false,
        shift: false,
        ..modifiers
    };
    assert(chord_name(none, key) =~= key_name(key));
    assert(modifiers.super_key ==> chord_name(modifiers, key) =~= "Win+"@ + chord_name(
        HotkeyModifierSet { super_key: false, ..modifiers },
        key,
    ));
    assert(!modifiers.super_key && modifiers.control ==> chord_name(modifiers, key) =~= "Ctrl+"@
        + chord_name(HotkeyModifierSet { control: false, ..modifiers }, key));
    assert(!modifiers.super_key && !modifiers.control && modifiers.alt ==> chord_name(modifiers, key)
        =~= "Alt+"@ + chord_name(HotkeyModifierSet { alt: false, ..modifiers }, key));
    assert(!modifiers.super_key && !modifiers.control && !modifiers.alt && modifiers.shift
        ==> chord_name(modifiers, key) =~= "Shift+"@ + key_name(key));
}

proof fn lemma_row_has_cells(values: Seq<Seq<char>>, widths: Seq<nat>, j: int)
    requires
        0 <= j < values.len(),
    ensures
        has_part(row_cells(values, widths), values[j]),
    decreases values.len(),
{
    let last = values.len() - 1;
    let rest = values.drop_last();
    let space = if last > 0 {
        "  "@
    } else {
        Seq::empty()
    };
    let cell = padded(values[last], widths[last]);
    lemma_kept(row_cells(rest, widths), space);
    lemma_kept(row_cells(rest, widths) + space, cell);
    if j < last {
        lemma_row_has_cells(rest, widths, j);
        assert(rest[j] == values[j]);
    } else {
        crate::table::padded_cell_keeps_its_text(values[j], widths[j]);
        assert(cell.subrange(0, values[j].len() as int) =~= cell.take(values[j].len() as int));
        assert(stands_at(cell, values[j], 0));
    }
}

proof fn lemma_rows_have_rows(rows: Seq<Seq<Seq<char>>>, widths: Seq<nat>, i: int)
    requires
        0 <= i < rows.len(),
    ensures
        has_part(rows_text(rows, widths), row_text(rows[i], widths)),
    decreases rows.len(),
{
    let rest = rows.drop_last();
    lemma_kept(rows_text(rest, widths), row_text(rows.last(), widths));
    if i < rest.len() {
        lemma_rows_have_rows(rest, widths, i);
        assert(rest[i] == rows[i]);
    } else {
        lemma_whole(row_text(rows.last(), widths));
    }
}

/// A table begins with its headers and has a line for each row, each cell of which is in that line as it
/// is, one behind the other.
pub proof fn table_has_every_cell(headers: Seq<Seq<char>>, rows: Seq<Seq<Seq<char>>>, i: int, j: int)
    requires
        0 <= i < rows.len(),
        0 <= j < rows[i].len(),
    ensures
        ({
            let line = row_text(rows[i], widths_of(headers, rows));
            &&& has_part(table_text(headers, rows), line)
            &&& has_part(line, rows[i][j])
        }),
        0 <= j < headers.len() ==> has_part(
            row_text(headers, widths_of(headers, rows)),
            headers[j],
        ) && stands_at(table_text(headers, rows), row_text(headers, widths_of(headers, rows)), 0),
{
    let widths = widths_of(headers, rows);
    let head = row_text(headers, widths);
    let line = crate::table::dashes(widths).push('\n');
    lemma_kept(head, line);
    lemma_kept(head + line, rows_text(rows, widths));
    lemma_rows_have_rows(rows, widths, i);
    lemma_row_has_cells(rows[i], widths, j);
    let end = seq!['\n'];
    assert(row_text(rows[i], widths) =~= row_cells(rows[i], widths) + end);
    lemma_kept(row_cells(rows[i], widths), end);
    if 0 <= j < headers.len() {
        lemma_row_has_cells(headers, widths, j);
        assert(head =~= row_cells(headers, widths) + end);
        lemma_kept(row_cells(headers, widths), end);
        let text = table_text(headers, rows);
        assert(text.subrange(0, head.len() as int) =~= head);
    }
}

/// What is said of the shell: the value in the registry, the shell that is set, whether that is this program,
/// and the one that was set before.
pub proof fn shell_is_described(status: ShellReplacementStatus)
    ensures
        has_part(status_text(status), "Experimental shell replacement status\nRegistry value: "@ + status.registry_key@),
        has_part(status_text(status), "\\Shell\nCurrent shell: "@ + given_or(status.current_shell, "<not set>"@)),
        has_part(status_text(status), "\nWinland shell mode: "@ + yes_or_no(status.is_winland_shell)),
        has_part(status_text(status), "\nStored previous shell: "@ + given_or(status.backup_shell, "<not stored>"@)),
        has_part(status_text(status), "\nPrevious Shell value existed: "@ + (match status.backup_shell_was_present {
        Some(present) => yes_or_no(present),
        None => "<not stored>"@,
    })),
        status.current_shell is None ==> given_or(status.current_shell, "<not set>"@) == "<not set>"@,
        status.current_shell matches Some(shell) ==> given_or(status.current_shell, "<not set>"@) == shell@,
{
    let t0 = "Experimental shell replacement status\nRegistry value: "@;
    let t1 = t0 + status.registry_key@;
    let t2 = t1 + "\\Shell\nCurrent shell: "@;
    let t3 = t2 + given_or(status.current_shell, "<not set>"@);
    let t4 = t3 + "\nWinland shell mode: "@;
    let t5 = t4 + yes_or_no(status.is_winland_shell);
    let t6 = t5 + "\nStored previous shell: "@;
    let t7 = t6 + given_or(status.backup_shell, "<not stored>"@);
    let t8 = t7 + "\nPrevious Shell value existed: "@;
    let t9 = t8 + (match status.backup_shell_was_present {
        Some(present) => yes_or_no(present),
        None => "<not stored>"@,
    });
    let t10 = t9 + "\n"@;
    lemma_kept(t0, status.registry_key@);
    lemma_kept(t1, "\\Shell\nCurrent shell: "@);
    lemma_kept(t2, given_or(status.current_shell, "<not set>"@));
    lemma_kept(t3, "\nWinland shell mode: "@);
    lemma_kept(t4, yes_or_no(status.is_winland_shell));
    lemma_kept(t5, "\nStored previous shell: "@);
    lemma_kept(t6, given_or(status.backup_shell, "<not stored>"@));
    lemma_kept(t7, "\nPrevious Shell value existed: "@);
    lemma_kept(t8, (match status.backup_shell_was_present {
        Some(present) => yes_or_no(present),
        None => "<not stored>"@,
    }));
    lemma_kept(t9, "\n"@);
    lemma_whole("Experimental shell replacement status\nRegistry value: "@ + status.registry_key@);
    lemma_pair(t1, "\\Shell\nCurrent shell: "@, given_or(status.current_shell, "<not set>"@));
    lemma_pair(t3, "\nWinland shell mode: "@, yes_or_no(status.is_winland_shell));
    lemma_pair(t5, "\nStored previous shell: "@, given_or(status.backup_shell, "<not stored>"@));
    lemma_pair(t7, "\nPrevious Shell value existed: "@, (match status.backup_shell_was_present {
        Some(present) => yes_or_no(present),
        None => "<not stored>"@,
    }));
    assert(status_text(status) == t10);
}

/// Before the shell is replaced, the one that is set and the one that takes its place are said, and how to
/// undo it.
pub proof fn replacement_of_the_shell_is_announced(status: ShellReplacementStatus, command: Seq<char>)
    ensures
        has_part(install_text(status, command), "Installing experimental per-user shell replacement.\nRegistry value: "@ + status.registry_key@),
        has_part(install_text(status, command), "\\Shell\nCurrent shell: "@ + given_or(status.current_shell, "<not set>"@)),
        has_part(install_text(status, command), "\nNew shell: "@ + command),
        has_part(install_text(status, command), command + "\nUndo command: winland shell uninstall --experimental\n"@),
{
    let t0 = "Installing experimental per-user shell replacement.\nRegistry value: "@;
    let t1 = t0 + status.registry_key@;
    let t2 = t1 + "\\Shell\nCurrent shell: "@;
    let t3 = t2 + given_or(status.current_shell, "<not set>"@);
    let t4 = t3 + "\nNew shell: "@;
    let t5 = t4 + command;
    let t6 = t5 + "\nUndo command: winland shell uninstall --experimental\n"@;
    lemma_kept(t0, status.registry_key@);
    lemma_kept(t1, "\\Shell\nCurrent shell: "@);
    lemma_kept(t2, given_or(status.current_shell, "<not set>"@));
    lemma_kept(t3, "\nNew shell: "@);
    lemma_kept(t4, command);
    lemma_kept(t5, "\nUndo command: winland shell uninstall --experimental\n"@);
    lemma_whole("Installing experimental per-user shell replacement.\nRegistry value: "@ + status.registry_key@);
    lemma_pair(t1, "\\Shell\nCurrent shell: "@, given_or(status.current_shell, "<not set>"@));
    lemma_pair(t3, "\nNew shell: "@, command);
    lemma_pair(t4, command, "\nUndo command: winland shell uninstall --experimental\n"@);
    assert(install_text(status, command) == t6);
}

/// A change of the shell is told by the shell that was set before and the one that is set now.
pub proof fn change_of_the_shell_is_told(verb: Seq<char>, change: ShellReplacementChange)
    ensures
        has_part(change_text(verb, change), " "@ + change.registry_key@),
        has_part(change_text(verb, change), "\\Shell from "@ + given_or(change.previous_shell, "<not set>"@)),
        has_part(change_text(verb, change), " to "@ + given_or(change.new_shell, "<not set>"@)),
{
    let t0 = verb;
    let t1 = t0 + " "@;
    let t2 = t1 + change.registry_key@;
    let t3 = t2 + "\\Shell from "@;
    let t4 = t3 + given_or(change.previous_shell, "<not set>"@);
    let t5 = t4 + " to "@;
    let t6 = t5 + given_or(change.new_shell, "<not set>"@);
    let t7 = t6 + "."@;
    lemma_kept(t0, " "@);
    lemma_kept(t1, change.registry_key@);
    lemma_kept(t2, "\\Shell from "@);
    lemma_kept(t3, given_or(change.previous_shell, "<not set>"@));
    lemma_kept(t4, " to "@);
    lemma_kept(t5, given_or(change.new_shell, "<not set>"@));
    lemma_kept(t6, "."@);
    lemma_pair(t0, " "@, change.registry_key@);
    lemma_pair(t2, "\\Shell from "@, given_or(change.previous_shell, "<not set>"@));
    lemma_pair(t4, " to "@, given_or(change.new_shell, "<not set>"@));
    assert(change_text(verb, change) == t7);
}

/// What is said of settings that are in order: where they come from, the layout with its gap, its border and
/// its splits, and whether there are games, how they are found and how many executables are named.
#[verifier::rlimit(50)]
pub proof fn settings_are_summed_up(path: Option<Seq<char>>, layout: LayoutConfig, game_mode: GameModeConfig)
    ensures
        has_part(summary_text(path, layout, game_mode), (match path {
        Some(path) => "Config is valid: "@ + path,
        None => "Config is valid: no config file found, using built-in defaults."@,
    }) + "\nLayout: "@),
        has_part(summary_text(path, layout, game_mode), "\nLayout: "@ + layout.kind.spec_name()),
        has_part(summary_text(path, layout, game_mode), " (gap "@ + signed_numeral(layout.gap as int)),
        has_part(summary_text(path, layout, game_mode), ", border "@ + signed_numeral(layout.border as int)),
        has_part(summary_text(path, layout, game_mode), ", smart_split "@ + yes_or_no(layout.smart_split)),
        has_part(summary_text(path, layout, game_mode), ", preserve_split "@ + yes_or_no(layout.preserve_split)),
        has_part(summary_text(path, layout, game_mode), ")\nGame mode: "@ + (if game_mode.enabled {
        "enabled"@
    } else {
        "disabled"@
    })),
        has_part(summary_text(path, layout, game_mode), " (fullscreen "@ + yes_or_no(game_mode.pause_on_fullscreen)),
        has_part(summary_text(path, layout, game_mode), ", tolerance "@ + signed_numeral(game_mode.fullscreen_tolerance_px as int)),
        has_part(summary_text(path, layout, game_mode), "px, game_exes "@ + numeral(game_mode.game_exes@.len(), 10)),
        has_part(summary_text(path, layout, game_mode), ", ignored_exes "@ + numeral(game_mode.ignored_exes@.len(), 10)),
{
    let t0 = (match path {
        Some(path) => "Config is valid: "@ + path,
        None => "Config is valid: no config file found, using built-in defaults."@,
    });
    let t1 = t0 + "\nLayout: "@;
    let t2 = t1 + layout.kind.spec_name();
    let t3 = t2 + " (gap "@;
    let t4 = t3 + signed_numeral(layout.gap as int);
    let t5 = t4 + ", border "@;
    let t6 = t5 + signed_numeral(layout.border as int);
    let t7 = t6 + ", smart_split "@;
    let t8 = t7 + yes_or_no(layout.smart_split);
    let t9 = t8 + ", preserve_split "@;
    let t10 = t9 + yes_or_no(layout.preserve_split);
    let t11 = t10 + ")\nGame mode: "@;
    let t12 = t11 + (if game_mode.enabled {
        "enabled"@
    } else {
        "disabled"@
    });
    let t13 = t12 + " (fullscreen "@;
    let t14 = t13 + yes_or_no(game_mode.pause_on_fullscreen);
    let t15 = t14 + ", tolerance "@;
    let t16 = t15 + signed_numeral(game_mode.fullscreen_tolerance_px as int);
    let t17 = t16 + "px, game_exes "@;
    let t18 = t17 + numeral(game_mode.game_exes@.len(), 10);
    let t19 = t18 + ", ignored_exes "@;
    let t20 = t19 + numeral(game_mode.ignored_exes@.len(), 10);
    let t21 = t20 + ")\n"@;
    lemma_kept(t0, "\nLayout: "@);
    lemma_kept(t1, layout.kind.spec_name());
    lemma_kept(t2, " (gap "@);
    lemma_kept(t3, signed_numeral(layout.gap as int));
    lemma_kept(t4, ", border "@);
    lemma_kept(t5, signed_numeral(layout.border as int));
    lemma_kept(t6, ", smart_split "@);
    lemma_kept(t7, yes_or_no(layout.smart_split));
    lemma_kept(t8, ", preserve_split "@);
    lemma_kept(t9, yes_or_no(layout.preserve_split));
    lemma_kept(t10, ")\nGame mode: "@);
    lemma_kept(t11, (if game_mode.enabled {
        "enabled"@
    } else {
        "disabled"@
    }));
    lemma_kept(t12, " (fullscreen "@);
    lemma_kept(t13, yes_or_no(game_mode.pause_on_fullscreen));
    lemma_kept(t14, ", tolerance "@);
    lemma_kept(t15, signed_numeral(game_mode.fullscreen_tolerance_px as int));
    lemma_kept(t16, "px, game_exes "@);
    lemma_kept(t17, numeral(game_mode.game_exes@.len(), 10));
    lemma_kept(t18, ", ignored_exes "@);
    lemma_kept(t19, numeral(game_mode.ignored_exes@.len(), 10));
    lemma_kept(t20, ")\n"@);
    lemma_whole((match path {
        Some(path) => "Config is valid: "@ + path,
        None => "Config is valid: no config file found, using built-in defaults."@,
    }) + "\nLayout: "@);
    lemma_pair(t0, "\nLayout: "@, layout.kind.spec_name());
    lemma_pair(t2, " (gap "@, signed_numeral(layout.gap as int));
    lemma_pair(t4, ", border "@, signed_numeral(layout.border as int));
    lemma_pair(t6, ", smart_split "@, yes_or_no(layout.smart_split));
    lemma_pair(t8, ", preserve_split "@, yes_or_no(layout.preserve_split));
    lemma_pair(t10, ")\nGame mode: "@, (if game_mode.enabled {
        "enabled"@
    } else {
        "disabled"@
    }));
    lemma_pair(t12, " (fullscreen "@, yes_or_no(game_mode.pause_on_fullscreen));
    lemma_pair(t14, ", tolerance "@, signed_numeral(game_mode.fullscreen_tolerance_px as int));
    lemma_pair(t16, "px, game_exes "@, numeral(game_mode.game_exes@.len(), 10));
    lemma_pair(t18, ", ignored_exes "@, numeral(game_mode.ignored_exes@.len(), 10));
    assert(summary_text(path, layout, game_mode) == t21);
}

/// A rectangle is written as its left and top edge, and its width and height.
pub proof fn rect_is_written_as_place_and_size(rect: Rect)
    requires
        0 <= rect.right - rect.left <= i32::MAX,
        0 <= rect.bottom - rect.top <= i32::MAX,
    ensures
        rect.spec_text() == signed_numeral(rect.left as int) + seq![','] + signed_numeral(
            rect.top as int,
        ) + seq![' '] + signed_numeral(rect.right - rect.left) + seq!['x'] + signed_numeral(
            rect.bottom - rect.top,
        ),
{
}

/// Each column of the list of windows holds what its header says.
pub proof fn columns_hold_what_their_headers_say(window: WindowInfo)
    ensures
        window_headers().len() == window_cells(window).len(),
        forall|i: int|
            0 <= i < window_headers().len() ==> {
                let header = #[trigger] window_headers()[i];
                let cell = window_cells(window)[i];
                &&& i == 0 ==> header == "HWND"@ && cell == handle_text(window.handle.0)
                &&& i == 1 ==> header == "Status"@ && (cell == "manage"@ <== window.refusal() is None)
                    && (cell == "skip"@ <== window.refusal() is Some)
                &&& i == 2 ==> header == "Reason"@ && cell == refusal_or_dash(window)
                &&& i == 3 ==> header == "Title"@ && cell == cut(window.title@, 48)
                &&& i == 4 ==> header == "Class"@ && cell == cut(window.class_name@, 28)
                &&& i == 5 ==> header == "PID"@ && cell == numeral(window.process_id as nat, 10)
                &&& i == 6 ==> header == "Executable Path"@ && cell == cut(
                    given_or_dash(window.executable_path),
                    56,
                )
                &&& i == 7 ==> header == "Rect"@ && cell == window.rect.spec_text()
                &&& i == 8 ==> header == "Style"@ && cell == style_text(window.styles.style)
                &&& i == 9 ==> header == "ExStyle"@ && cell == style_text(window.styles.extended_style)
                &&& i == 10 ==> header == "Visible"@ && cell == yes_or_no(window.is_visible)
                &&& i == 11 ==> header == "Minimized"@ && cell == yes_or_no(window.is_minimized)
                &&& i == 12 ==> header == "Cloaked"@ && cell == yes_or_no(window.is_dwm_cloaked)
                &&& i == 13 ==> header == "Owner"@ && cell == yes_or_no(window.has_owner)
                &&& i == 14 ==> header == "Tool"@ && cell == yes_or_no(window.is_tool_window)
            },
        window_headers().len() == 15,
{
}

/// A window that is listed has each of its cells in the text.
pub proof fn listed_window_is_in_the_text(windows: Seq<WindowInfo>, manageable_only: bool, i: int, j: int)
    requires
        0 <= i < windows.len(),
        !manageable_only || windows[i].refusal() is None,
        0 <= j < window_headers().len(),
    ensures
        has_part(windows_text(windows, manageable_only), window_cells(windows[i])[j]),
        has_part(windows_text(windows, manageable_only), window_headers()[j]),
{
    let listed = windows.filter(is_listed(manageable_only));
    lemma_filter_holds(windows, is_listed(manageable_only), windows[i]);
    let at = listed.index_of(windows[i]);
    let rows = window_grid(listed);
    assert(rows[at] == window_cells(windows[i]));
    lemma_cell_is_in_the_table(window_headers(), rows, at, j);
}

proof fn lemma_cell_is_in_the_table(headers: Seq<Seq<char>>, rows: Seq<Seq<Seq<char>>>, i: int, j: int)
    requires
        0 <= i < rows.len(),
        0 <= j < rows[i].len(),
        j < headers.len(),
    ensures
        has_part(table_text(headers, rows), rows[i][j]),
        has_part(table_text(headers, rows), headers[j]),
{
    table_has_every_cell(headers, rows, i, j);
    let line = row_text(rows[i], widths_of(headers, rows));
    let head = row_text(headers, widths_of(headers, rows));
    lemma_part_of_part(table_text(headers, rows), line, rows[i][j]);
    lemma_part_of_part(table_text(headers, rows), head, headers[j]);
}

proof fn lemma_part_of_part(text: Seq<char>, part: Seq<char>, piece: Seq<char>)
    requires
        has_part(text, part),
        has_part(part, piece),
    ensures
        has_part(text, piece),
{
    let at = choose|at: int| #[trigger] stands_at(text, part, at);
    let inside = choose|inside: int| #[trigger] stands_at(part, piece, inside);
    let there = at + inside;
    assert(text.subrange(there, there + piece.len()) =~= part.subrange(inside, inside + piece.len()));
    assert(stands_at(text, piece, there));
}

/// The list of monitors says of each its identifier, whether it is the primary one, its rectangle and its
/// work area, under their headers.
pub proof fn listed_monitor_is_in_the_text(monitors: Seq<MonitorInfo>, i: int)
    requires
        0 <= i < monitors.len(),
    ensures
        has_part(monitors_text(monitors), handle_text(monitors[i].id.0)),
        has_part(monitors_text(monitors), yes_or_no(monitors[i].is_primary)),
        has_part(monitors_text(monitors), monitors[i].rect.spec_text()),
        has_part(monitors_text(monitors), monitors[i].work_area.spec_text()),
        monitor_cells(monitors[i]) == seq![
            handle_text(monitors[i].id.0),
            yes_or_no(monitors[i].is_primary),
            monitors[i].rect.spec_text(),
            monitors[i].work_area.spec_text(),
        ],
        stands_at(
            monitors_text(monitors),
            row_text(
                seq!["ID"@, "Primary"@, "Rect"@, "Work Area"@],
                widths_of(
                    seq!["ID"@, "Primary"@, "Rect"@, "Work Area"@],
                    monitors.map_values(|monitor: MonitorInfo| monitor_cells(monitor)),
                ),
            ),
            0,
        ),
{
    let headers = seq!["ID"@, "Primary"@, "Rect"@, "Work Area"@];
    let rows = monitors.map_values(|monitor: MonitorInfo| monitor_cells(monitor));
    assert(rows[i] == monitor_cells(monitors[i]));
    lemma_cell_is_in_the_table(headers, rows, i, 0);
    lemma_cell_is_in_the_table(headers, rows, i, 1);
    lemma_cell_is_in_the_table(headers, rows, i, 2);
    lemma_cell_is_in_the_table(headers, rows, i, 3);
    table_has_every_cell(headers, rows, i, 0);
}

/// A move is listed with its window, the title, the rectangle and whether it went well.
pub proof fn moves_are_listed_with_their_outcome(
    tile: TileAssignment,
    title: Seq<char>,
    failure: Option<Seq<char>>,
)
    ensures
        move_cells(tile, title, failure).len() == 4,
        move_cells(tile, title, failure)[0] == handle_text(tile.window.0),
        move_cells(tile, title, failure)[1] == title,
        move_cells(tile, title, failure)[2] == tile.rect.spec_text(),
        failure is None ==> move_cells(tile, title, failure)[3] == "ok"@,
        failure matches Some(reason) ==> move_cells(tile, title, failure)[3] == cut(reason, 64),
{
}

/// A window is said to be on the monitor that holds most of it, and on none where there is no monitor. What
/// it fills is said with the monitor it fills.
pub proof fn monitor_of_a_window_is_named(window: WindowInfo, monitors: Seq<MonitorInfo>, monitor: MonitorId)
    ensures
        widest(window.rect, monitors) is None ==> monitor_name(window, monitors) == "-"@,
        widest(window.rect, monitors) matches Some(on) ==> monitor_name(window, monitors) == handle_text(
            on.id.0,
        ),
        fullscreen_note(
            FullscreenDetection {
                is_fullscreen: true,
                monitor: Some(monitor),
                area: Some(FullscreenArea::MonitorBounds),
            },
        ) == " ("@ + "MonitorBounds"@ + " on "@ + handle_text(monitor.0) + ")"@,
        fullscreen_note(
            FullscreenDetection {
                is_fullscreen: true,
                monitor: Some(monitor),
                area: Some(FullscreenArea::WorkArea),
            },
        ) == " ("@ + "WorkArea"@ + " on "@ + handle_text(monitor.0) + ")"@,
        fullscreen_note(FullscreenDetection { is_fullscreen: false, monitor: None, area: None }) == ""@,
{
}

} // verus!
