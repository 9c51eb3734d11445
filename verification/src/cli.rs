//! What the command line tool lists, looks up and arranges.

use vstd::prelude::*;

use crate::game_mode::{
    area_name, join_texts, joined, mode_name, FullscreenArea, FullscreenDetection,
    GameModeDetection, GameModeReason,
};
use crate::geometry::{MonitorInfo, TileAssignment, WindowHandle};
use crate::handles::{
    first_kept, lemma_filter_ends, lemma_filter_step, lemma_first_kept_step,
};
use crate::layout::{LayoutConfig, LayoutKind};
use crate::monitors::{widest, widest_monitor};
use crate::numeral::{decimal, handle_text, hexadecimal, numeral, parse_number, parsed};
use crate::rules::WindowRuleMode;
use crate::runtime_config::RuntimeGameModeConfig;
use crate::table::{
    cells, cut, format_table, grid, repeated, table_text, truncate, yes_no, yes_or_no,
};
use crate::text::{blank, chars_of, has_prefix, is_blank, starts_with_part, trim_chars, trimmed};
use crate::tile::{laid_out, tile_windows_with_config};
use crate::window::{Manageability, WindowInfo};

verus! {

/// A text, or a dash if it is blank.
pub open spec fn text_or_dash(text: Seq<char>) -> Seq<char> {
    if is_blank(text) {
        "-"@
    } else {
        text
    }
}

/// A text, or a dash if it is blank.
pub fn empty_dash(value: &str) -> (r: &str)
    ensures
        r@ == text_or_dash(value@),
{
    if blank(value) {
        "-"
    } else {
        value
    }
}

/// A text, or a dash if there is none.
pub open spec fn given_or_dash(text: Option<String>) -> Seq<char> {
    match text {
        Some(text) => text@,
        None => "-"@,
    }
}

fn or_dash(text: &Option<String>) -> (r: &str)
    ensures
        r@ == given_or_dash(*text),
{
    match text {
        Some(text) => text.as_str(),
        None => "-",
    }
}

/// Whether a window is managed, as text.
pub open spec fn manageability_name(window: WindowInfo) -> Seq<char> {
    if window.refusal() is None {
        "manage"@
    } else {
        "skip"@
    }
}

/// Whether a window is managed, as text.
pub fn manageability_label(window: &WindowInfo) -> (r: &'static str)
    ensures
        r@ == manageability_name(*window),
{
    if window.is_manageable() {
        "manage"
    } else {
        "skip"
    }
}

/// Why a window is not managed, as text.
pub open spec fn refusal_or_dash(window: WindowInfo) -> Seq<char> {
    match window.refusal() {
        Some(reason) => reason,
        None => "-"@,
    }
}

/// Why a window is not managed, as text.
pub fn manageability_reason(window: &WindowInfo) -> (r: &'static str)
    ensures
        r@ == refusal_or_dash(*window),
{
    match window.manageable_reason() {
        Manageability::Manageable => "-",
        Manageability::Unmanageable(reason) => reason,
    }
}

/// Style bits as eight hexadecimal digits.
pub open spec fn style_text(bits: u32) -> Seq<char> {
    let digits = numeral(bits as nat, 16);
    "0x"@ + repeated(
        '0',
        if digits.len() < 8 {
            (8 - digits.len()) as nat
        } else {
            0
        },
    ) + digits
}

/// Style bits as eight hexadecimal digits.
pub fn format_style(bits: u32) -> (r: String)
    ensures
        r@ == style_text(bits),
{
    let digits: String = hexadecimal(bits as u64);
    let length: usize = digits.as_str().unicode_len();
    let mut text: String = "0x".to_owned();
    let ghost start = text@;
    let mut count: usize = length;
    proof {
        assert(text@ =~= start + repeated('0', 0));
    }
    while count < 8
        invariant
            length <= count,
            length < 8 ==> count <= 8,
            length >= 8 ==> count == length,
            text@ == start + repeated('0', (count - length) as nat),
        decreases 8 - count,
    {
        text.push('0');
        proof {
            assert(text@ =~= start + repeated('0', (count + 1 - length) as nat));
        }
        count = count + 1;
    }
    text.push_str(&digits);
    text
}

/// The cells of the row of a window.
pub open spec fn window_cells(window: WindowInfo) -> Seq<Seq<char>> {
    seq![
        handle_text(window.handle.0),
        manageability_name(window),
        refusal_or_dash(window),
        cut(window.title@, 48),
        cut(window.class_name@, 28),
        numeral(window.process_id as nat, 10),
        cut(given_or_dash(window.executable_path), 56),
        window.rect.spec_text(),
        style_text(window.styles.style),
        style_text(window.styles.extended_style),
        yes_or_no(window.is_visible),
        yes_or_no(window.is_minimized),
        yes_or_no(window.is_dwm_cloaked),
        yes_or_no(window.has_owner),
        yes_or_no(window.is_tool_window),
    ]
}

/// The headers of a table of windows.
pub open spec fn window_headers() -> Seq<Seq<char>> {
    seq![
        "HWND"@,
        "Status"@,
        "Reason"@,
        "Title"@,
        "Class"@,
        "PID"@,
        "Executable Path"@,
        "Rect"@,
        "Style"@,
        "ExStyle"@,
        "Visible"@,
        "Minimized"@,
        "Cloaked"@,
        "Owner"@,
        "Tool"@,
    ]
}

fn window_row(window: &WindowInfo) -> (r: Vec<String>)
    ensures
        cells(r@) == window_cells(*window),
        r.len() == 15,
{
    let row: Vec<String> = vec![
        window.handle.to_text(),
        manageability_label(window).to_owned(),
        manageability_reason(window).to_owned(),
        truncate(&window.title, 48),
        truncate(&window.class_name, 28),
        decimal(window.process_id as u64),
        truncate(or_dash(&window.executable_path), 56),
        window.rect.to_text(),
        format_style(window.styles.style),
        format_style(window.styles.extended_style),
        yes_no(window.is_visible).to_owned(),
        yes_no(window.is_minimized).to_owned(),
        yes_no(window.is_dwm_cloaked).to_owned(),
        yes_no(window.has_owner).to_owned(),
        yes_no(window.is_tool_window).to_owned(),
    ];
    proof {
        assert(cells(row@) =~= window_cells(*window));
    }
    row
}

/// The windows that are listed.
pub open spec fn is_listed(manageable_only: bool) -> spec_fn(WindowInfo) -> bool {
    |window: WindowInfo| !manageable_only || window.refusal() is None
}

/// The rows of windows.
pub open spec fn window_grid(windows: Seq<WindowInfo>) -> Seq<Seq<Seq<char>>> {
    windows.map_values(|window: WindowInfo| window_cells(window))
}

/// A list of windows as text.
pub open spec fn windows_text(windows: Seq<WindowInfo>, manageable_only: bool) -> Seq<char> {
    let listed = windows.filter(is_listed(manageable_only));
    if listed.len() == 0 {
        "No windows found.\n"@
    } else {
        table_text(window_headers(), window_grid(listed))
    }
}

/// A list of windows as text: all, or those that may be managed.
pub fn format_windows(windows: &[WindowInfo], manageable_only: bool) -> (r: String)
    ensures
        r@ == windows_text(windows@, manageable_only),
{
    let ghost keep = is_listed(manageable_only);
    let mut rows: Vec<Vec<String>> = Vec::new();
    let mut index: usize = 0;
    proof {
        lemma_filter_ends(windows@, keep);
        assert(grid(rows@) =~= window_grid(windows@.take(0).filter(keep)));
    }
    while index < windows.len()
        invariant
            index <= windows.len(),
            keep == is_listed(manageable_only),
            grid(rows@) == window_grid(windows@.take(index as int).filter(keep)),
            forall|i: int| 0 <= i < rows@.len() ==> (#[trigger] rows@[i])@.len() == 15,
        decreases windows.len() - index,
    {
        proof {
            lemma_filter_step(windows@, index as int, keep);
        }
        let ghost before = rows@;
        if !manageable_only || windows[index].is_manageable() {
            let row: Vec<String> = window_row(&windows[index]);
            rows.push(row);
            proof {
                let listed = windows@.take(index as int).filter(keep);
                let window = windows@[index as int];
                assert(grid(rows@) =~= grid(before).push(window_cells(window)));
                assert(window_grid(listed.push(window)) =~= window_grid(listed).push(
                    window_cells(window),
                ));
            }
        }
        index = index + 1;
    }
    proof {
        lemma_filter_ends(windows@, keep);
        assert(grid(rows@).len() == rows@.len());
    }
    if rows.len() == 0 {
        return "No windows found.\n".to_owned();
    }
    let headers: Vec<String> = vec![
        "HWND".to_owned(),
        "Status".to_owned(),
        "Reason".to_owned(),
        "Title".to_owned(),
        "Class".to_owned(),
        "PID".to_owned(),
        "Executable Path".to_owned(),
        "Rect".to_owned(),
        "Style".to_owned(),
        "ExStyle".to_owned(),
        "Visible".to_owned(),
        "Minimized".to_owned(),
        "Cloaked".to_owned(),
        "Owner".to_owned(),
        "Tool".to_owned(),
    ];
    proof {
        assert(cells(headers@) =~= window_headers());
    }
    format_table(&headers, &rows)
}

/// The cells of the row of a monitor.
pub open spec fn monitor_cells(monitor: MonitorInfo) -> Seq<Seq<char>> {
    seq![
        handle_text(monitor.id.0),
        yes_or_no(monitor.is_primary),
        monitor.rect.spec_text(),
        monitor.work_area.spec_text(),
    ]
}

/// A list of monitors as text.
pub open spec fn monitors_text(monitors: Seq<MonitorInfo>) -> Seq<char> {
    if monitors.len() == 0 {
        "No monitors found.\n"@
    } else {
        table_text(
            seq!["ID"@, "Primary"@, "Rect"@, "Work Area"@],
            monitors.map_values(|monitor: MonitorInfo| monitor_cells(monitor)),
        )
    }
}

/// A list of monitors as text.
pub fn format_monitors(monitors: &[MonitorInfo]) -> (r: String)
    ensures
        r@ == monitors_text(monitors@),
{
    if monitors.len() == 0 {
        return "No monitors found.\n".to_owned();
    }
    let mut rows: Vec<Vec<String>> = Vec::new();
    let mut index: usize = 0;
    while index < monitors.len()
        invariant
            index <= monitors.len(),
            rows.len() == index,
            forall|i: int|
                0 <= i < index ==> cells((#[trigger] rows@[i])@) == monitor_cells(monitors@[i])
                    && rows@[i]@.len() == 4,
        decreases monitors.len() - index,
    {
        let monitor: MonitorInfo = monitors[index];
        let row: Vec<String> = vec![
            monitor.id.to_text(),
            yes_no(monitor.is_primary).to_owned(),
            monitor.rect.to_text(),
            monitor.work_area.to_text(),
        ];
        proof {
            assert(cells(row@) =~= monitor_cells(monitor));
        }
        rows.push(row);
        index = index + 1;
    }
    let headers: Vec<String> = vec![
        "ID".to_owned(),
        "Primary".to_owned(),
        "Rect".to_owned(),
        "Work Area".to_owned(),
    ];
    proof {
        assert(cells(headers@) =~= seq!["ID"@, "Primary"@, "Rect"@, "Work Area"@]);
        assert(grid(rows@) =~= monitors@.map_values(
            |monitor: MonitorInfo| monitor_cells(monitor),
        ));
    }
    format_table(&headers, &rows)
}

/// The handle that a text stands for: hexadecimal behind `0x`, or else decimal.
pub open spec fn handle_named(input: Seq<char>) -> Option<nat> {
    let text = trimmed(input);
    if has_prefix(text, seq!['0', 'x']) || has_prefix(text, seq!['0', 'X']) {
        parsed(text.skip(2), 16, u64::MAX as nat)
    } else {
        parsed(text, 10, u64::MAX as nat)
    }
}

/// Reads a handle.
pub fn parse_hwnd(input: &str) -> (r: Option<WindowHandle>)
    ensures
        match r {
            Some(window) => handle_named(input@) == Some(window.0 as nat),
            None => handle_named(input@) is None,
        },
{
    let text: Vec<char> = trim_chars(&chars_of(input));
    let small: Vec<char> = vec!['0', 'x'];
    let capital: Vec<char> = vec!['0', 'X'];
    proof {
        assert(small@ =~= seq!['0', 'x']);
        assert(capital@ =~= seq!['0', 'X']);
    }
    let number: Option<u64> = if starts_with_part(&text, &small) || starts_with_part(
        &text,
        &capital,
    ) {
        let mut digits: Vec<char> = Vec::new();
        let mut index: usize = 2;
        while index < text.len()
            invariant
                2 <= index <= text.len(),
                digits@ == text@.subrange(2, index as int),
            decreases text.len() - index,
        {
            digits.push(text[index]);
            proof {
                assert(digits@ =~= text@.subrange(2, index + 1));
            }
            index = index + 1;
        }
        proof {
            assert(digits@ =~= text@.skip(2));
        }
        parse_number(&digits, 16, u64::MAX)
    } else {
        parse_number(&text, 10, u64::MAX)
    };
    match number {
        Some(value) => Some(WindowHandle(value)),
        None => None,
    }
}

/// The monitor that a window is seen on, as text.
pub open spec fn monitor_name(window: WindowInfo, monitors: Seq<MonitorInfo>) -> Seq<char> {
    match widest(window.rect, monitors) {
        Some(monitor) => handle_text(monitor.id.0),
        None => "-"@,
    }
}

/// The monitor that a window is seen on, as text.
pub fn monitor_label(window: &WindowInfo, monitors: &[MonitorInfo]) -> (r: String)
    ensures
        r@ == monitor_name(*window, monitors@),
{
    match widest_monitor(window.rect, monitors) {
        Some(monitor) => monitor.id.to_text(),
        None => "-".to_owned(),
    }
}

fn area_label(area: FullscreenArea) -> (r: &'static str)
    ensures
        r@ == area_name(area),
{
    match area {
        FullscreenArea::MonitorBounds => "MonitorBounds",
        FullscreenArea::WorkArea => "WorkArea",
    }
}

/// What of which monitor a window takes, as text.
pub open spec fn fullscreen_note(detection: FullscreenDetection) -> Seq<char> {
    match (detection.monitor, detection.area) {
        (Some(monitor), Some(area)) => " ("@ + area_name(area) + " on "@ + handle_text(monitor.0)
            + ")"@,
        _ => ""@,
    }
}

/// What of which monitor a window takes, as text.
pub fn fullscreen_suffix(detection: &FullscreenDetection) -> (r: String)
    ensures
        r@ == fullscreen_note(*detection),
{
    match (detection.monitor, detection.area) {
        (Some(monitor), Some(area)) => {
            let mut text: String = " (".to_owned();
            text.push_str(area_label(area));
            text.push_str(" on ");
            text.push_str(&monitor.to_text());
            text.push_str(")");
            text
        },
        _ => "".to_owned(),
    }
}

/// Why a window counts as a game, as text.
pub open spec fn reason_note(reason: GameModeReason) -> Seq<char> {
    match reason {
        GameModeReason::ConfiguredExecutable(exe) => "configured executable "@ + exe@,
        GameModeReason::WindowRule { mode, matched_rules } => "window rule mode "@ + mode_name(mode)
            + " via "@ + joined(matched_rules@, ", "@),
        GameModeReason::Fullscreen { monitor, area } => "fullscreen "@ + area_name(area) + " on "@
            + handle_text(monitor.0),
    }
}

/// Why a window counts as a game, as text.
pub fn game_mode_reason(reason: &GameModeReason) -> (r: String)
    ensures
        r@ == reason_note(*reason),
{
    match reason {
        GameModeReason::ConfiguredExecutable(exe) => {
            let mut text: String = "configured executable ".to_owned();
            text.push_str(exe);
            text
        },
        GameModeReason::WindowRule { mode, matched_rules } => {
            let mut text: String = "window rule mode ".to_owned();
            text.push_str(
                match mode {
                    WindowRuleMode::Ignore => "Ignore",
                    WindowRuleMode::Game => "Game",
                    WindowRuleMode::Fullscreen => "Fullscreen",
                },
            );
            text.push_str(" via ");
            text.push_str(&join_texts(matched_rules, ", "));
            text
        },
        GameModeReason::Fullscreen { monitor, area } => {
            let mut text: String = "fullscreen ".to_owned();
            text.push_str(area_label(*area));
            text.push_str(" on ");
            text.push_str(&monitor.to_text());
            text
        },
    }
}

/// The lines that say which window it is.
pub open spec fn identity_lines(window: WindowInfo, monitors: Seq<MonitorInfo>) -> Seq<char> {
    "Window: "@ + handle_text(window.handle.0) + "\nTitle: "@ + text_or_dash(window.title@)
        + "\nClass: "@ + text_or_dash(window.class_name@) + "\nExecutable: "@ + given_or_dash(
        window.executable_path,
    ) + "\nMonitor: "@ + monitor_name(window, monitors) + "\nManageable: "@ + yes_or_no(
        window.refusal() is None,
    ) + " ("@ + refusal_or_dash(window) + ")\n"@
}

/// The lines that say whether the window is fullscreen or a game, and why.
pub open spec fn detection_lines(detection: GameModeDetection) -> Seq<char> {
    "Fullscreen: "@ + yes_or_no(detection.fullscreen.is_fullscreen) + fullscreen_note(
        detection.fullscreen,
    ) + "\nGame mode: "@ + (if detection.active {
        "active"@
    } else {
        "inactive"@
    }) + "\nDetection reason: "@ + (match detection.reason {
        Some(reason) => reason_note(reason),
        None => "-"@,
    }) + "\nMatched game exe: "@ + given_or_dash(detection.matched_executable)
        + "\nMatched game rule: "@ + (if detection.matched_rules@.len() == 0 {
        "-"@
    } else {
        joined(detection.matched_rules@, ", "@)
    }) + "\n"@
}

/// Which layouts a game pauses, as text.
pub open spec fn pause_scope_note(detection: GameModeDetection, settings: RuntimeGameModeConfig) -> Seq<
    char,
> {
    if detection.active && settings.pause_all_layouts_when_game_focused {
        if settings.pause_focused_monitor_only && detection.fullscreen.monitor is Some {
            "focused monitor"@
        } else {
            "global"@
        }
    } else {
        "-"@
    }
}

/// The lines that say what is paused.
pub open spec fn pause_lines(detection: GameModeDetection, settings: RuntimeGameModeConfig) -> Seq<char> {
    "Layout paused: "@ + yes_or_no(
        detection.active && settings.pause_all_layouts_when_game_focused,
    ) + "\nLayout pause scope: "@ + pause_scope_note(detection, settings) + "\nBorders paused: "@
        + yes_or_no(detection.active && settings.disable_borders) + "\nAnimations paused: "@
        + yes_or_no(detection.active && settings.disable_animations)
        + "\nKeyboard/mouse hook bypass: "@ + yes_or_no(
        detection.active && settings.disable_keyboard_hooks,
    ) + "\n"@
}

fn push_identity(text: &mut String, window: &WindowInfo, monitors: &[MonitorInfo])
    requires
        old(text)@.len() == 0,
    ensures
        final(text)@ == identity_lines(*window, monitors@),
{
    text.push_str("Window: ");
    proof {
        assert(text@ =~= "Window: "@);
    }
    text.push_str(&window.handle.to_text());
    text.push_str("\nTitle: ");
    text.push_str(empty_dash(&window.title));
    text.push_str("\nClass: ");
    text.push_str(empty_dash(&window.class_name));
    text.push_str("\nExecutable: ");
    text.push_str(or_dash(&window.executable_path));
    text.push_str("\nMonitor: ");
    text.push_str(&monitor_label(window, monitors));
    text.push_str("\nManageable: ");
    text.push_str(yes_no(window.is_manageable()));
    text.push_str(" (");
    text.push_str(manageability_reason(window));
    text.push_str(")\n");
}

fn format_detection(detection: &GameModeDetection) -> (r: String)
    ensures
        r@ == detection_lines(*detection),
{
    let mut text: String = "Fullscreen: ".to_owned();
    text.push_str(yes_no(detection.fullscreen.is_fullscreen));
    text.push_str(&fullscreen_suffix(&detection.fullscreen));
    text.push_str("\nGame mode: ");
    text.push_str(
        if detection.active {
            "active"
        } else {
            "inactive"
        },
    );
    text.push_str("\nDetection reason: ");
    match &detection.reason {
        Some(reason) => text.push_str(&game_mode_reason(reason)),
        None => text.push_str("-"),
    }
    text.push_str("\nMatched game exe: ");
    text.push_str(or_dash(&detection.matched_executable));
    text.push_str("\nMatched game rule: ");
    if detection.matched_rules.len() == 0 {
        text.push_str("-");
    } else {
        text.push_str(&join_texts(&detection.matched_rules, ", "));
    }
    text.push_str("\n");
    text
}

fn format_pauses(detection: &GameModeDetection, settings: &RuntimeGameModeConfig) -> (r: String)
    ensures
        r@ == pause_lines(*detection, *settings),
{
    let paused: bool = detection.active && settings.pause_all_layouts_when_game_focused;
    let mut text: String = "Layout paused: ".to_owned();
    text.push_str(yes_no(paused));
    text.push_str("\nLayout pause scope: ");
    text.push_str(
        if paused {
            if settings.pause_focused_monitor_only && detection.fullscreen.monitor.is_some() {
                "focused monitor"
            } else {
                "global"
            }
        } else {
            "-"
        },
    );
    text.push_str("\nBorders paused: ");
    text.push_str(yes_no(detection.active && settings.disable_borders));
    text.push_str("\nAnimations paused: ");
    text.push_str(yes_no(detection.active && settings.disable_animations));
    text.push_str("\nKeyboard/mouse hook bypass: ");
    text.push_str(yes_no(detection.active && settings.disable_keyboard_hooks));
    text.push_str("\n");
    text
}

/// What is found out about a window, as text.
pub fn diagnose_window(
    window: &WindowInfo,
    monitors: &[MonitorInfo],
    detection: &GameModeDetection,
    settings: &RuntimeGameModeConfig,
) -> (r: String)
    ensures
        r@ == identity_lines(*window, monitors@) + detection_lines(*detection) + pause_lines(
            *detection,
            *settings,
        ),
{
    let mut text: String = String::new();
    push_identity(&mut text, window, monitors);
    text.push_str(&format_detection(detection));
    text.push_str(&format_pauses(detection, settings));
    text
}

/// The primary monitors.
pub open spec fn is_primary_monitor() -> spec_fn(MonitorInfo) -> bool {
    |monitor: MonitorInfo| monitor.is_primary
}

/// The first primary monitor, or else the first one.
pub open spec fn main_monitor(monitors: Seq<MonitorInfo>) -> Option<MonitorInfo> {
    if first_kept(monitors, is_primary_monitor()) is Some {
        first_kept(monitors, is_primary_monitor())
    } else if monitors.len() > 0 {
        Some(monitors[0])
    } else {
        None
    }
}

/// The first primary monitor, or else the first one.
pub fn primary_monitor(monitors: &[MonitorInfo]) -> (r: Option<MonitorInfo>)
    ensures
        r == main_monitor(monitors@),
{
    let ghost keep = is_primary_monitor();
    let mut found: Option<MonitorInfo> = None;
    let mut index: usize = 0;
    while index < monitors.len()
        invariant
            index <= monitors.len(),
            keep == is_primary_monitor(),
            found == first_kept(monitors@.take(index as int), keep),
        decreases monitors.len() - index,
    {
        proof {
            lemma_first_kept_step(monitors@, index as int, keep);
        }
        if found.is_none() && monitors[index].is_primary {
            found = Some(monitors[index]);
        }
        index = index + 1;
    }
    proof {
        assert(monitors@.take(index as int) =~= monitors@);
    }
    match found {
        Some(monitor) => Some(monitor),
        None => if monitors.len() > 0 {
            Some(monitors[0])
        } else {
            None
        },
    }
}

/// The windows that are tiled at once on a monitor: those that may be managed and have their middle
/// there.
pub open spec fn is_tiled_once(monitor: MonitorInfo) -> spec_fn(WindowInfo) -> bool {
    |window: WindowInfo|
        window.refusal() is None && monitor.rect.covers(
            window.rect.middle().x as int,
            window.rect.middle().y as int,
        )
}

/// The handles of windows.
pub open spec fn handles_of_windows(windows: Seq<WindowInfo>) -> Seq<WindowHandle> {
    windows.map_values(|window: WindowInfo| window.handle)
}

/// The windows that are tiled at once on a monitor.
pub fn tile_once_windows(windows: &[WindowInfo], monitor: &MonitorInfo) -> (r: Vec<WindowHandle>)
    ensures
        r@ == handles_of_windows(windows@.filter(is_tiled_once(*monitor))),
        r.len() <= windows.len(),
{
    let ghost keep = is_tiled_once(*monitor);
    let mut handles: Vec<WindowHandle> = Vec::new();
    let mut index: usize = 0;
    proof {
        lemma_filter_ends(windows@, keep);
        assert(handles@ =~= handles_of_windows(windows@.take(0).filter(keep)));
    }
    while index < windows.len()
        invariant
            index <= windows.len(),
            keep == is_tiled_once(*monitor),
            handles@ == handles_of_windows(windows@.take(index as int).filter(keep)),
            handles.len() <= index,
        decreases windows.len() - index,
    {
        proof {
            lemma_filter_step(windows@, index as int, keep);
        }
        if windows[index].is_manageable() && monitor.rect.contains(windows[index].rect.center()) {
            handles.push(windows[index].handle);
        }
        proof {
            assert(handles@ =~= handles_of_windows(windows@.take(index + 1).filter(keep)));
        }
        index = index + 1;
    }
    proof {
        lemma_filter_ends(windows@, keep);
    }
    handles
}

/// The tiles of the windows that are tiled at once on a monitor.
pub fn tile_once(windows: &[WindowInfo], monitor: &MonitorInfo, layout: LayoutConfig) -> (r: Vec<
    TileAssignment,
>)
    requires
        windows.len() <= i32::MAX,
    ensures
        r@ == laid_out(
            monitor.work_area,
            handles_of_windows(windows@.filter(is_tiled_once(*monitor))),
            layout,
            None,
            Seq::empty(),
        ),
{
    let handles: Vec<WindowHandle> = tile_once_windows(windows, monitor);
    tile_windows_with_config(monitor.work_area, &handles, layout)
}

/// The windows of a monitor that are tiled at once and have a given handle.
pub open spec fn is_tiled_as(monitor: MonitorInfo, handle: WindowHandle) -> spec_fn(WindowInfo) -> bool {
    |window: WindowInfo| is_tiled_once(monitor)(window) && window.handle == handle
}

/// The title of a window that is tiled at once, as it is listed.
pub open spec fn listed_title(windows: Seq<WindowInfo>, monitor: MonitorInfo, handle: WindowHandle) -> Seq<
    char,
> {
    match first_kept(windows, is_tiled_as(monitor, handle)) {
        Some(window) => cut(window.title@, 48),
        None => "-"@,
    }
}

/// The title of a window that is tiled at once, as it is listed.
pub fn tile_once_title(windows: &[WindowInfo], monitor: &MonitorInfo, handle: WindowHandle) -> (r: String)
    ensures
        r@ == listed_title(windows@, *monitor, handle),
{
    let ghost keep = is_tiled_as(*monitor, handle);
    let mut index: usize = 0;
    while index < windows.len()
        invariant
            index <= windows.len(),
            keep == is_tiled_as(*monitor, handle),
            first_kept(windows@.take(index as int), keep) is None,
        decreases windows.len() - index,
    {
        proof {
            lemma_first_kept_step(windows@, index as int, keep);
        }
        if windows[index].is_manageable() && monitor.rect.contains(windows[index].rect.center())
            && windows[index].handle == handle {
            proof {
                lemma_first_kept_prefix(windows@, index + 1, keep);
            }
            return truncate(&windows[index].title, 48);
        }
        index = index + 1;
    }
    proof {
        assert(windows@.take(index as int) =~= windows@);
    }
    "-".to_owned()
}

/// What a prefix has first, the whole list has first.
proof fn lemma_first_kept_prefix<A>(list: Seq<A>, count: int, keep: spec_fn(A) -> bool)
    requires
        0 <= count <= list.len(),
        first_kept(list.take(count), keep) is Some,
    ensures
        first_kept(list, keep) == first_kept(list.take(count), keep),
    decreases list.len() - count,
{
    if count == list.len() {
        assert(list.take(count) =~= list);
    } else {
        lemma_first_kept_step(list, count, keep);
        lemma_first_kept_prefix(list, count + 1, keep);
    }
}

/// What is said when windows are tiled at once, or there are none.
pub open spec fn tile_once_note(count: int, monitor: MonitorInfo, kind: LayoutKind) -> Seq<char> {
    if count == 0 {
        "No manageable windows found on primary monitor "@ + handle_text(monitor.id.0)
            + " (work area "@ + monitor.work_area.spec_text() + ")."@
    } else {
        "Tiling "@ + numeral(count as nat, 10) + " window(s) on primary monitor "@ + handle_text(
            monitor.id.0,
        ) + " using "@ + kind.spec_name() + " (work area "@ + monitor.work_area.spec_text() + ")."@
    }
}

/// What is said when windows are tiled at once, or there are none.
pub fn tile_once_message(count: usize, monitor: &MonitorInfo, kind: LayoutKind) -> (r: String)
    ensures
        r@ == tile_once_note(count as int, *monitor, kind),
{
    if count == 0 {
        let mut text: String = "No manageable windows found on primary monitor ".to_owned();
        text.push_str(&monitor.id.to_text());
        text.push_str(" (work area ");
        text.push_str(&monitor.work_area.to_text());
        text.push_str(").");
        return text;
    }
    let mut text: String = "Tiling ".to_owned();
    text.push_str(&decimal(count as u64));
    text.push_str(" window(s) on primary monitor ");
    text.push_str(&monitor.id.to_text());
    text.push_str(" using ");
    text.push_str(kind.name());
    text.push_str(" (work area ");
    text.push_str(&monitor.work_area.to_text());
    text.push_str(").");
    text
}

/// The cells of the row of a window that was moved; `failure` says why it could not be.
pub open spec fn move_cells(tile: TileAssignment, title: Seq<char>, failure: Option<Seq<char>>) -> Seq<
    Seq<char>,
> {
    seq![
        handle_text(tile.window.0),
        title,
        tile.rect.spec_text(),
        match failure {
            Some(reason) => cut(reason, 64),
            None => "ok"@,
        },
    ]
}

/// The row of a window that was moved.
pub fn move_result_row(tile: &TileAssignment, title: &str, failure: Option<&str>) -> (r: Vec<String>)
    ensures
        cells(r@) == move_cells(
            *tile,
            title@,
            match failure {
                Some(reason) => Some(reason@),
                None => None,
            },
        ),
        r.len() == 4,
{
    let outcome: String = match failure {
        Some(reason) => truncate(reason, 64),
        None => "ok".to_owned(),
    };
    let row: Vec<String> = vec![
        tile.window.to_text(),
        title.to_owned(),
        tile.rect.to_text(),
        outcome,
    ];
    proof {
        assert(cells(row@) =~= move_cells(
            *tile,
            title@,
            match failure {
                Some(reason) => Some(reason@),
                None => None,
            },
        ));
    }
    row
}

/// A table of windows that were moved.
pub fn format_move_results(rows: &[Vec<String>]) -> (r: String)
    requires
        forall|i: int| 0 <= i < rows@.len() ==> (#[trigger] rows@[i])@.len() <= 4,
    ensures
        r@ == table_text(seq!["HWND"@, "Title"@, "Target Rect"@, "Result"@], grid(rows@)),
{
    let headers: Vec<String> = vec![
        "HWND".to_owned(),
        "Title".to_owned(),
        "Target Rect".to_owned(),
        "Result".to_owned(),
    ];
    proof {
        assert(cells(headers@) =~= seq!["HWND"@, "Title"@, "Target Rect"@, "Result"@]);
    }
    format_table(&headers, rows)
}

} // verus!
