//! What listings of windows and monitors show.

use vstd::prelude::*;

use crate::cli::{
    handle_named, is_listed, is_primary_monitor, is_tiled_once, main_monitor, manageability_name,
    pause_scope_note, refusal_or_dash, style_text, text_or_dash, windows_text,
};
use crate::game_mode::GameModeDetection;
use crate::geometry::MonitorInfo;
use crate::handles::lemma_first_kept;
use crate::numeral::{handle_text, numeral, written_numbers_are_read_back};
use crate::plugin::{first_text, shown_member, text_or, JsonMemberView};
use crate::runtime_config::RuntimeGameModeConfig;
use crate::table::{byte_size, column_width, cut, yes_or_no};
use crate::text::{has_prefix, is_space};
use crate::text_laws::text_without_white_space_at_the_ends_stays;
use crate::window::WindowInfo;

verus! {

/// A text that is too long is cut off after as many characters as there may be, and three dots say so; one
/// that is not stays whole.
pub proof fn long_texts_are_cut_off(text: Seq<char>, limit: nat)
    ensures
        text.len() <= limit ==> cut(text, limit) == text,
        text.len() > limit ==> cut(text, limit) == text.take(limit as int) + seq!['.', '.', '.'],
{
    reveal_strlit("...");
    assert("..."@ =~= seq!['.', '.', '.']);
}

/// What is so is told by yes, and what is not by no.
pub proof fn yes_means_so(value: bool)
    ensures
        value ==> yes_or_no(value) == seq!['y', 'e', 's'],
        !value ==> yes_or_no(value) == seq!['n', 'o'],
{
    reveal_strlit("yes");
    reveal_strlit("no");
    assert("yes"@ =~= seq!['y', 'e', 's']);
    assert("no"@ =~= seq!['n', 'o']);
}

/// A column is as wide as the widest of its cells and its header, and no wider.
pub proof fn column_is_as_wide_as_its_widest_cell(
    header: Seq<char>,
    rows: Seq<Seq<Seq<char>>>,
    column: int,
    at: int,
)
    requires
        0 <= column,
    ensures
        column_width(header, rows, column) >= byte_size(header),
        0 <= at < rows.len() && column < rows[at].len() ==> column_width(header, rows, column)
            >= byte_size(rows[at][column]),
        column_width(header, rows, column) == byte_size(header) || exists|i: int|
            0 <= i < rows.len() && column < (#[trigger] rows[i]).len() && column_width(
                header,
                rows,
                column,
            ) == byte_size(rows[i][column]),
    decreases rows.len(),
{
    if rows.len() > 0 {
        let rest = rows.drop_last();
        column_is_as_wide_as_its_widest_cell(header, rest, column, at);
        assert(forall|i: int| 0 <= i < rest.len() ==> #[trigger] rest[i] == rows[i]);
        assert(rows[rows.len() - 1] == rows.last());
        if exists|i: int|
            0 <= i < rest.len() && column < (#[trigger] rest[i]).len() && column_width(
                header,
                rest,
                column,
            ) == byte_size(rest[i][column]) {
            let i = choose|i: int|
                0 <= i < rest.len() && column < (#[trigger] rest[i]).len() && column_width(
                    header,
                    rest,
                    column,
                ) == byte_size(rest[i][column]);
            assert(rows[i] == rest[i]);
        }
    }
}

/// A handle that was written is read back, in hexadecimal with its prefix and in decimal without.
pub proof fn written_handles_are_read_back(handle: u64)
    ensures
        handle_named(handle_text(handle)) == Some(handle as nat),
        handle_named(numeral(handle as nat, 10)) == Some(handle as nat),
{
    let text = handle_text(handle);
    let digits = numeral(handle as nat, 10);
    crate::command_text_laws::lemma_numeral_digits(handle as nat, 16);
    crate::command_text_laws::lemma_numeral_digits(handle as nat, 10);
    assert(text[0] == '0' && text[1] == 'x');
    assert(text[text.len() - 1] == numeral(handle as nat, 16)[numeral(handle as nat, 16).len() - 1]);
    text_without_white_space_at_the_ends_stays(text);
    text_without_white_space_at_the_ends_stays(digits);
    assert(text.subrange(0, 2) =~= seq!['0', 'x']);
    assert(text.skip(2) =~= numeral(handle as nat, 16));
    written_numbers_are_read_back(handle as nat, 16, u64::MAX as nat);
    written_numbers_are_read_back(handle as nat, 10, u64::MAX as nat);
    if has_prefix(digits, seq!['0', 'x']) || has_prefix(digits, seq!['0', 'X']) {
        assert(digits.subrange(0, 2)[1] == digits[1]);
    }
}

/// A window is listed as managed exactly if nothing is against it, and otherwise as skipped with the
/// reason.
pub proof fn windows_are_listed_with_their_reason(window: WindowInfo)
    ensures
        window.refusal() is None ==> manageability_name(window) == "manage"@ && refusal_or_dash(window)
            == "-"@,
        window.refusal() matches Some(reason) ==> manageability_name(window) == "skip"@
            && refusal_or_dash(window) == reason,
{
}

/// Every window is listed, or only those that are managed where these are asked for; where there is none,
/// that is said.
pub proof fn only_what_is_asked_for_is_listed(
    windows: Seq<WindowInfo>,
    window: WindowInfo,
    manageable_only: bool,
)
    requires
        windows.contains(window),
    ensures
        windows.filter(is_listed(manageable_only)).contains(window) <==> !manageable_only
            || window.refusal() is None,
        windows_text(Seq::empty(), manageable_only) == "No windows found.\n"@,
{
    crate::handles::lemma_filter_holds(windows, is_listed(manageable_only), window);
    reveal(Seq::filter);
    assert(Seq::<WindowInfo>::empty().filter(is_listed(manageable_only)).len() == 0);
}

/// A text of nothing but white space is shown as a dash, and any other as it is.
pub proof fn blank_texts_are_dashes(text: Seq<char>)
    ensures
        (forall|i: int| 0 <= i < text.len() ==> is_space(#[trigger] text[i])) ==> text_or_dash(text)
            == "-"@,
        !(forall|i: int| 0 <= i < text.len() ==> is_space(#[trigger] text[i])) ==> text_or_dash(text)
            == text,
{
}

/// The main monitor is the first that is a primary one, or the first of all where none is.
pub proof fn main_monitor_is_the_first_primary_one(monitors: Seq<MonitorInfo>, at: int)
    ensures
        0 <= at < monitors.len() && monitors[at].is_primary && (forall|i: int|
            0 <= i < at ==> !(#[trigger] monitors[i]).is_primary) ==> main_monitor(monitors) == Some(
            monitors[at],
        ),
        (forall|i: int| 0 <= i < monitors.len() ==> !(#[trigger] monitors[i]).is_primary)
            && monitors.len() > 0 ==> main_monitor(monitors) == Some(monitors[0]),
        monitors.len() == 0 ==> main_monitor(monitors) is None,
{
    lemma_first_kept(monitors, is_primary_monitor());
    assert(forall|i: int|
        0 <= i < monitors.len() ==> is_primary_monitor()(#[trigger] monitors[i])
            == monitors[i].is_primary);
}

/// The windows that are tiled at once are those that are managed and have their middle on the monitor.
pub proof fn managed_windows_on_the_monitor_are_tiled_at_once(monitor: MonitorInfo, window: WindowInfo)
    ensures
        is_tiled_once(monitor)(window) <==> window.refusal() is None && monitor.rect.left
            <= window.rect.middle().x < monitor.rect.right && monitor.rect.top <= window.rect.middle().y
            < monitor.rect.bottom,
{
}

/// Style bits are shown in eight hexadecimal digits.
pub proof fn style_bits_have_eight_digits(bits: u32)
    ensures
        style_text(bits).len() >= 10,
        numeral(bits as nat, 16).len() <= 8 ==> style_text(bits).len() == 10,
        style_text(bits)[0] == '0' && style_text(bits)[1] == 'x',
{
    reveal_strlit("0x");
    assert("0x"@.len() == 2);
}

/// What a game pauses is told as all layouts, as those of the focused monitor where the settings say so
/// and the game fills one, or as nothing.
pub proof fn paused_layouts_are_told(detection: GameModeDetection, settings: RuntimeGameModeConfig)
    ensures
        !detection.active || !settings.pause_all_layouts_when_game_focused ==> pause_scope_note(
            detection,
            settings,
        ) == "-"@,
        detection.active && settings.pause_all_layouts_when_game_focused
            && settings.pause_focused_monitor_only && detection.fullscreen.monitor is Some
            ==> pause_scope_note(detection, settings) == "focused monitor"@,
        detection.active && settings.pause_all_layouts_when_game_focused && (
        !settings.pause_focused_monitor_only || detection.fullscreen.monitor is None)
            ==> pause_scope_note(detection, settings) == "global"@,
{
}

/// Of what a plugin sends, texts and numbers are shown as they are and flags as true or false; anything
/// else is not shown. Of two texts the first is taken, and a word stands for one that is missing.
pub proof fn members_are_shown_as_text(text: Seq<char>, other: Seq<char>)
    ensures
        shown_member(Some(JsonMemberView::Text(text))) == Some(text),
        shown_member(Some(JsonMemberView::Number(text))) == Some(text),
        shown_member(Some(JsonMemberView::Flag(true))) == Some("true"@),
        shown_member(Some(JsonMemberView::Flag(false))) == Some("false"@),
        shown_member(Some(JsonMemberView::Other)) is None,
        shown_member(None) is None,
        first_text(Some(text), Some(other)) == Some(text),
        first_text(None, Some(other)) == Some(other),
        first_text(Some(text), None) == Some(text),
        text_or(Some(text), other) == text,
        text_or(None, other) == other,
{
}

} // verus!
