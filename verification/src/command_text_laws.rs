//! How commands and hotkeys are written.

use vstd::prelude::*;

use crate::chord::{chord_named, key_named, modifier_named, modifiers_named, names, parts};
use crate::commands::{
    command_named, command_of_words, key_code, key_name, modifier_set, monitor_named_by, number_after,
    plain_command, workspace_named, CycleDirection, DaemonCommand, FocusDirection, HotkeyKey,
    HotkeyModifier, MonitorSelector,
};
use crate::geometry::MonitorId;
use crate::hotkey::VirtualKey;
use crate::numeral::{digit, digit_value, digits_value, handle_text, numeral, written_numbers_are_read_back};
use crate::text::{has_prefix, is_space, words};
use crate::text_laws::{
    text_without_white_space_at_the_ends_stays, text_without_white_space_is_one_word,
    white_space_parts_words,
};
use crate::workspace::WorkspaceId;

verus! {

pub proof fn lemma_numeral_digits(number: nat, radix: nat)
    requires
        2 <= radix <= 16,
    ensures
        numeral(number, radix).len() > 0,
        forall|i: int|
            0 <= i < numeral(number, radix).len() ==> {
                let c = #[trigger] numeral(number, radix)[i];
                &&& !is_space(c)
                &&& '0' <= c <= '9' || 'A' <= c <= 'F'
                &&& radix <= 10 ==> '0' <= c <= '9'
            },
    decreases number,
{
    if number < radix {
        lemma_digit_char(number as int, radix);
    } else {
        assert(number / radix < number) by (nonlinear_arith)
            requires
                radix >= 2,
                number >= radix,
        ;
        lemma_numeral_digits(number / radix, radix);
        lemma_digit_char((number % radix) as int, radix);
    }
}

proof fn lemma_digit_char(value: int, radix: nat)
    requires
        0 <= value < radix <= 16,
    ensures
        !is_space(digit(value)),
        '0' <= digit(value) <= '9' || 'A' <= digit(value) <= 'F',
        radix <= 10 ==> '0' <= digit(value) <= '9',
{
    if value < 10 {
        assert(digit(value) as int == 48 + value);
    } else {
        assert(digit(value) as int == 55 + value);
    }
}

proof fn lemma_no_digit_no_number(text: Seq<char>, radix: nat, at: int)
    requires
        0 <= at < text.len(),
        digit_value(text[at]) is None,
    ensures
        digits_value(text, radix) is None,
    decreases text.len(),
{
    if at < text.len() - 1 {
        lemma_no_digit_no_number(text.drop_last(), radix, at);
    }
}

/// A workspace is named by its number, which is not zero.
pub proof fn workspaces_are_named_by_number(number: u16)
    ensures
        number > 0 ==> workspace_named(numeral(number as nat, 10)) == Some(number),
        number == 0 ==> workspace_named(numeral(number as nat, 10)) is None,
{
    written_numbers_are_read_back(number as nat, 10, 0xffff);
}

/// A monitor is named by its number from the left, by its identifier, or as the next or the previous one.
pub proof fn monitors_are_named_by_number_or_identifier(number: usize, id: u64)
    ensures
        number > 0 ==> monitor_named_by(numeral(number as nat, 10)) == Some(
            MonitorSelector::Index(number),
        ),
        number == 0 ==> monitor_named_by(numeral(number as nat, 10)) is None,
        monitor_named_by(handle_text(id)) == Some(MonitorSelector::Id(MonitorId(id))),
        monitor_named_by("next"@) == Some(MonitorSelector::Next),
        monitor_named_by("prev"@) == Some(MonitorSelector::Prev),
        monitor_named_by("previous"@) == Some(MonitorSelector::Prev),
{
    reveal_strlit("next");
    reveal_strlit("prev");
    reveal_strlit("previous");
    reveal_strlit("0x");
    reveal_strlit("0X");
    assert("prev"@[0] == 'p' && "previous"@[0] == 'p' && "next"@[0] == 'n');
    let digits = numeral(number as nat, 10);
    lemma_numeral_digits(number as nat, 10);
    written_numbers_are_read_back(number as nat, 10, usize::MAX as nat);
    assert('0' <= digits[0] <= '9');
    if has_prefix(digits, "0x"@) {
        assert(digits.subrange(0, 2)[1] == digits[1]);
        assert("0x"@[1] == 'x');
    }
    if has_prefix(digits, "0X"@) {
        assert(digits.subrange(0, 2)[1] == digits[1]);
        assert("0X"@[1] == 'X');
    }
    let text = handle_text(id);
    assert(text[0] == '0' && text[1] == 'x');
    assert(text.subrange(0, 2) =~= "0x"@);
    assert(text.skip(2) =~= numeral(id as nat, 16));
    written_numbers_are_read_back(id as nat, 16, 0xffff_ffff_ffff_ffff);
}

/// Commands of two or three words name what they do and to which workspace or monitor.
#[verifier::rlimit(50)]
pub proof fn words_name_the_command(
    number: u16,
    word: Seq<char>,
    monitor: MonitorSelector,
)
    requires
        number > 0,
        monitor_named_by(word) == Some(monitor),
    ensures
        ({
            let digits = numeral(number as nat, 10);
            let workspace = WorkspaceId(number);
            &&& command_of_words(seq!["switch-workspace"@, digits]) == Some(
                DaemonCommand::SwitchWorkspace(workspace),
            )
            &&& command_of_words(seq!["move-window-to-workspace"@, digits]) == Some(
                DaemonCommand::MoveFocusedToWorkspace(workspace),
            )
            &&& command_of_words(seq!["move-window-to-workspace-and-follow"@, digits]) == Some(
                DaemonCommand::MoveFocusedToWorkspaceAndFollow(workspace),
            )
            &&& command_of_words(seq!["focus-monitor"@, word]) == Some(
                DaemonCommand::FocusMonitor(monitor),
            )
            &&& command_of_words(seq!["move-window-to-monitor"@, word]) == Some(
                DaemonCommand::MoveFocusedToMonitor(monitor),
            )
            &&& command_of_words(seq!["send-workspace-to-monitor"@, digits, word]) == Some(
                DaemonCommand::SendWorkspaceToMonitor { workspace, monitor },
            )
            &&& command_of_words(seq!["switch-workspace"@, "next"@]) == Some(
                DaemonCommand::SwitchWorkspaceRelative(CycleDirection::Next),
            )
            &&& command_of_words(seq!["switch-workspace"@, "prev"@]) == Some(
                DaemonCommand::SwitchWorkspaceRelative(CycleDirection::Prev),
            )
        }),
{
    let digits = numeral(number as nat, 10);
    workspaces_are_named_by_number(number);
    lemma_command_words_differ();
    lemma_number_is_no_word(number);
}

proof fn lemma_command_words_differ()
    ensures
        "switch-workspace"@ != "move-window-to-workspace"@,
        "switch-workspace"@ != "move-window-to-workspace-and-follow"@,
        "switch-workspace"@ != "focus-monitor"@,
        "switch-workspace"@ != "move-window-to-monitor"@,
        "move-window-to-workspace"@ != "move-window-to-workspace-and-follow"@,
        "move-window-to-workspace"@ != "focus-monitor"@,
        "move-window-to-workspace"@ != "move-window-to-monitor"@,
        "move-window-to-workspace-and-follow"@ != "focus-monitor"@,
        "move-window-to-workspace-and-follow"@ != "move-window-to-monitor"@,
        "focus-monitor"@ != "move-window-to-monitor"@,
        "next"@ != "prev"@,
{
    reveal_strlit("switch-workspace");
    reveal_strlit("move-window-to-workspace");
    reveal_strlit("move-window-to-workspace-and-follow");
    reveal_strlit("focus-monitor");
    reveal_strlit("move-window-to-monitor");
    reveal_strlit("next");
    reveal_strlit("prev");
    assert("switch-workspace"@.len() == 16 && "move-window-to-workspace"@.len() == 24);
    assert("move-window-to-workspace-and-follow"@.len() == 35 && "focus-monitor"@.len() == 13);
    assert("move-window-to-monitor"@.len() == 22);
    assert("next"@[0] == 'n' && "prev"@[0] == 'p');
}

proof fn lemma_number_is_no_word(number: u16)
    ensures
        numeral(number as nat, 10) != "next"@,
        numeral(number as nat, 10) != "prev"@,
        numeral(number as nat, 10) != "previous"@,
{
    lemma_numeral_digits(number as nat, 10);
    reveal_strlit("next");
    reveal_strlit("prev");
    reveal_strlit("previous");
    assert("next"@[0] == 'n' && "prev"@[0] == 'p' && "previous"@[0] == 'p');
    assert('0' <= numeral(number as nat, 10)[0] <= '9');
}

/// A command that is written in two words is read from them, whatever white space parts them.
pub proof fn command_is_read_from_its_words(first: Seq<char>, space: char, second: Seq<char>)
    requires
        is_space(space),
        first.len() > 0,
        second.len() > 0,
        forall|i: int| 0 <= i < first.len() ==> !is_space(#[trigger] first[i]),
        forall|i: int| 0 <= i < second.len() ==> !is_space(#[trigger] second[i]),
        command_of_words(seq![first, second]) is Some,
    ensures
        command_named(first + seq![space] + second) == command_of_words(seq![first, second]),
{
    let text = first + seq![space] + second;
    assert(text[0] == first[0]);
    assert(text[text.len() - 1] == second[second.len() - 1]);
    text_without_white_space_at_the_ends_stays(text);
    white_space_parts_words(first, space, second);
    text_without_white_space_is_one_word(first);
    text_without_white_space_is_one_word(second);
    assert(words(text, 0) =~= seq![first, second]);
    assert(number_after(text, "switch-workspace-"@) is None) by {
        reveal_strlit("switch-workspace-");
        lemma_not_numbered(first, space, second, "switch-workspace-"@);
    }
    assert(number_after(text, "move-to-workspace-"@) is None) by {
        reveal_strlit("move-to-workspace-");
        lemma_not_numbered(first, space, second, "move-to-workspace-"@);
    }
}

proof fn lemma_not_numbered(first: Seq<char>, space: char, second: Seq<char>, prefix: Seq<char>)
    requires
        is_space(space),
        forall|i: int| 0 <= i < prefix.len() ==> !is_space(#[trigger] prefix[i]),
    ensures
        number_after(first + seq![space] + second, prefix) is None,
{
    let text = first + seq![space] + second;
    if has_prefix(text, prefix) {
        let at = first.len() as int;
        assert(text[at] == space);
        let rest = text.skip(prefix.len() as int);
        if at < prefix.len() {
            assert(text.subrange(0, prefix.len() as int)[at] == text[at]);
            assert(prefix[at] == space);
        }
        assert(rest[at - prefix.len()] == space);
        assert(digit_value(space) is None);
        if rest.len() > 1 && rest[0] == '+' {
            assert(at - prefix.len() > 0);
            assert(rest.skip(1)[at - prefix.len() - 1] == space);
            lemma_no_digit_no_number(rest.skip(1), 10, at - prefix.len() - 1);
        } else {
            lemma_no_digit_no_number(rest, 10, at - prefix.len());
        }
    }
}

/// A command with the number of a workspace behind a hyphen is read too.
pub proof fn numbered_commands_name_a_workspace(number: u16)
    ensures
        command_named("switch-workspace-"@ + numeral(number as nat, 10)) == Some(
            DaemonCommand::SwitchWorkspace(WorkspaceId(number)),
        ),
        command_named("move-to-workspace-"@ + numeral(number as nat, 10)) == Some(
            DaemonCommand::MoveFocusedToWorkspace(WorkspaceId(number)),
        ),
{
    let digits = numeral(number as nat, 10);
    lemma_numeral_digits(number as nat, 10);
    written_numbers_are_read_back(number as nat, 10, 0xffff);
    reveal_strlit("switch-workspace-");
    reveal_strlit("move-to-workspace-");
    let go = "switch-workspace-"@ + digits;
    let bring = "move-to-workspace-"@ + digits;
    assert(go[0] == 's' && bring[0] == 'm');
    assert(go[go.len() - 1] == digits[digits.len() - 1]);
    assert(bring[bring.len() - 1] == digits[digits.len() - 1]);
    text_without_white_space_at_the_ends_stays(go);
    text_without_white_space_at_the_ends_stays(bring);
    assert(go.subrange(0, 17) =~= "switch-workspace-"@);
    assert(go.skip(17) =~= digits);
    assert(bring.subrange(0, 18) =~= "move-to-workspace-"@);
    assert(bring.skip(18) =~= digits);
    if has_prefix(bring, "switch-workspace-"@) {
        assert(bring.subrange(0, 17)[0] == bring[0]);
        assert("switch-workspace-"@[0] == 's');
    }
}

/// A command of one word names the direction in which it focuses or swaps, or what else it does.
pub proof fn plain_names_mean_their_commands(direction: FocusDirection)
    ensures
        ({
            let (focus, swap) = match direction {
                FocusDirection::Left => ("focus-left"@, "swap-left"@),
                FocusDirection::Down => ("focus-down"@, "swap-down"@),
                FocusDirection::Up => ("focus-up"@, "swap-up"@),
                FocusDirection::Right => ("focus-right"@, "swap-right"@),
            };
            &&& plain_command(focus) == Some(DaemonCommand::Focus(direction))
            &&& plain_command(swap) == Some(DaemonCommand::Swap(direction))
            &&& plain_command("retile"@) == Some(DaemonCommand::Retile)
            &&& plain_command("toggle-float"@) == Some(DaemonCommand::ToggleFloat)
            &&& plain_command("reload"@) == Some(DaemonCommand::Reload)
            &&& plain_command("quit"@) == Some(DaemonCommand::Quit)
        }),
{
    reveal_strlit("focus-left");
    reveal_strlit("focus-down");
    reveal_strlit("focus-up");
    reveal_strlit("focus-right");
    reveal_strlit("swap-left");
    reveal_strlit("swap-down");
    reveal_strlit("swap-up");
    reveal_strlit("swap-right");
    reveal_strlit("retile");
    reveal_strlit("toggle-float");
    reveal_strlit("reload");
    reveal_strlit("quit");
    assert("focus-left"@[6] == 'l' && "focus-down"@[6] == 'd' && "focus-up"@[6] == 'u'
        && "focus-right"@[6] == 'r');
    assert("swap-left"@[5] == 'l' && "swap-down"@[5] == 'd' && "swap-up"@[5] == 'u'
        && "swap-right"@[5] == 'r');
    assert("focus-left"@[0] == 'f' && "focus-down"@[0] == 'f' && "focus-up"@[0] == 'f'
        && "focus-right"@[0] == 'f');
    assert("swap-left"@[0] == 's' && "swap-down"@[0] == 's' && "swap-up"@[0] == 's' && "swap-right"@[0]
        == 's');
    assert("retile"@[0] == 'r' && "toggle-float"@[0] == 't' && "reload"@[0] == 'r' && "quit"@[0] == 'q');
    assert("retile"@[2] == 't' && "reload"@[2] == 'l');
}

proof fn lemma_parts_nonempty(text: Seq<char>)
    ensures
        parts(text).len() > 0,
    decreases text.len(),
{
    if text.len() > 0 {
        lemma_parts_nonempty(text.drop_last());
    }
}

/// A chord is parted at the plus signs, and nowhere else.
pub proof fn plus_signs_part_a_chord(first: Seq<char>, second: Seq<char>)
    ensures
        parts(first + seq!['+'] + second) == parts(first) + parts(second),
        (forall|i: int| 0 <= i < second.len() ==> #[trigger] second[i] != '+') ==> parts(second)
            == seq![second],
    decreases second.len(),
{
    let text = first + seq!['+'] + second;
    lemma_parts_nonempty(first);
    lemma_parts_nonempty(second);
    if second.len() == 0 {
        assert(text.drop_last() =~= first);
        assert(text.last() == '+');
        assert(parts(text) =~= parts(first) + parts(second));
        assert(second =~= Seq::empty());
    } else {
        let rest = second.drop_last();
        plus_signs_part_a_chord(first, rest);
        lemma_parts_nonempty(rest);
        assert(text.drop_last() =~= first + seq!['+'] + rest);
        assert(text.last() == second.last());
        assert((parts(first) + parts(rest)).last() == parts(rest).last());
        if second.last() == '+' {
            assert(parts(text) =~= parts(first) + parts(second));
        } else {
            assert((parts(first) + parts(rest)).drop_last() =~= parts(first) + parts(
                rest,
            ).drop_last());
            assert(parts(text) =~= parts(first) + parts(second));
        }
        if forall|i: int| 0 <= i < second.len() ==> #[trigger] second[i] != '+' {
            assert forall|i: int| 0 <= i < rest.len() implies #[trigger] rest[i] != '+' by {
                assert(second[i] != '+');
            }
            assert(second[second.len() - 1] == second.last());
            assert(parts(rest) == seq![rest]);
            assert(rest.push(second.last()) =~= second);
            assert(parts(second) =~= seq![second]);
        }
    }
}

/// A chord is its modifiers, in their order, and its key at the end.
pub proof fn chord_is_modifiers_and_a_key(text: Seq<char>, at: int)
    requires
        chord_named(text) is Some,
        0 <= at < names(text).len() - 1,
    ensures
        ({
            let (modifiers, key) = chord_named(text).unwrap();
            &&& modifiers.len() == names(text).len() - 1
            &&& modifier_named(names(text)[at]) == Some(modifiers[at])
            &&& key_named(names(text)[names(text).len() - 1]) == Some(key)
        }),
{
    lemma_modifiers(names(text).drop_last(), at);
}

proof fn lemma_modifiers(list: Seq<Seq<char>>, at: int)
    requires
        modifiers_named(list) is Some,
        0 <= at < list.len(),
    ensures
        modifiers_named(list).unwrap().len() == list.len(),
        modifier_named(list[at]) == Some(modifiers_named(list).unwrap()[at]),
    decreases list.len(),
{
    let rest = list.drop_last();
    lemma_modifiers_len(rest);
    if at < rest.len() {
        lemma_modifiers(rest, at);
    }
}

proof fn lemma_modifiers_len(list: Seq<Seq<char>>)
    ensures
        modifiers_named(list) matches Some(modifiers) ==> modifiers.len() == list.len(),
    decreases list.len(),
{
    if list.len() > 0 {
        lemma_modifiers_len(list.drop_last());
    }
}

/// Each modifier has its names, and no other modifier has them.
pub proof fn modifiers_have_their_names(name: Seq<char>)
    ensures
        modifier_named(name) == Some(HotkeyModifier::Alt) <==> name == "alt"@,
        modifier_named(name) == Some(HotkeyModifier::Control) <==> name == "ctrl"@ || name
            == "control"@,
        modifier_named(name) == Some(HotkeyModifier::Shift) <==> name == "shift"@,
        modifier_named(name) == Some(HotkeyModifier::Super) <==> name == "win"@ || name == "super"@,
{
    reveal_strlit("alt");
    reveal_strlit("ctrl");
    reveal_strlit("control");
    reveal_strlit("shift");
    reveal_strlit("win");
    reveal_strlit("super");
    assert("alt"@[0] == 'a' && "ctrl"@[0] == 'c' && "control"@[0] == 'c' && "shift"@[1] == 'h'
        && "win"@[0] == 'w' && "super"@[1] == 'u' && "alt"@[1] == 'l' && "ctrl"@[1] == 't'
        && "control"@[1] == 'o' && "win"@[1] == 'i');
}

/// A letter or a digit is the key that its capital has the number of; the arrows, escape and space have
/// theirs.
pub proof fn keys_have_their_numbers(c: char)
    ensures
        'a' <= c <= 'z' ==> key_named(seq![c]) is Some && key_code(key_named(seq![c]).unwrap()).0 == c as u32
            - 32,
        '0' <= c <= '9' ==> key_named(seq![c]) is Some && key_code(key_named(seq![c]).unwrap()).0
            == c as u32,
        key_code(HotkeyKey::ArrowLeft).0 == 0x25,
        key_code(HotkeyKey::ArrowUp).0 == 0x26,
        key_code(HotkeyKey::ArrowRight).0 == 0x27,
        key_code(HotkeyKey::ArrowDown).0 == 0x28,
        key_code(HotkeyKey::Escape).0 == 0x1b,
        key_code(HotkeyKey::Space).0 == 0x20,
        key_name(VirtualKey(0x25)) == "Left"@,
        key_name(VirtualKey(0x26)) == "Up"@,
        key_name(VirtualKey(0x27)) == "Right"@,
        key_name(VirtualKey(0x28)) == "Down"@,
        key_name(VirtualKey(0x1b)) == "Escape"@,
        key_name(VirtualKey(0x20)) == "Space"@,
{
    if 'a' <= c <= 'z' {
        let upper = (c as u32 - 32) as char;
        assert(upper as u32 == c as u32 - 32);
    }
}

/// The arrows, escape and space are named as such.
pub proof fn keys_have_their_names(name: Seq<char>)
    ensures
        key_named(name) == Some(HotkeyKey::ArrowLeft) <==> name == "left"@,
        key_named(name) == Some(HotkeyKey::ArrowDown) <==> name == "down"@,
        key_named(name) == Some(HotkeyKey::ArrowUp) <==> name == "up"@,
        key_named(name) == Some(HotkeyKey::ArrowRight) <==> name == "right"@,
        key_named(name) == Some(HotkeyKey::Escape) <==> name == "escape"@ || name == "esc"@,
        key_named(name) == Some(HotkeyKey::Space) <==> name == "space"@,
{
    reveal_strlit("left");
    reveal_strlit("down");
    reveal_strlit("up");
    reveal_strlit("right");
    reveal_strlit("escape");
    reveal_strlit("esc");
    reveal_strlit("space");
    assert("left"@[0] == 'l' && "down"@[0] == 'd' && "up"@[0] == 'u' && "right"@[0] == 'r'
        && "escape"@[0] == 'e' && "esc"@[0] == 'e' && "space"@[0] == 's');
    assert("up"@.len() == 2 && "esc"@.len() == 3 && "left"@.len() == 4 && "down"@.len() == 4
        && "right"@.len() == 5 && "escape"@.len() == 6 && "space"@.len() == 5);
}

/// A chord's modifiers are held exactly if they are named in it, and a hotkey does not repeat.
pub proof fn modifiers_named_are_held(modifiers: Seq<HotkeyModifier>)
    ensures
        modifier_set(modifiers).alt == modifiers.contains(HotkeyModifier::Alt),
        modifier_set(modifiers).control == modifiers.contains(HotkeyModifier::Control),
        modifier_set(modifiers).shift == modifiers.contains(HotkeyModifier::Shift),
        modifier_set(modifiers).super_key == modifiers.contains(HotkeyModifier::Super),
        modifier_set(modifiers).no_repeat,
{
}

} // verus!
