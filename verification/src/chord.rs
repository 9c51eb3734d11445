//! How keys are written in the settings: modifiers and a key with `+` between them.

use vstd::prelude::*;

use crate::commands::{HotkeyChord, HotkeyKey, HotkeyModifier};
use crate::shell::{ascii_lowercase, ascii_lowercase_chars};
use crate::text::{is_text, trim_chars, trimmed, word_views};

verus! {

/// The parts of a text between the plus signs.
pub open spec fn parts(text: Seq<char>) -> Seq<Seq<char>>
    decreases text.len(),
{
    if text.len() == 0 {
        seq![Seq::empty()]
    } else {
        let before = parts(text.drop_last());
        if text.last() == '+' {
            before.push(Seq::empty())
        } else {
            before.drop_last().push(before.last().push(text.last()))
        }
    }
}

/// The names in a text: its parts in small letters, without white space around them.
pub open spec fn names(text: Seq<char>) -> Seq<Seq<char>> {
    parts(ascii_lowercase(text)).map_values(|part: Seq<char>| trimmed(part))
}

fn split_parts(text: &[char]) -> (r: Vec<Vec<char>>)
    ensures
        word_views(r@) == parts(text@),
        r.len() >= 1,
{
    let mut found: Vec<Vec<char>> = Vec::new();
    let mut part: Vec<char> = Vec::new();
    let mut index: usize = 0;
    proof {
        assert(text@.take(0) =~= Seq::empty());
        assert(word_views(found@).push(part@) =~= parts(text@.take(0)));
    }
    while index < text.len()
        invariant
            index <= text.len(),
            word_views(found@).push(part@) == parts(text@.take(index as int)),
        decreases text.len() - index,
    {
        let ghost before = word_views(found@);
        let ghost held = part@;
        proof {
            assert(text@.take(index + 1).drop_last() =~= text@.take(index as int));
            assert(text@.take(index + 1).last() == text@[index as int]);
            assert(before.push(held).drop_last() =~= before);
            assert(before.push(held).last() == held);
        }
        if text[index] == '+' {
            found.push(part);
            part = Vec::new();
            proof {
                assert(word_views(found@) =~= before.push(held));
                assert(part@ =~= Seq::empty());
            }
        } else {
            part.push(text[index]);
        }
        index = index + 1;
    }
    let ghost before = word_views(found@);
    let ghost held = part@;
    found.push(part);
    proof {
        assert(text@.take(index as int) =~= text@);
        assert(word_views(found@) =~= before.push(held));
    }
    found
}

fn split_names(text: &str) -> (r: Vec<Vec<char>>)
    ensures
        word_views(r@) == names(text@),
        r.len() >= 1,
{
    let lower: Vec<char> = ascii_lowercase_chars(text);
    let split: Vec<Vec<char>> = split_parts(&lower);
    let mut found: Vec<Vec<char>> = Vec::new();
    let mut index: usize = 0;
    while index < split.len()
        invariant
            index <= split.len(),
            found.len() == index,
            forall|i: int| 0 <= i < index ==> #[trigger] found@[i]@ == trimmed(split@[i]@),
        decreases split.len() - index,
    {
        found.push(trim_chars(&split[index]));
        index = index + 1;
    }
    proof {
        assert(word_views(split@).len() == split@.len());
        assert forall|i: int| 0 <= i < found@.len() implies #[trigger] word_views(found@)[i] == names(
            text@,
        )[i] by {
            assert(word_views(split@)[i] == split@[i]@);
            assert(found@[i]@ == trimmed(split@[i]@));
        }
        assert(word_views(found@) =~= names(text@));
    }
    found
}

/// The modifier that a name means.
pub open spec fn modifier_named(name: Seq<char>) -> Option<HotkeyModifier> {
    if name == "alt"@ {
        Some(HotkeyModifier::Alt)
    } else if name == "ctrl"@ || name == "control"@ {
        Some(HotkeyModifier::Control)
    } else if name == "shift"@ {
        Some(HotkeyModifier::Shift)
    } else if name == "win"@ || name == "super"@ {
        Some(HotkeyModifier::Super)
    } else {
        None
    }
}

fn find_modifier(name: &[char]) -> (r: Option<HotkeyModifier>)
    ensures
        r == modifier_named(name@),
{
    if is_text(name, "alt") {
        Some(HotkeyModifier::Alt)
    } else if is_text(name, "ctrl") || is_text(name, "control") {
        Some(HotkeyModifier::Control)
    } else if is_text(name, "shift") {
        Some(HotkeyModifier::Shift)
    } else if is_text(name, "win") || is_text(name, "super") {
        Some(HotkeyModifier::Super)
    } else {
        None
    }
}

/// The key that a name means: a letter or a digit, an arrow, escape or space.
pub open spec fn key_named(name: Seq<char>) -> Option<HotkeyKey> {
    if name.len() == 1 && 'a' <= name[0] <= 'z' {
        Some(HotkeyKey::Character((name[0] as u32 - 32) as char))
    } else if name.len() == 1 && '0' <= name[0] <= '9' {
        Some(HotkeyKey::Character(name[0]))
    } else if name == "left"@ {
        Some(HotkeyKey::ArrowLeft)
    } else if name == "down"@ {
        Some(HotkeyKey::ArrowDown)
    } else if name == "up"@ {
        Some(HotkeyKey::ArrowUp)
    } else if name == "right"@ {
        Some(HotkeyKey::ArrowRight)
    } else if name == "escape"@ || name == "esc"@ {
        Some(HotkeyKey::Escape)
    } else if name == "space"@ {
        Some(HotkeyKey::Space)
    } else {
        None
    }
}

fn find_key(name: &[char]) -> (r: Option<HotkeyKey>)
    ensures
        r == key_named(name@),
{
    if name.len() == 1 {
        let c: char = name[0];
        if 'a' <= c && c <= 'z' {
            return Some(HotkeyKey::Character((c as u8 - 32u8) as char));
        }
        if '0' <= c && c <= '9' {
            return Some(HotkeyKey::Character(c));
        }
    }
    if is_text(name, "left") {
        Some(HotkeyKey::ArrowLeft)
    } else if is_text(name, "down") {
        Some(HotkeyKey::ArrowDown)
    } else if is_text(name, "up") {
        Some(HotkeyKey::ArrowUp)
    } else if is_text(name, "right") {
        Some(HotkeyKey::ArrowRight)
    } else if is_text(name, "escape") || is_text(name, "esc") {
        Some(HotkeyKey::Escape)
    } else if is_text(name, "space") {
        Some(HotkeyKey::Space)
    } else {
        None
    }
}

/// The modifiers that names mean, in their order; none if one of the names means none.
pub open spec fn modifiers_named(list: Seq<Seq<char>>) -> Option<Seq<HotkeyModifier>>
    decreases list.len(),
{
    if list.len() == 0 {
        Some(Seq::empty())
    } else {
        match (modifiers_named(list.drop_last()), modifier_named(list.last())) {
            (Some(before), Some(modifier)) => Some(before.push(modifier)),
            _ => None,
        }
    }
}

proof fn lemma_no_modifier(list: Seq<Seq<char>>, at: int)
    requires
        0 <= at < list.len(),
        modifier_named(list[at]) is None,
    ensures
        modifiers_named(list) is None,
    decreases list.len(),
{
    if at < list.len() - 1 {
        assert(list.drop_last()[at] == list[at]);
        lemma_no_modifier(list.drop_last(), at);
    }
}

fn find_modifiers(list: &[Vec<char>], count: usize) -> (r: Option<Vec<HotkeyModifier>>)
    requires
        count <= list.len(),
    ensures
        match r {
            Some(found) => modifiers_named(word_views(list@).take(count as int)) == Some(found@),
            None => modifiers_named(word_views(list@).take(count as int)) is None,
        },
{
    let ghost all = word_views(list@);
    let mut found: Vec<HotkeyModifier> = Vec::new();
    let mut index: usize = 0;
    proof {
        assert(all.take(0) =~= Seq::empty());
    }
    while index < count
        invariant
            index <= count <= list.len(),
            all == word_views(list@),
            modifiers_named(all.take(index as int)) == Some(found@),
        decreases count - index,
    {
        proof {
            assert(all.take(index + 1).drop_last() =~= all.take(index as int));
            assert(all.take(index + 1).last() == list@[index as int]@);
        }
        match find_modifier(&list[index]) {
            Some(modifier) => {
                found.push(modifier);
            },
            None => {
                proof {
                    assert(all.take(count as int)[index as int] == list@[index as int]@);
                    lemma_no_modifier(all.take(count as int), index as int);
                }
                return None;
            },
        }
        index = index + 1;
    }
    Some(found)
}

/// Reads modifiers; none if one of them is not known.
pub fn parse_hotkey_modifiers(text: &str) -> (r: Option<Vec<HotkeyModifier>>)
    ensures
        match r {
            Some(found) => modifiers_named(names(text@)) == Some(found@),
            None => modifiers_named(names(text@)) is None,
        },
{
    let list: Vec<Vec<char>> = split_names(text);
    let count: usize = list.len();
    proof {
        assert(word_views(list@).len() == list@.len());
        assert(word_views(list@).take(count as int) =~= names(text@));
    }
    find_modifiers(&list, count)
}

/// The modifiers and the key that a text means, the key being the last; none if one of the names
/// means none.
pub open spec fn chord_named(text: Seq<char>) -> Option<(Seq<HotkeyModifier>, HotkeyKey)> {
    match (modifiers_named(names(text).drop_last()), key_named(names(text).last())) {
        (Some(modifiers), Some(key)) => Some((modifiers, key)),
        _ => None,
    }
}

/// Reads modifiers and a key, the key being the last; none if one of them is not known.
pub fn parse_hotkey_chord(text: &str) -> (r: Option<HotkeyChord>)
    ensures
        match r {
            Some(chord) => chord_named(text@) == Some((chord.modifiers@, chord.key)),
            None => chord_named(text@) is None,
        },
{
    let list: Vec<Vec<char>> = split_names(text);
    let last: usize = list.len() - 1;
    proof {
        assert(word_views(list@).len() == list@.len());
        assert(word_views(list@).take(last as int) =~= names(text@).drop_last());
        assert(names(text@).last() == list@[last as int]@);
    }
    let modifiers: Vec<HotkeyModifier> = match find_modifiers(&list, last) {
        Some(modifiers) => modifiers,
        None => {
            return None;
        },
    };
    match find_key(&list[last]) {
        Some(key) => Some(HotkeyChord { modifiers, key }),
        None => None,
    }
}

/// No name means both a modifier and a key.
pub proof fn modifiers_are_no_keys(name: Seq<char>)
    ensures
        modifier_named(name) is None || key_named(name) is None,
{
    reveal_strlit("alt");
    reveal_strlit("ctrl");
    reveal_strlit("control");
    reveal_strlit("shift");
    reveal_strlit("win");
    reveal_strlit("super");
    reveal_strlit("left");
    reveal_strlit("down");
    reveal_strlit("up");
    reveal_strlit("right");
    reveal_strlit("escape");
    reveal_strlit("esc");
    reveal_strlit("space");
    if modifier_named(name) is Some {
        assert(name[0] == 'a' || name[0] == 'c' || name[0] == 's' || name[0] == 'w');
        assert(name.len() > 2);
        if key_named(name) is Some {
            assert("space"@[1] == 'p');
            assert("super"@[1] == 'u');
            assert("shift"@[1] == 'h');
        }
    }
}

} // verus!
