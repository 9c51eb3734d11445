//! Text as a sequence of characters: comparing, trimming, splitting, searching.

use vstd::prelude::*;

verus! {

/// `String::push` appends the character.
pub assume_specification[ String::push ](text: &mut String, character: char)
    ensures
        final(text)@ == old(text)@.push(character),
;

/// `String::push_str` appends the text.
pub assume_specification[ String::push_str ](text: &mut String, more: &str)
    ensures
        final(text)@ == old(text)@ + more@,
;

/// What `str::to_lowercase` makes of a text.
pub uninterp spec fn lowercase(text: Seq<char>) -> Seq<char>;

/// The lowercase of an ASCII character.
pub open spec fn ascii_lower(character: char) -> char {
    if 'A' <= character <= 'Z' {
        (character as u32 + 32) as char
    } else {
        character
    }
}

/// `str::to_lowercase` gives the lowercase of a text by the Unicode rules; of a text of ASCII
/// characters it changes the letters `A` to `Z` alone.
pub assume_specification[ str::to_lowercase ](text: &str) -> (r: String)
    ensures
        r@ == lowercase(text@),
        vstd::utf8::is_ascii_chars(text@) ==> r@ == text@.map_values(|c: char| ascii_lower(c)),
;

/// The characters of a text.
pub fn chars_of(text: &str) -> (r: Vec<char>)
    ensures
        r@ == text@,
{
    let mut chars: Vec<char> = Vec::new();
    for character in iter: text.chars()
        invariant
            iter.seq() == text@,
            chars@ == text@.take(iter.index() as int),
    {
        chars.push(character);
        proof {
            assert(text@.take(iter.index() + 1) =~= text@.take(iter.index() as int).push(
                text@[iter.index() as int],
            ));
        }
    }
    proof {
        assert(text@.take(text@.len() as int) =~= text@);
    }
    chars
}

/// The text of characters.
pub fn text_of(chars: &[char]) -> (r: String)
    ensures
        r@ == chars@,
{
    let mut text: String = String::new();
    let mut index: usize = 0;
    while index < chars.len()
        invariant
            index <= chars.len(),
            text@ == chars@.take(index as int),
        decreases chars.len() - index,
    {
        text.push(chars[index]);
        proof {
            assert(chars@.take(index + 1) =~= chars@.take(index as int).push(chars@[index as int]));
        }
        index = index + 1;
    }
    proof {
        assert(chars@.take(index as int) =~= chars@);
    }
    text
}

/// Whether two lists of characters are the same.
pub fn same_chars(a: &[char], b: &[char]) -> (r: bool)
    ensures
        r == (a@ == b@),
{
    if a.len() != b.len() {
        return false;
    }
    let mut index: usize = 0;
    while index < a.len()
        invariant
            a.len() == b.len(),
            index <= a.len(),
            forall|i: int| 0 <= i < index ==> a@[i] == b@[i],
        decreases a.len() - index,
    {
        if a[index] != b[index] {
            return false;
        }
        index = index + 1;
    }
    proof {
        assert(a@ =~= b@);
    }
    true
}

/// Whether two texts are the same.
pub fn same_text(a: &str, b: &str) -> (r: bool)
    ensures
        r == (a@ == b@),
{
    let a_chars: Vec<char> = chars_of(a);
    let b_chars: Vec<char> = chars_of(b);
    same_chars(&a_chars, &b_chars)
}

/// Whether `part` stands in `text` at `at`.
pub open spec fn stands_at(text: Seq<char>, part: Seq<char>, at: int) -> bool {
    0 <= at && at + part.len() <= text.len() && text.subrange(at, at + part.len()) == part
}

/// Whether `part` stands somewhere in `text`.
pub open spec fn has_part(text: Seq<char>, part: Seq<char>) -> bool {
    exists|at: int| #[trigger] stands_at(text, part, at)
}

/// Whether `text` starts with `part`.
pub open spec fn has_prefix(text: Seq<char>, part: Seq<char>) -> bool {
    stands_at(text, part, 0)
}

/// Whether `text` ends with `part`.
pub open spec fn has_suffix(text: Seq<char>, part: Seq<char>) -> bool {
    stands_at(text, part, text.len() - part.len())
}

/// Whether `part` stands in `text` at `at`.
pub fn part_at(text: &[char], part: &[char], at: usize) -> (r: bool)
    ensures
        r == stands_at(text@, part@, at as int),
{
    if at > text.len() || part.len() > text.len() - at {
        return false;
    }
    let mut index: usize = 0;
    while index < part.len()
        invariant
            at <= text.len(),
            part.len() <= text.len() - at,
            index <= part.len(),
            forall|i: int| 0 <= i < index ==> text@[at + i] == part@[i],
        decreases part.len() - index,
    {
        if text[at + index] != part[index] {
            proof {
                assert(text@.subrange(at as int, at + part@.len())[index as int] != part@[index as int]);
            }
            return false;
        }
        index = index + 1;
    }
    proof {
        assert(text@.subrange(at as int, at + part@.len()) =~= part@);
    }
    true
}

/// Whether `part` stands somewhere in `text`.
pub fn contains_part(text: &[char], part: &[char]) -> (r: bool)
    ensures
        r == has_part(text@, part@),
{
    let mut at: usize = 0;
    while at < text.len()
        invariant
            at <= text.len(),
            forall|i: int| 0 <= i < at ==> !stands_at(text@, part@, i),
        decreases text.len() - at,
    {
        if part_at(text, part, at) {
            return true;
        }
        at = at + 1;
    }
    part_at(text, part, text.len())
}

/// Whether `text` starts with `part`.
pub fn starts_with_part(text: &[char], part: &[char]) -> (r: bool)
    ensures
        r == has_prefix(text@, part@),
{
    part_at(text, part, 0)
}

/// Whether `text` ends with `part`.
pub fn ends_with_part(text: &[char], part: &[char]) -> (r: bool)
    ensures
        r == has_suffix(text@, part@),
{
    part.len() <= text.len() && part_at(text, part, text.len() - part.len())
}

/// Whether a character is white space, as Unicode says.
pub open spec fn is_space(c: char) -> bool {
    ||| '\u{9}' <= c <= '\u{d}'
    ||| c == ' '
    ||| c == '\u{85}'
    ||| c == '\u{a0}'
    ||| c == '\u{1680}'
    ||| '\u{2000}' <= c <= '\u{200a}'
    ||| c == '\u{2028}'
    ||| c == '\u{2029}'
    ||| c == '\u{202f}'
    ||| c == '\u{205f}'
    ||| c == '\u{3000}'
}

/// Whether a character is white space.
pub fn space(c: char) -> (r: bool)
    ensures
        r == is_space(c),
{
    ('\u{9}' <= c && c <= '\u{d}') || c == ' ' || c == '\u{85}' || c == '\u{a0}' || c == '\u{1680}'
        || ('\u{2000}' <= c && c <= '\u{200a}') || c == '\u{2028}' || c == '\u{2029}' || c
        == '\u{202f}' || c == '\u{205f}' || c == '\u{3000}'
}

/// Whether a text holds white space alone.
pub open spec fn is_blank(text: Seq<char>) -> bool {
    forall|i: int| 0 <= i < text.len() ==> is_space(#[trigger] text[i])
}

/// Whether a text holds white space alone.
pub fn blank(text: &str) -> (r: bool)
    ensures
        r == is_blank(text@),
{
    let chars: Vec<char> = chars_of(text);
    let mut index: usize = 0;
    while index < chars.len()
        invariant
            index <= chars.len(),
            chars@ == text@,
            forall|i: int| 0 <= i < index ==> is_space(#[trigger] text@[i]),
        decreases chars.len() - index,
    {
        if !space(chars[index]) {
            return false;
        }
        index = index + 1;
    }
    true
}

/// The text without white space at its start.
pub open spec fn trimmed_start(text: Seq<char>) -> Seq<char>
    decreases text.len(),
{
    if text.len() > 0 && is_space(text[0]) {
        trimmed_start(text.skip(1))
    } else {
        text
    }
}

/// The text without white space at its end.
pub open spec fn trimmed_end(text: Seq<char>) -> Seq<char>
    decreases text.len(),
{
    if text.len() > 0 && is_space(text.last()) {
        trimmed_end(text.drop_last())
    } else {
        text
    }
}

/// The text without white space at its start and end.
pub open spec fn trimmed(text: Seq<char>) -> Seq<char> {
    trimmed_end(trimmed_start(text))
}

/// Takes the white space at start and end away.
pub fn trim_chars(text: &[char]) -> (r: Vec<char>)
    ensures
        r@ == trimmed(text@),
{
    let mut start: usize = 0;
    proof {
        assert(text@.skip(0) =~= text@);
    }
    while start < text.len() && space(text[start])
        invariant
            start <= text.len(),
            trimmed_start(text@) == trimmed_start(text@.skip(start as int)),
        decreases text.len() - start,
    {
        proof {
            assert(text@.skip(start as int)[0] == text@[start as int]);
            assert(text@.skip(start as int).skip(1) =~= text@.skip(start + 1));
        }
        start = start + 1;
    }
    let ghost rest = text@.skip(start as int);
    proof {
        if start < text.len() {
            assert(rest[0] == text@[start as int]);
        }
        assert(trimmed_start(text@) == rest);
        assert(text@.subrange(start as int, text@.len() as int) =~= rest);
    }
    let mut end: usize = text.len();
    while end > start && space(text[end - 1])
        invariant
            start <= end <= text.len(),
            trimmed_end(rest) == trimmed_end(text@.subrange(start as int, end as int)),
        decreases end,
    {
        proof {
            let part = text@.subrange(start as int, end as int);
            assert(part.last() == text@[end - 1]);
            assert(part.drop_last() =~= text@.subrange(start as int, end - 1));
        }
        end = end - 1;
    }
    proof {
        let part = text@.subrange(start as int, end as int);
        if end > start {
            assert(part.last() == text@[end - 1]);
        }
        assert(trimmed_end(rest) == part);
    }
    let mut result: Vec<char> = Vec::new();
    let mut index: usize = start;
    while index < end
        invariant
            start <= index <= end <= text.len(),
            result@ == text@.subrange(start as int, index as int),
        decreases end - index,
    {
        result.push(text[index]);
        proof {
            assert(text@.subrange(start as int, index + 1) =~= text@.subrange(
                start as int,
                index as int,
            ).push(text@[index as int]));
        }
        index = index + 1;
    }
    result
}

/// Whether characters are those of a text.
pub fn is_text(chars: &[char], text: &str) -> (r: bool)
    ensures
        r == (chars@ == text@),
{
    same_chars(chars, &chars_of(text))
}

/// Where the word that goes on at `from` ends.
pub open spec fn word_end(text: Seq<char>, from: int) -> int
    decreases text.len() - from,
{
    if from >= text.len() || is_space(text[from]) {
        from
    } else {
        word_end(text, from + 1)
    }
}

/// A word ends behind its start and not behind the text.
pub proof fn lemma_word_end(text: Seq<char>, from: int)
    requires
        0 <= from <= text.len(),
    ensures
        from <= word_end(text, from) <= text.len(),
        from < text.len() && !is_space(text[from]) ==> from < word_end(text, from),
    decreases text.len() - from,
{
    if from < text.len() && !is_space(text[from]) {
        lemma_word_end(text, from + 1);
    }
}

/// The words of a text from `from` on: what stands between white space.
pub open spec fn words(text: Seq<char>, from: int) -> Seq<Seq<char>>
    decreases text.len() - from,
{
    if from < 0 || from >= text.len() {
        Seq::empty()
    } else if is_space(text[from]) {
        words(text, from + 1)
    } else {
        proof {
            lemma_word_end(text, from);
        }
        seq![text.subrange(from, word_end(text, from))] + words(text, word_end(text, from))
    }
}

/// The words as values.
pub open spec fn word_views(words: Seq<Vec<char>>) -> Seq<Seq<char>> {
    words.map_values(|word: Vec<char>| word@)
}

/// Splits a text at white space.
pub fn split_words(text: &[char]) -> (r: Vec<Vec<char>>)
    ensures
        word_views(r@) == words(text@, 0),
{
    let mut found: Vec<Vec<char>> = Vec::new();
    let mut index: usize = 0;
    proof {
        assert(word_views(found@) + words(text@, 0) =~= words(text@, 0));
    }
    while index < text.len()
        invariant
            index <= text.len(),
            word_views(found@) + words(text@, index as int) == words(text@, 0),
        decreases text.len() - index,
    {
        if space(text[index]) {
            index = index + 1;
        } else {
            let ghost start = index as int;
            let ghost before = found@;
            let mut word: Vec<char> = Vec::new();
            proof {
                lemma_word_end(text@, start);
            }
            while index < text.len() && !space(text[index])
                invariant
                    0 <= start <= index <= text.len(),
                    word@ == text@.subrange(start, index as int),
                    word_end(text@, start) == word_end(text@, index as int),
                decreases text.len() - index,
            {
                word.push(text[index]);
                proof {
                    assert(text@.subrange(start, index + 1) =~= text@.subrange(
                        start,
                        index as int,
                    ).push(text@[index as int]));
                }
                index = index + 1;
            }
            found.push(word);
            proof {
                assert(word_views(found@) =~= word_views(before).push(word@));
                assert(word_views(found@) + words(text@, index as int) =~= word_views(before) + (
                seq![word@] + words(text@, index as int)));
            }
        }
    }
    proof {
        assert(word_views(found@) + Seq::<Seq<char>>::empty() =~= word_views(found@));
    }
    found
}

/// A text is blank exactly when nothing is left of it once it is trimmed.
pub proof fn blank_text_trims_to_nothing(text: Seq<char>)
    ensures
        is_blank(text) <==> trimmed(text).len() == 0,
    decreases text.len(),
{
    if text.len() > 0 && is_space(text[0]) {
        let rest = text.skip(1);
        blank_text_trims_to_nothing(rest);
        assert(is_blank(text) ==> is_blank(rest)) by {
            if is_blank(text) {
                assert forall|i: int| 0 <= i < rest.len() implies is_space(#[trigger] rest[i]) by {
                    assert(is_space(text[i + 1]));
                }
            }
        }
        assert(is_blank(rest) ==> is_blank(text)) by {
            if is_blank(rest) {
                assert forall|i: int| 0 <= i < text.len() implies is_space(#[trigger] text[i]) by {
                    if i > 0 {
                        assert(is_space(rest[i - 1]));
                    }
                }
            }
        }
    } else if text.len() > 0 {
        lemma_trimmed_end_keeps(text);
    }
}

proof fn lemma_trimmed_end_keeps(text: Seq<char>)
    requires
        text.len() > 0,
        !is_space(text[0]),
    ensures
        trimmed_end(text).len() > 0,
    decreases text.len(),
{
    if is_space(text.last()) {
        assert(text.len() > 1);
        lemma_trimmed_end_keeps(text.drop_last());
    }
}

} // verus!
