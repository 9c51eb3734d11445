//! What reading texts, numbers and colours comes to.

use vstd::prelude::*;

use crate::border::BorderColor;
use crate::numeral::{digit, digits_value, parsed};
use crate::runtime_config::{byte_length, parsed_color, BorderColorError};
use crate::text::{is_space, lemma_word_end, trimmed, trimmed_end, trimmed_start, word_end, words};

verus! {

proof fn lemma_trimmed_start(text: Seq<char>) -> (n: int)
    ensures
        0 <= n <= text.len(),
        trimmed_start(text) == text.skip(n),
        forall|i: int| 0 <= i < n ==> is_space(#[trigger] text[i]),
        n < text.len() ==> !is_space(text[n]),
    decreases text.len(),
{
    if text.len() > 0 && is_space(text[0]) {
        let rest = text.skip(1);
        let n = lemma_trimmed_start(rest);
        assert(rest.skip(n) =~= text.skip(n + 1));
        assert forall|i: int| 0 <= i < n + 1 implies is_space(#[trigger] text[i]) by {
            if i > 0 {
                assert(rest[i - 1] == text[i]);
            }
        }
        n + 1
    } else {
        assert(text.skip(0) =~= text);
        0
    }
}

proof fn lemma_trimmed_end(text: Seq<char>) -> (n: int)
    ensures
        0 <= n <= text.len(),
        trimmed_end(text) == text.take(n),
        forall|i: int| n <= i < text.len() ==> is_space(#[trigger] text[i]),
        n > 0 ==> !is_space(text[n - 1]),
    decreases text.len(),
{
    if text.len() > 0 && is_space(text.last()) {
        let rest = text.drop_last();
        let n = lemma_trimmed_end(rest);
        assert(rest.take(n) =~= text.take(n));
        assert forall|i: int| n <= i < text.len() implies is_space(#[trigger] text[i]) by {
            if i < rest.len() {
                assert(rest[i] == text[i]);
            }
        }
        n
    } else {
        assert(text.take(text.len() as int) =~= text);
        text.len() as int
    }
}

/// Trimming takes white space away at both ends, all of it and nothing else.
pub proof fn trimming_takes_white_space_from_the_ends(text: Seq<char>) -> (r: (Seq<char>, Seq<char>))
    ensures
        text == r.0 + trimmed(text) + r.1,
        forall|i: int| 0 <= i < r.0.len() ==> is_space(#[trigger] r.0[i]),
        forall|i: int| 0 <= i < r.1.len() ==> is_space(#[trigger] r.1[i]),
        trimmed(text).len() > 0 ==> !is_space(trimmed(text)[0]) && !is_space(
            trimmed(text)[trimmed(text).len() - 1],
        ),
{
    let n = lemma_trimmed_start(text);
    let middle = text.skip(n);
    let m = lemma_trimmed_end(middle);
    let before = text.take(n);
    let after = middle.skip(m);
    assert(text =~= before + middle.take(m) + after);
    (before, after)
}

/// A text that has no white space at its ends is not trimmed.
pub proof fn text_without_white_space_at_the_ends_stays(text: Seq<char>)
    requires
        text.len() > 0 ==> !is_space(text[0]) && !is_space(text[text.len() - 1]),
    ensures
        trimmed(text) == text,
{
}

/// A text without white space is one word, and a text of nothing has none.
pub proof fn text_without_white_space_is_one_word(text: Seq<char>)
    requires
        forall|i: int| 0 <= i < text.len() ==> !is_space(#[trigger] text[i]),
    ensures
        text.len() > 0 ==> words(text, 0) == seq![text],
        text.len() == 0 ==> words(text, 0).len() == 0,
{
    if text.len() > 0 {
        lemma_word_runs(text, 0, text.len() as int);
        assert(text.subrange(0, text.len() as int) =~= text);
        assert(words(text, text.len() as int) =~= Seq::empty());
        assert(words(text, 0) =~= seq![text]);
    }
}

proof fn lemma_word_runs(text: Seq<char>, from: int, to: int)
    requires
        0 <= from <= to <= text.len(),
        forall|i: int| from <= i < to ==> !is_space(#[trigger] text[i]),
        to == text.len() || is_space(text[to]),
    ensures
        word_end(text, from) == to,
    decreases to - from,
{
    if from < to {
        lemma_word_runs(text, from + 1, to);
    }
}

/// White space between two texts parts their words: those of the one come first and those of the other
/// follow.
pub proof fn white_space_parts_words(first: Seq<char>, space: char, second: Seq<char>)
    requires
        is_space(space),
    ensures
        words(first + seq![space] + second, 0) == words(first, 0) + words(second, 0),
{
    let text = first + seq![space] + second;
    lemma_words_before(first, space, second, 0);
    lemma_words_behind(first + seq![space], second, 0);
    assert(words(text, first.len() as int) == words(text, first.len() as int + 1)) by {
        assert(text[first.len() as int] == space);
    }
}

proof fn lemma_words_before(first: Seq<char>, space: char, second: Seq<char>, from: int)
    requires
        is_space(space),
        0 <= from <= first.len(),
    ensures
        words(first + seq![space] + second, from) == words(first, from) + words(
            first + seq![space] + second,
            first.len() as int,
        ),
    decreases first.len() - from,
{
    let text = first + seq![space] + second;
    assert(forall|i: int| 0 <= i < first.len() ==> text[i] == #[trigger] first[i]);
    assert(text[first.len() as int] == space);
    if from < first.len() {
        if is_space(first[from]) {
            lemma_words_before(first, space, second, from + 1);
        } else {
            lemma_word_end(first, from);
            let end = word_end(first, from);
            lemma_word_is_run(first, from);
            assert forall|i: int| from <= i < end implies !is_space(#[trigger] text[i]) by {
                assert(text[i] == first[i]);
            }
            assert(end < first.len() ==> text[end] == first[end]);
            lemma_word_runs(text, from, end);
            assert(text.subrange(from, end) =~= first.subrange(from, end));
            lemma_words_before(first, space, second, end);
            assert(words(text, from) =~= words(first, from) + words(text, first.len() as int));
        }
    } else {
        assert(words(first, from) =~= Seq::empty());
        assert(words(text, from) =~= words(first, from) + words(text, first.len() as int));
    }
}

proof fn lemma_word_is_run(text: Seq<char>, from: int)
    requires
        0 <= from <= text.len(),
    ensures
        from <= word_end(text, from) <= text.len(),
        forall|i: int| from <= i < word_end(text, from) ==> !is_space(#[trigger] text[i]),
        word_end(text, from) == text.len() || is_space(text[word_end(text, from)]),
    decreases text.len() - from,
{
    if from < text.len() && !is_space(text[from]) {
        lemma_word_is_run(text, from + 1);
    }
}

proof fn lemma_words_behind(first: Seq<char>, second: Seq<char>, from: int)
    requires
        0 <= from <= second.len(),
    ensures
        words(first + second, first.len() as int + from) == words(second, from),
    decreases second.len() - from,
{
    let text = first + second;
    let n = first.len() as int;
    if from < second.len() {
        assert(text[n + from] == second[from]);
        if is_space(second[from]) {
            lemma_words_behind(first, second, from + 1);
        } else {
            lemma_word_end(second, from);
            lemma_word_is_run(second, from);
            let end = word_end(second, from);
            assert forall|i: int| n + from <= i < n + end implies !is_space(#[trigger] text[i]) by {
                assert(text[i] == second[i - n]);
            }
            assert(end < second.len() ==> text[n + end] == second[end]);
            lemma_word_runs(text, n + from, n + end);
            assert(text.subrange(n + from, n + end) =~= second.subrange(from, end));
            lemma_words_behind(first, second, end);
        }
    }
}

/// A number is read from digits alone: one that ends in a digit is the number before it times the radix
/// and that digit, so that leading zeros do not count; a sign in front is passed over, and a text that
/// holds anything else, or too great a number, is none.
pub proof fn numbers_are_read_digit_by_digit(text: Seq<char>, value: nat, radix: nat, limit: nat)
    requires
        2 <= radix <= 16,
        value < radix,
        text.len() > 0,
        text[0] != '+',
    ensures
        parsed(Seq::empty(), radix, limit) is None,
        parsed(seq![digit(value as int)], radix, limit) == (if value <= limit {
            Some(value)
        } else {
            None
        }),
        parsed(text, radix, limit) matches Some(number) ==> (if number * radix + value <= limit {
            parsed(text.push(digit(value as int)), radix, limit) == Some(number * radix + value)
        } else {
            parsed(text.push(digit(value as int)), radix, limit) is None
        }),
        parsed(seq!['+'] + text, radix, limit) == parsed(text, radix, limit),
        parsed(text.push('-'), radix, limit) is None,
        parsed(text.push(' '), radix, limit) is None,
{
    let one = seq![digit(value as int)];
    assert(one.drop_last() =~= Seq::empty());
    assert(digits_value(Seq::<char>::empty(), radix) == Some(0nat));
    assert(0 * radix == 0) by (nonlinear_arith);
    lemma_digit_read(value);
    assert(text.push(digit(value as int)).drop_last() =~= text);
    assert(text.push('-').drop_last() =~= text);
    assert(text.push(' ').drop_last() =~= text);
    assert((seq!['+'] + text).skip(1) =~= text);
    assert((seq!['+'] + text)[0] == '+');
}

proof fn lemma_digit_read(value: nat)
    requires
        value < 16,
    ensures
        crate::numeral::digit_value(digit(value as int)) == Some(value),
        digit(value as int) != '+',
{
    let c = digit(value as int);
    if value < 10 {
        assert(c as int == 48 + value);
    } else {
        assert(c as int == 55 + value);
    }
}

/// A colour is written as `#` and two hexadecimal digits each for red, green and blue, and is read back.
pub proof fn written_colours_are_read_back(color: BorderColor)
    ensures
        parsed_color(
            seq![
                '#',
                digit(color.red as int / 16),
                digit(color.red as int % 16),
                digit(color.green as int / 16),
                digit(color.green as int % 16),
                digit(color.blue as int / 16),
                digit(color.blue as int % 16),
            ],
        ) == Ok::<BorderColor, BorderColorError>(color),
{
    let text = seq![
        '#',
        digit(color.red as int / 16),
        digit(color.red as int % 16),
        digit(color.green as int / 16),
        digit(color.green as int % 16),
        digit(color.blue as int / 16),
        digit(color.blue as int % 16),
    ];
    lemma_pair(color.red);
    lemma_pair(color.green);
    lemma_pair(color.blue);
    assert(text.subrange(1, 3) =~= seq![digit(color.red as int / 16), digit(color.red as int % 16)]);
    assert(text.subrange(3, 5) =~= seq![
        digit(color.green as int / 16),
        digit(color.green as int % 16),
    ]);
    assert(text.subrange(5, 7) =~= seq![
        digit(color.blue as int / 16),
        digit(color.blue as int % 16),
    ]);
    let rest = text.skip(1);
    assert forall|i: int| 0 <= i < rest.len() implies (#[trigger] rest[i]) as u32 <= 0x7f by {
        assert(rest[i] == text[i + 1]);
        lemma_digit_read((color.red / 16) as nat);
        lemma_digit_is_ascii(color.red as int / 16);
        lemma_digit_is_ascii(color.red as int % 16);
        lemma_digit_is_ascii(color.green as int / 16);
        lemma_digit_is_ascii(color.green as int % 16);
        lemma_digit_is_ascii(color.blue as int / 16);
        lemma_digit_is_ascii(color.blue as int % 16);
    }
    lemma_ascii_length(rest);
}

proof fn lemma_digit_is_ascii(value: int)
    requires
        0 <= value < 16,
    ensures
        digit(value) as u32 <= 0x7f,
{
    if value < 10 {
        assert(digit(value) as int == 48 + value);
    } else {
        assert(digit(value) as int == 55 + value);
    }
}

proof fn lemma_ascii_length(chars: Seq<char>)
    requires
        forall|i: int| 0 <= i < chars.len() ==> (#[trigger] chars[i]) as u32 <= 0x7f,
    ensures
        byte_length(chars) == chars.len(),
    decreases chars.len(),
{
    if chars.len() > 0 {
        let rest = chars.drop_last();
        assert(forall|i: int| 0 <= i < rest.len() ==> #[trigger] rest[i] == chars[i]);
        lemma_ascii_length(rest);
    }
}

proof fn lemma_pair(value: u8)
    ensures
        parsed(seq![digit(value as int / 16), digit(value as int % 16)], 16, 255) == Some(value as nat),
{
    let high = (value / 16) as nat;
    let low = (value % 16) as nat;
    let one = seq![digit(high as int)];
    let pair = seq![digit(high as int), digit(low as int)];
    lemma_digit_read(high);
    lemma_digit_read(low);
    assert(pair.drop_last() =~= one);
    assert(one.drop_last() =~= Seq::empty());
    assert(digits_value(Seq::<char>::empty(), 16) == Some(0nat));
    assert(digits_value(one, 16) == Some(high));
}

/// A text that does not start with `#`, or is not as long as a colour is, is none, and neither is one with
/// something else than hexadecimal digits in it.
pub proof fn other_texts_are_no_colours(text: Seq<char>, at: int)
    ensures
        text.len() == 0 || text[0] != '#' || byte_length(text.skip(1)) != 6 ==> parsed_color(text)
            == Err::<BorderColor, BorderColorError>(BorderColorError::Syntax),
        text.len() > 0 && text[0] == '#' && byte_length(text.skip(1)) == 6 && (at == 2 || at == 4 || at
            == 6) && text.len() == 7 && crate::numeral::digit_value(text[at]) is None ==> parsed_color(
            text,
        ) == Err::<BorderColor, BorderColorError>(BorderColorError::Digits),
{
    if text.len() == 7 {
        assert(text.subrange(1, 3).len() == 2 && text.subrange(3, 5).len() == 2);
        assert(text.subrange(5, 7).len() == 2);
        assert(text.subrange(1, 3).last() == text[2]);
        assert(text.subrange(3, 5).last() == text[4]);
        assert(text.subrange(5, 7).last() == text[6]);
        assert(text.subrange(1, 3).skip(1).last() == text[2]);
        assert(text.subrange(3, 5).skip(1).last() == text[4]);
        assert(text.subrange(5, 7).skip(1).last() == text[6]);
    }
}

} // verus!
