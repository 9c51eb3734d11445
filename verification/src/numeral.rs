//! Numbers as text, written and read.

use vstd::prelude::*;

use crate::geometry::{MonitorId, Rect, WindowHandle};
use crate::layout::LayoutKind;
use crate::text::{same_text, text_of};
use crate::workspace::WorkspaceId;

verus! {

/// The digit of a value, with capital letters from ten on.
pub open spec fn digit(value: int) -> char {
    if value < 10 {
        (48 + value) as char
    } else {
        (55 + value) as char
    }
}

/// The numeral of a number.
pub open spec fn numeral(number: nat, radix: nat) -> Seq<char>
    decreases number,
{
    if radix < 2 {
        Seq::empty()
    } else if number < radix {
        seq![digit(number as int)]
    } else {
        proof {
            assert(number / radix < number) by (nonlinear_arith)
                requires
                    radix >= 2,
                    number >= radix,
            ;
        }
        numeral(number / radix, radix).push(digit((number % radix) as int))
    }
}

/// The decimal numeral of an integer, with a sign if it is negative.
pub open spec fn signed_numeral(number: int) -> Seq<char> {
    if number < 0 {
        seq!['-'] + numeral((-number) as nat, 10)
    } else {
        numeral(number as nat, 10)
    }
}

fn digit_char(value: u64) -> (r: char)
    requires
        value < 16,
    ensures
        r == digit(value as int),
{
    if value < 10 {
        (48u8 + value as u8) as char
    } else {
        (55u8 + value as u8) as char
    }
}

/// The characters of a numeral.
fn numeral_chars(number: u64, radix: u64) -> (r: Vec<char>)
    requires
        2 <= radix <= 16,
    ensures
        r@ == numeral(number as nat, radix as nat),
    decreases number,
{
    if number < radix {
        let mut chars: Vec<char> = Vec::new();
        chars.push(digit_char(number));
        proof {
            assert(chars@ =~= numeral(number as nat, radix as nat));
        }
        chars
    } else {
        proof {
            assert(number / radix < number) by (nonlinear_arith)
                requires
                    radix >= 2,
                    number >= radix,
            ;
            assert(number % radix < radix) by (nonlinear_arith)
                requires
                    radix >= 2,
            ;
        }
        let mut chars: Vec<char> = numeral_chars(number / radix, radix);
        chars.push(digit_char(number % radix));
        chars
    }
}

/// Writes a number in decimal.
pub fn decimal(number: u64) -> (r: String)
    ensures
        r@ == numeral(number as nat, 10),
{
    text_of(&numeral_chars(number, 10))
}

/// Writes a number in hexadecimal with capital letters.
pub fn hexadecimal(number: u64) -> (r: String)
    ensures
        r@ == numeral(number as nat, 16),
{
    text_of(&numeral_chars(number, 16))
}

/// Writes an integer in decimal.
pub fn signed_decimal(number: i64) -> (r: String)
    ensures
        r@ == signed_numeral(number as int),
{
    if number < 0 {
        let mut text: String = String::new();
        text.push('-');
        let size: u64 = if number == i64::MIN {
            0x8000_0000_0000_0000
        } else {
            (-number) as u64
        };
        text.push_str(&decimal(size));
        proof {
            assert(text@ =~= signed_numeral(number as int));
        }
        text
    } else {
        decimal(number as u64)
    }
}

/// The value of a digit, of whatever radix up to sixteen.
pub open spec fn digit_value(c: char) -> Option<nat> {
    if '0' <= c <= '9' {
        Some((c as int - 48) as nat)
    } else if 'a' <= c <= 'f' {
        Some((c as int - 87) as nat)
    } else if 'A' <= c <= 'F' {
        Some((c as int - 55) as nat)
    } else {
        None
    }
}

/// The number that digits stand for.
pub open spec fn digits_value(digits: Seq<char>, radix: nat) -> Option<nat>
    decreases digits.len(),
{
    if digits.len() == 0 {
        Some(0)
    } else {
        match (digits_value(digits.drop_last(), radix), digit_value(digits.last())) {
            (Some(before), Some(value)) => if value < radix {
                Some(before * radix + value)
            } else {
                None
            },
            _ => None,
        }
    }
}

/// The number that a text stands for: digits, at least one, behind a plus sign or none, that make
/// no more than `limit`.
pub open spec fn parsed(text: Seq<char>, radix: nat, limit: nat) -> Option<nat> {
    let digits = if text.len() > 1 && text[0] == '+' {
        text.skip(1)
    } else {
        text
    };
    match digits_value(digits, radix) {
        Some(number) => if digits.len() > 0 && number <= limit {
            Some(number)
        } else {
            None
        },
        None => None,
    }
}

fn value_of_digit(c: char) -> (r: Option<u64>)
    ensures
        match r {
            Some(value) => digit_value(c) == Some(value as nat) && value < 16,
            None => digit_value(c) is None,
        },
{
    let code: u32 = c as u32;
    if '0' <= c && c <= '9' {
        Some((code - 48) as u64)
    } else if 'a' <= c && c <= 'f' {
        Some((code - 87) as u64)
    } else if 'A' <= c && c <= 'F' {
        Some((code - 55) as u64)
    } else {
        None
    }
}

proof fn lemma_digits_grow(digits: Seq<char>, radix: nat, at: int)
    requires
        radix >= 1,
        0 <= at <= digits.len(),
    ensures
        match digits_value(digits, radix) {
            Some(number) => digits_value(digits.take(at), radix) is Some && digits_value(
                digits.take(at),
                radix,
            )->0 <= number,
            None => true,
        },
    decreases digits.len() - at,
{
    if at == digits.len() {
        assert(digits.take(at) =~= digits);
    } else {
        lemma_digits_grow(digits, radix, at + 1);
        assert(digits.take(at + 1).drop_last() =~= digits.take(at));
        assert(digits.take(at + 1).last() == digits[at]);
        if let Some(before) = digits_value(digits.take(at), radix) {
            assert(before * radix >= before) by (nonlinear_arith)
                requires
                    radix >= 1,
            ;
        }
    }
}

/// Reads a number.
pub fn parse_number(text: &[char], radix: u64, limit: u64) -> (r: Option<u64>)
    requires
        2 <= radix <= 16,
    ensures
        match r {
            Some(number) => parsed(text@, radix as nat, limit as nat) == Some(number as nat),
            None => parsed(text@, radix as nat, limit as nat) is None,
        },
{
    let start: usize = if text.len() > 1 && text[0] == '+' {
        1
    } else {
        0
    };
    let ghost digits = text@.skip(start as int);
    proof {
        assert(start == 0 ==> digits =~= text@);
    }
    if text.len() == start {
        return None;
    }
    let mut number: u64 = 0;
    let mut index: usize = start;
    proof {
        assert(digits.take(0) =~= Seq::empty());
    }
    while index < text.len()
        invariant
            start <= index <= text.len(),
            start <= 1,
            start == 1 <==> text@.len() > 1 && text@[0] == '+',
            digits == text@.skip(start as int),
            digits.len() > 0,
            2 <= radix <= 16,
            number <= limit,
            digits_value(digits.take(index - start), radix as nat) == Some(number as nat),
        decreases text.len() - index,
    {
        proof {
            assert(digits.take(index - start + 1).drop_last() =~= digits.take(index - start));
            assert(digits.take(index - start + 1).last() == text@[index as int]);
            lemma_digits_grow(digits, radix as nat, index - start + 1);
            assert(start == 0 ==> digits =~= text@);
        }
        match value_of_digit(text[index]) {
            None => {
                return None;
            },
            Some(value) => {
                if value >= radix {
                    return None;
                }
                proof {
                    assert(number * radix <= 0xffff_ffff_ffff_ffff * 16) by (nonlinear_arith)
                        requires
                            number <= 0xffff_ffff_ffff_ffff,
                            radix <= 16,
                    ;
                }
                let wide: u128 = number as u128 * radix as u128 + value as u128;
                if wide > limit as u128 {
                    return None;
                }
                number = wide as u64;
            },
        }
        index = index + 1;
    }
    proof {
        assert(digits.take(index - start) =~= digits);
        assert(start == 0 ==> digits =~= text@);
    }
    Some(number)
}

/// The text of a handle or an identifier.
pub open spec fn handle_text(value: u64) -> Seq<char> {
    seq!['0', 'x'] + numeral(value as nat, 16)
}

/// Writes a handle or an identifier.
pub fn format_handle(value: u64) -> (r: String)
    ensures
        r@ == handle_text(value),
{
    let mut text: String = String::new();
    text.push('0');
    text.push('x');
    text.push_str(&hexadecimal(value));
    proof {
        assert(text@ =~= handle_text(value));
    }
    text
}

impl WindowHandle {
    /// The handle as text.
    pub fn to_text(self) -> (r: String)
        ensures
            r@ == handle_text(self.0),
    {
        format_handle(self.0)
    }
}

impl MonitorId {
    /// The identifier as text.
    pub fn to_text(self) -> (r: String)
        ensures
            r@ == handle_text(self.0),
    {
        format_handle(self.0)
    }
}

impl WorkspaceId {
    /// The number as text.
    pub fn to_text(self) -> (r: String)
        ensures
            r@ == numeral(self.0 as nat, 10),
    {
        decimal(self.0 as u64)
    }
}

impl Rect {
    /// The text of a rectangle: its position and size.
    pub open spec fn spec_text(self) -> Seq<char> {
        signed_numeral(self.left as int) + seq![','] + signed_numeral(self.top as int) + seq![' ']
            + signed_numeral(self.spec_width()) + seq!['x'] + signed_numeral(self.spec_height())
    }

    /// The rectangle as text: its position and size.
    pub fn to_text(self) -> (r: String)
        ensures
            r@ == self.spec_text(),
    {
        let mut text: String = signed_decimal(self.left as i64);
        text.push(',');
        text.push_str(&signed_decimal(self.top as i64));
        text.push(' ');
        text.push_str(&signed_decimal(self.width() as i64));
        text.push('x');
        text.push_str(&signed_decimal(self.height() as i64));
        proof {
            assert(text@ =~= self.spec_text());
        }
        text
    }
}

impl LayoutKind {
    /// The layout that settings call so.
    pub fn from_name(name: &str) -> (r: Option<LayoutKind>)
        ensures
            match r {
                Some(kind) => kind.spec_name() == name@,
                None => forall|kind: LayoutKind| #[trigger] kind.spec_name() != name@,
            },
    {
        if same_text(name, "master-stack") {
            Some(LayoutKind::MasterStack)
        } else if same_text(name, "dwindle") {
            Some(LayoutKind::Dwindle)
        } else if same_text(name, "vertical-stack") {
            Some(LayoutKind::VerticalStack)
        } else if same_text(name, "horizontal-stack") {
            Some(LayoutKind::HorizontalStack)
        } else {
            None
        }
    }
}

/// Every layout is found again by its name, and no two share one.
pub proof fn layout_names_are_distinct(a: LayoutKind, b: LayoutKind)
    ensures
        a.spec_name() == b.spec_name() ==> a == b,
{
    reveal_strlit("master-stack");
    reveal_strlit("dwindle");
    reveal_strlit("vertical-stack");
    reveal_strlit("horizontal-stack");
    assert("master-stack"@.len() == 12 && "dwindle"@.len() == 7 && "vertical-stack"@.len() == 14
        && "horizontal-stack"@.len() == 16);
}

/// A number that was written in decimal or hexadecimal is read back.
pub proof fn written_numbers_are_read_back(number: nat, radix: nat, limit: nat)
    requires
        2 <= radix <= 16,
        number <= limit,
    ensures
        parsed(numeral(number, radix), radix, limit) == Some(number),
{
    lemma_numeral_value(number, radix);
    let text = numeral(number, radix);
    assert(text[0] != '+') by {
        lemma_numeral_starts_with_digit(number, radix);
    }
}

proof fn lemma_digit_value(value: nat)
    requires
        value < 16,
    ensures
        digit_value(digit(value as int)) == Some(value),
        digit(value as int) != '+',
{
}

proof fn lemma_numeral_value(number: nat, radix: nat)
    requires
        2 <= radix <= 16,
    ensures
        numeral(number, radix).len() > 0,
        digits_value(numeral(number, radix), radix) == Some(number),
    decreases number,
{
    if number < radix {
        lemma_digit_value(number);
        let one = seq![digit(number as int)];
        assert(one.drop_last() =~= Seq::empty());
        assert(digits_value(Seq::empty(), radix) == Some(0nat));
        assert(one.last() == digit(number as int));
        assert(0 * radix + number == number) by (nonlinear_arith);
    } else {
        let head = number / radix;
        let rest = number % radix;
        assert(head < number && rest < radix && head * radix + rest == number) by (nonlinear_arith)
            requires
                radix >= 2,
                number >= radix,
                head == number / radix,
                rest == number % radix,
        ;
        lemma_numeral_value(head, radix);
        lemma_digit_value(rest);
        assert(numeral(number, radix).drop_last() =~= numeral(head, radix));
    }
}

proof fn lemma_numeral_starts_with_digit(number: nat, radix: nat)
    requires
        2 <= radix <= 16,
    ensures
        numeral(number, radix).len() > 0,
        numeral(number, radix)[0] != '+',
    decreases number,
{
    if number < radix {
        lemma_digit_value(number);
    } else {
        assert(number / radix < number) by (nonlinear_arith)
            requires
                radix >= 2,
                number >= radix,
        ;
        lemma_numeral_starts_with_digit(number / radix, radix);
        assert(numeral(number, radix)[0] == numeral(number / radix, radix)[0]);
    }
}

} // verus!
