//! Tables of text.

use vstd::prelude::*;
use vstd::string::StringSliceAdditionalSpecFns;

use crate::text::chars_of;

verus! {

/// The first characters of a text; dots say that there were more.
pub open spec fn cut(text: Seq<char>, limit: nat) -> Seq<char> {
    if text.len() > limit {
        text.take(limit as int) + "..."@
    } else {
        text
    }
}

/// The first characters of a text; dots say that there were more.
pub fn truncate(value: &str, max_chars: usize) -> (r: String)
    ensures
        r@ == cut(value@, max_chars as nat),
{
    let chars: Vec<char> = chars_of(value);
    if chars.len() <= max_chars {
        return value.to_owned();
    }
    let mut text: String = String::new();
    let mut index: usize = 0;
    while index < max_chars
        invariant
            index <= max_chars < chars.len(),
            text@ == chars@.take(index as int),
        decreases max_chars - index,
    {
        text.push(chars[index]);
        proof {
            assert(text@ =~= chars@.take(index + 1));
        }
        index = index + 1;
    }
    text.push_str("...");
    text
}

/// A truth value as text.
pub open spec fn yes_or_no(value: bool) -> Seq<char> {
    if value {
        "yes"@
    } else {
        "no"@
    }
}

/// A truth value as text.
pub fn yes_no(value: bool) -> (r: &'static str)
    ensures
        r@ == yes_or_no(value),
{
    if value {
        "yes"
    } else {
        "no"
    }
}

/// A character a number of times.
pub open spec fn repeated(c: char, count: nat) -> Seq<char> {
    Seq::new(count, |i: int| c)
}

fn push_repeated(text: &mut String, c: char, count: usize)
    ensures
        final(text)@ == old(text)@ + repeated(c, count as nat),
{
    let ghost before = text@;
    let mut done: usize = 0;
    proof {
        assert(text@ =~= before + repeated(c, 0));
    }
    while done < count
        invariant
            done <= count,
            text@ == before + repeated(c, done as nat),
        decreases count - done,
    {
        text.push(c);
        proof {
            assert(text@ =~= before + repeated(c, (done + 1) as nat));
        }
        done = done + 1;
    }
}

/// How many bytes a text takes.
pub open spec fn byte_size(text: Seq<char>) -> nat {
    vstd::utf8::encode_utf8(text).len()
}

/// A text with spaces behind it, up to a number of characters.
pub open spec fn padded(text: Seq<char>, width: nat) -> Seq<char> {
    if text.len() < width {
        text + repeated(' ', (width - text.len()) as nat)
    } else {
        text
    }
}

/// The texts of cells.
pub open spec fn cells(row: Seq<String>) -> Seq<Seq<char>> {
    row.map_values(|cell: String| cell@)
}

/// The texts of the cells of rows.
pub open spec fn grid(rows: Seq<Vec<String>>) -> Seq<Seq<Seq<char>>> {
    rows.map_values(|row: Vec<String>| cells(row@))
}

/// The width of a column: that of the widest of its cells, in bytes.
pub open spec fn column_width(header: Seq<char>, rows: Seq<Seq<Seq<char>>>, column: int) -> nat
    decreases rows.len(),
{
    if rows.len() == 0 {
        byte_size(header)
    } else {
        let before = column_width(header, rows.drop_last(), column);
        let row = rows.last();
        if column < row.len() && byte_size(row[column]) > before {
            byte_size(row[column])
        } else {
            before
        }
    }
}

/// The widths of the columns of a table.
pub open spec fn widths_of(headers: Seq<Seq<char>>, rows: Seq<Seq<Seq<char>>>) -> Seq<nat> {
    Seq::new(headers.len(), |column: int| column_width(headers[column], rows, column))
}

/// Widths as numbers.
pub open spec fn as_numbers(widths: Seq<usize>) -> Seq<nat> {
    widths.map_values(|width: usize| width as nat)
}

/// The widths of the columns of a table.
pub fn column_widths(headers: &[String], rows: &[Vec<String>]) -> (r: Vec<usize>)
    ensures
        as_numbers(r@) == widths_of(cells(headers@), grid(rows@)),
        r.len() == headers.len(),
{
    let ghost all = grid(rows@);
    let mut widths: Vec<usize> = Vec::new();
    let mut column: usize = 0;
    while column < headers.len()
        invariant
            column <= headers.len(),
            all == grid(rows@),
            widths.len() == column,
            forall|i: int|
                0 <= i < column ==> #[trigger] widths@[i] == column_width(headers@[i]@, all, i),
        decreases headers.len() - column,
    {
        let mut width: usize = headers[column].as_str().as_bytes().len();
        let mut index: usize = 0;
        while index < rows.len()
            invariant
                index <= rows.len(),
                column < headers.len(),
                all == grid(rows@),
                width == column_width(
                    headers@[column as int]@,
                    all.take(index as int),
                    column as int,
                ),
            decreases rows.len() - index,
        {
            proof {
                assert(all.take(index + 1).drop_last() =~= all.take(index as int));
                assert(all.take(index + 1).last() == cells(rows@[index as int]@));
            }
            if column < rows[index].len() {
                let size: usize = rows[index][column].as_str().as_bytes().len();
                if size > width {
                    width = size;
                }
            }
            index = index + 1;
        }
        proof {
            assert(all.take(index as int) =~= all);
        }
        widths.push(width);
        column = column + 1;
    }
    proof {
        assert(as_numbers(widths@) =~= widths_of(cells(headers@), all));
    }
    widths
}

/// The cells of a row, each padded to its width, with two spaces between them.
pub open spec fn row_cells(values: Seq<Seq<char>>, widths: Seq<nat>) -> Seq<char>
    decreases values.len(),
{
    if values.len() == 0 {
        Seq::empty()
    } else {
        let last = values.len() - 1;
        row_cells(values.drop_last(), widths) + (if last > 0 {
            "  "@
        } else {
            Seq::empty()
        }) + padded(values[last], widths[last])
    }
}

/// A row of a table, with a line end.
pub open spec fn row_text(values: Seq<Seq<char>>, widths: Seq<nat>) -> Seq<char> {
    row_cells(values, widths).push('\n')
}

/// A row of a table, with a line end.
pub fn format_row(values: &[String], widths: &[usize]) -> (r: String)
    requires
        values.len() <= widths.len(),
    ensures
        r@ == row_text(cells(values@), as_numbers(widths@)),
{
    let ghost texts = cells(values@);
    let mut text: String = String::new();
    let mut index: usize = 0;
    while index < values.len()
        invariant
            index <= values.len() <= widths.len(),
            texts == cells(values@),
            text@ == row_cells(texts.take(index as int), as_numbers(widths@)),
        decreases values.len() - index,
    {
        let ghost before = text@;
        proof {
            assert(texts.take(index + 1).drop_last() =~= texts.take(index as int));
            assert(texts.take(index + 1)[index as int] == values@[index as int]@);
        }
        if index > 0 {
            text.push_str("  ");
        }
        let length: usize = values[index].as_str().unicode_len();
        text.push_str(&values[index]);
        if length < widths[index] {
            push_repeated(&mut text, ' ', widths[index] - length);
        }
        proof {
            assert(text@ =~= row_cells(texts.take(index + 1), as_numbers(widths@)));
        }
        index = index + 1;
    }
    proof {
        assert(texts.take(index as int) =~= texts);
    }
    text.push('\n');
    text
}

/// The line below the headers: dashes as wide as each column, with two spaces between them.
pub open spec fn dashes(widths: Seq<nat>) -> Seq<char>
    decreases widths.len(),
{
    if widths.len() == 0 {
        Seq::empty()
    } else {
        dashes(widths.drop_last()) + (if widths.len() > 1 {
            "  "@
        } else {
            Seq::empty()
        }) + repeated('-', widths.last())
    }
}

/// The line below the headers, with a line end.
pub fn format_separator(widths: &[usize]) -> (r: String)
    ensures
        r@ == dashes(as_numbers(widths@)).push('\n'),
{
    let ghost numbers = as_numbers(widths@);
    let mut text: String = String::new();
    let mut index: usize = 0;
    while index < widths.len()
        invariant
            index <= widths.len(),
            numbers == as_numbers(widths@),
            text@ == dashes(numbers.take(index as int)),
        decreases widths.len() - index,
    {
        proof {
            assert(numbers.take(index + 1).drop_last() =~= numbers.take(index as int));
            assert(numbers.take(index + 1).last() == widths@[index as int]);
        }
        if index > 0 {
            text.push_str("  ");
        }
        push_repeated(&mut text, '-', widths[index]);
        proof {
            assert(text@ =~= dashes(numbers.take(index + 1)));
        }
        index = index + 1;
    }
    proof {
        assert(numbers.take(index as int) =~= numbers);
    }
    text.push('\n');
    text
}

/// The rows of a table.
pub open spec fn rows_text(rows: Seq<Seq<Seq<char>>>, widths: Seq<nat>) -> Seq<char>
    decreases rows.len(),
{
    if rows.len() == 0 {
        Seq::empty()
    } else {
        rows_text(rows.drop_last(), widths) + row_text(rows.last(), widths)
    }
}

/// A table: the headers, a line, and the rows.
pub open spec fn table_text(headers: Seq<Seq<char>>, rows: Seq<Seq<Seq<char>>>) -> Seq<char> {
    let widths = widths_of(headers, rows);
    row_text(headers, widths) + dashes(widths).push('\n') + rows_text(rows, widths)
}

/// A table of rows that have no more cells than there are headers.
pub fn format_table(headers: &[String], rows: &[Vec<String>]) -> (r: String)
    requires
        forall|i: int| 0 <= i < rows@.len() ==> (#[trigger] rows@[i])@.len() <= headers@.len(),
    ensures
        r@ == table_text(cells(headers@), grid(rows@)),
{
    let widths: Vec<usize> = column_widths(headers, rows);
    let ghost all = grid(rows@);
    let ghost numbers = widths_of(cells(headers@), all);
    let mut text: String = format_row(headers, &widths);
    text.push_str(&format_separator(&widths));
    let ghost top = text@;
    let mut index: usize = 0;
    proof {
        assert(text@ =~= top + rows_text(all.take(0), numbers));
    }
    while index < rows.len()
        invariant
            index <= rows.len(),
            widths.len() == headers.len(),
            all == grid(rows@),
            numbers == as_numbers(widths@),
            forall|i: int| 0 <= i < rows@.len() ==> (#[trigger] rows@[i])@.len() <= headers@.len(),
            text@ == top + rows_text(all.take(index as int), numbers),
        decreases rows.len() - index,
    {
        proof {
            assert(all.take(index + 1).drop_last() =~= all.take(index as int));
            assert(all.take(index + 1).last() == cells(rows@[index as int]@));
            assert(rows@[index as int]@.len() <= headers@.len());
        }
        text.push_str(&format_row(&rows[index], &widths));
        proof {
            assert(text@ =~= top + rows_text(all.take(index + 1), numbers));
        }
        index = index + 1;
    }
    proof {
        assert(all.take(index as int) =~= all);
    }
    text
}

/// A padded cell begins with its text, and takes its width if the text fits.
pub proof fn padded_cell_keeps_its_text(text: Seq<char>, width: nat)
    ensures
        padded(text, width).take(text.len() as int) == text,
        text.len() <= width ==> padded(text, width).len() == width,
        text.len() > width ==> padded(text, width) == text,
{
    assert(padded(text, width).take(text.len() as int) =~= text);
}

} // verus!
