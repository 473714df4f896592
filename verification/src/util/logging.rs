//! The kinds of console messages and their headings, and the layout of the
//! tables printed to the console.  Colouring and the emoji are the
//! terminal's business and are added outside the library.
use vstd::prelude::*;

use crate::analysis::rows_view;
use crate::text::{append_chars, chars_of, string_from_chars, strings_view};
use crate::util::helpers::byte_len;

verus! {

/// The kind of a console message.
#[allow(non_camel_case_types, clippy::upper_case_acronyms)]
#[derive(Debug, Clone, Copy, PartialEq, Eq, Structural)]
pub enum Status {
    SUCCESS,
    ERROR,
    WARNING,
    INFO,
}

/// The heading of a message of kind `status`.
pub open spec fn heading_text(status: Status) -> Seq<char> {
    match status {
        Status::SUCCESS => "Success!"@,
        Status::ERROR => "Error!"@,
        Status::WARNING => "Warning!"@,
        Status::INFO => "Info!"@,
    }
}

/// The heading of a message of kind `status`.
pub fn status_heading(status: Status) -> (h: &'static str)
    ensures
        h@ == heading_text(status),
{
    match status {
        Status::SUCCESS => "Success!",
        Status::ERROR => "Error!",
        Status::WARNING => "Warning!",
        Status::INFO => "Info!",
    }
}

/// `n` copies of `c`.
pub open spec fn repeat_char(c: char, n: nat) -> Seq<char> {
    Seq::new(n, |i: int| c)
}

/// `s` padded with spaces on the right to `width` characters, unchanged
/// when it is already that wide (the format `{:<width$}`).
pub open spec fn pad_right(s: Seq<char>, width: nat) -> Seq<char> {
    if s.len() >= width {
        s
    } else {
        s + repeat_char(' ', (width - s.len()) as nat)
    }
}

/// The largest length in bytes of the first cells of `rows` (0 for none).
pub open spec fn widest_first(rows: Seq<Seq<Seq<char>>>) -> nat
    decreases rows.len(),
{
    if rows.len() == 0 {
        0
    } else {
        let w = widest_first(rows.drop_last());
        let b = byte_len(rows.last()[0]);
        if b > w {
            b
        } else {
            w
        }
    }
}

/// A line of a console table: the command padded to `width`, a bar between
/// eleven spaces on each side, and the count padded to ten characters.
pub open spec fn console_row(cmd: Seq<char>, count: Seq<char>, width: nat) -> Seq<char> {
    pad_right(cmd, width) + "           |           "@ + pad_right(count, 10)
}

/// The lines printed below a table's title: a rule of three underscores per
/// byte of the title, the header, the rule again, then one line per row
/// (its first two cells), the first column as wide as its widest command in
/// bytes.
pub open spec fn console_table(title: Seq<char>, rows: Seq<Seq<Seq<char>>>) -> Seq<Seq<char>> {
    let rule = repeat_char('_', 3 * byte_len(title));
    let w = widest_first(rows);
    seq![rule, console_row("Command"@, "Occurrence"@, w), rule] + rows.map_values(
        |r: Seq<Seq<char>>| console_row(r[0], r[1], w),
    )
}

/// `n` copies of `c`, as characters.
fn repeat_chars(c: char, n: usize) -> (out: Vec<char>)
    ensures
        out@ == repeat_char(c, n as nat),
{
    let mut out: Vec<char> = Vec::new();
    let mut i: usize = 0;
    while i < n
        invariant
            i <= n,
            out@ == repeat_char(c, i as nat),
        decreases n - i,
    {
        out.push(c);
        i += 1;
        assert(out@ =~= repeat_char(c, i as nat));
    }
    out
}

/// `s` padded with spaces on the right to `width` characters.
fn pad_right_str(s: &str, width: usize) -> (out: String)
    ensures
        out@ == pad_right(s@, width as nat),
{
    let mut v = chars_of(s);
    if v.len() < width {
        let pad = repeat_chars(' ', width - v.len());
        append_chars(&mut v, &pad);
    }
    string_from_chars(&v)
}

/// A line of a console table.
fn console_row_line(cmd: &str, count: &str, width: usize) -> (line: String)
    ensures
        line@ == console_row(cmd@, count@, width as nat),
{
    let mut v = chars_of(pad_right_str(cmd, width).as_str());
    append_chars(&mut v, &chars_of("           |           "));
    append_chars(&mut v, &chars_of(pad_right_str(count, 10).as_str()));
    string_from_chars(&v)
}

/// The lines printed below the title `title` of a table of commands and
/// counts (see [`console_table`]).
pub fn console_table_lines(title: &str, data: &[Vec<String>]) -> (lines: Vec<String>)
    requires
        forall|k: int| 0 <= k < data@.len() ==> #[trigger] data@[k]@.len() >= 2,
        3 * byte_len(title@) <= usize::MAX,
    ensures
        strings_view(lines@) == console_table(title@, rows_view(data@)),
{
    let ghost rows = rows_view(data@);
    let mut width: usize = 0;
    let mut i: usize = 0;
    while i < data.len()
        invariant
            rows == rows_view(data@),
            i <= data@.len(),
            forall|k: int| 0 <= k < data@.len() ==> #[trigger] data@[k]@.len() >= 2,
            width == widest_first(rows.take(i as int)),
        decreases data.len() - i,
    {
        assert(rows.take(i + 1).drop_last() =~= rows.take(i as int));
        assert(rows.take(i + 1).last() == strings_view(data@[i as int]@));
        let b = data[i][0].as_str().len();
        if b > width {
            width = b;
        }
        i += 1;
    }
    assert(rows.take(data.len() as int) =~= rows);
    let rule = string_from_chars(&repeat_chars('_', 3 * title.len()));
    let mut lines: Vec<String> = Vec::new();
    lines.push(string_from_chars(&repeat_chars('_', 3 * title.len())));
    lines.push(console_row_line("Command", "Occurrence", width));
    lines.push(rule);
    let ghost head = strings_view(lines@);
    let mut j: usize = 0;
    while j < data.len()
        invariant
            rows == rows_view(data@),
            j <= data@.len(),
            forall|k: int| 0 <= k < data@.len() ==> #[trigger] data@[k]@.len() >= 2,
            width == widest_first(rows),
            lines@.len() == 3 + j,
            strings_view(lines@) == head + rows.take(j as int).map_values(
                |r: Seq<Seq<char>>| console_row(r[0], r[1], width as nat),
            ),
        decreases data.len() - j,
    {
        let row = &data[j];
        assert(row@.len() >= 2);
        let line = console_row_line(row[0].as_str(), row[1].as_str(), width);
        let ghost before = lines@;
        lines.push(line);
        assert(strings_view(lines@) =~= strings_view(before).push(line@));
        assert(rows[j as int] == strings_view(row@));
        assert(rows.take(j + 1).map_values(|r: Seq<Seq<char>>| console_row(r[0], r[1], width as nat))
            =~= rows.take(j as int).map_values(|r: Seq<Seq<char>>| console_row(r[0], r[1], width as nat)).push(
            console_row(rows[j as int][0], rows[j as int][1], width as nat),
        ));
        j += 1;
    }
    assert(rows.take(data.len() as int) =~= rows);
    assert(strings_view(lines@) =~= console_table(title@, rows));
    lines
}

} // verus!
