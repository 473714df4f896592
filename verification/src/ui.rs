//! What the terminal interface shows and how it reacts to keys: the rows of
//! its tables, relative times, filtering and sorting, layout arithmetic, and
//! the screen state machine.  Drawing and reading the terminal happen outside
//! the library.
use vstd::prelude::*;

use crate::analysis::{commands_of, error_commands, get_overview_tables_from_entries, rows_view,
    top_table, typo_table, OverviewTables};
use crate::decimal::{all_digits, digits_value, i64_text_chars, i64_to_string, int_text, is_digit,
    parse_u64_digits};
use crate::ids::{detect_intrusions, entries_view, findings_view, intrusions, FindingView, IdsConfig,
    IntrusionFinding};
use state::RefreshData;
use crate::order::{is_stable_order, key_before, keys_view, lemma_lex_total, lemma_sorted_order_exists,
    lex_lt, sorted_order, stable_order};
use crate::storage::db::{status_text, status_to_text, CommandStatus, Entry, EntryView};
use crate::timefmt::unix_now;
use crate::text::{append_chars, chars_of, concat_str, contains_chars, contains_seq, join_seq, occurs_at,
    join_strings, lowercase_chars, lowercase_of, string_from_chars, strings_view, trim, trim_chars};

pub mod layout;
pub mod state;
pub mod testing;

pub use state::{OverviewView, TuiExit};

verus! {

// ---------------------------------------------------------------------------
// Relative times
// ---------------------------------------------------------------------------

/// `x` clamped to the range of `i64` (saturating arithmetic).
pub open spec fn clamp_i64(x: int) -> int {
    if x > i64::MAX {
        i64::MAX as int
    } else if x < i64::MIN {
        i64::MIN as int
    } else {
        x
    }
}

/// How long ago something happened that is `diff` seconds old: `just now`
/// under a minute (and for the future), else whole minutes, hours, days or
/// weeks.
pub open spec fn relative_time_text(diff: int) -> Seq<char> {
    if diff < 60 {
        "just now"@
    } else if diff < 3600 {
        int_text(diff / 60) + "m ago"@
    } else if diff < 86400 {
        int_text(diff / 3600) + "h ago"@
    } else if diff < 604800 {
        int_text(diff / 86400) + "d ago"@
    } else {
        int_text(diff / 604800) + "w ago"@
    }
}

/// How long before `now` the time `timestamp` is, as text (the difference
/// saturates at the bounds of `i64`).
pub open spec fn relative_time(timestamp: i64, now: i64) -> Seq<char> {
    relative_time_text(clamp_i64(now - timestamp))
}

/// How long before `now` the time `timestamp` is, as text.
pub fn format_relative_time_at(timestamp: i64, now: i64) -> (s: String)
    ensures
        s@ == relative_time(timestamp, now),
{
    let wide = (now as i128) - (timestamp as i128);
    let diff: i64 = if wide > i64::MAX as i128 {
        i64::MAX
    } else if wide < i64::MIN as i128 {
        i64::MIN
    } else {
        wide as i64
    };
    if diff < 60 {
        return "just now".to_string();
    }
    let (value, unit) = if diff < 3600 {
        (diff / 60, "m ago")
    } else if diff < 86400 {
        (diff / 3600, "h ago")
    } else if diff < 604800 {
        (diff / 86400, "d ago")
    } else {
        (diff / 604800, "w ago")
    };
    let mut v = i64_text_chars(value);
    append_chars(&mut v, &chars_of(unit));
    string_from_chars(&v)
}

/// How long ago `timestamp` is, as of the clock's current time, together
/// with the clock reading (a UNIX timestamp) that it was measured against.
pub fn format_relative_time(timestamp: i64) -> (r: (String, i64))
    ensures
        r.0@ == relative_time(timestamp, r.1),
{
    let now = unix_now();
    (format_relative_time_at(timestamp, now), now)
}

/// The text of a status, as the tables show it (the same text under which it
/// is stored).
pub fn status_label(status: &CommandStatus) -> (s: String)
    ensures
        s@ == status_text(*status),
{
    status_to_text(status)
}

// ---------------------------------------------------------------------------
// Counts in table cells
// ---------------------------------------------------------------------------

/// The leading run of ASCII digits of `s`.
pub open spec fn digit_run(s: Seq<char>) -> Seq<char>
    decreases s.len(),
{
    if s.len() > 0 && is_digit(s[0]) {
        seq![s[0]] + digit_run(s.drop_first())
    } else {
        seq![]
    }
}

/// The number at the start of a cell, after leading whitespace: `None` when
/// there is none or it does not fit in a `u64`.
pub open spec fn leading_count(s: Seq<char>) -> Option<u64> {
    let d = digit_run(trim(s));
    if d.len() == 0 || digits_value(d) > u64::MAX {
        None
    } else {
        Some(digits_value(d) as u64)
    }
}

/// The number at the start of the cell text `value`.
pub fn parse_leading_count(value: &str) -> (r: Option<u64>)
    ensures
        r == leading_count(value@),
{
    let t = trim_chars(&chars_of(value));
    let mut i: usize = 0;
    assert(t@.skip(0) =~= t@);
    assert(t@.take(0) =~= Seq::<char>::empty());
    while i < t.len() && (t[i] as u32) >= 48 && (t[i] as u32) <= 57
        invariant
            i <= t.len(),
            all_digits(t@.take(i as int)),
            digit_run(t@) == t@.take(i as int) + digit_run(t@.skip(i as int)),
        decreases t.len() - i,
    {
        assert(t@.skip(i as int).drop_first() =~= t@.skip(i + 1));
        assert(t@.take(i + 1) =~= t@.take(i as int) + seq![t@[i as int]]);
        assert(t@.skip(i as int)[0] == t@[i as int]);
        i += 1;
    }
    assert(digit_run(t@.skip(i as int)) =~= Seq::<char>::empty()) by {
        if i < t.len() {
            assert(t@.skip(i as int)[0] == t@[i as int]);
        }
    }
    let digits = crate::text::sub_chars(&t, 0, i);
    assert(digits@ =~= t@.take(i as int));
    assert(digit_run(t@) =~= digits@);
    if i == 0 {
        None
    } else {
        parse_u64_digits(&digits)
    }
}

// ---------------------------------------------------------------------------
// Overview tables: lengths, filtering, sorting
// ---------------------------------------------------------------------------

/// The rows of overview table `index` (0: most used, 1: most unsuccessful,
/// any other: most mistyped).
pub open spec fn table_at(t: OverviewTables, index: int) -> Seq<Seq<Seq<char>>> {
    if index == 0 {
        rows_view(t.top_commands@)
    } else if index == 1 {
        rows_view(t.top_unsuccessful@)
    } else {
        rows_view(t.mistyped_commands@)
    }
}

/// The number of rows of chart `index`, 0 when there is no overview.
pub fn chart_len(tables: Option<&OverviewTables>, chart_index: usize) -> (n: usize)
    ensures
        n == match tables {
            Some(t) => table_at(*t, chart_index as int).len(),
            None => 0,
        },
{
    match tables {
        None => 0,
        Some(t) => {
            if chart_index == 0 {
                t.top_commands.len()
            } else if chart_index == 1 {
                t.top_unsuccessful.len()
            } else {
                t.mistyped_commands.len()
            }
        },
    }
}

/// The filter as it is applied: trimmed and in lower case.
pub open spec fn filter_key(filter: Seq<char>) -> Seq<char> {
    lowercase_of(trim(filter))
}

/// A row passes the applied filter `f`: `f` is empty, or the row's command,
/// in lower case, contains it.
pub open spec fn row_visible(row: Seq<Seq<char>>, f: Seq<char>) -> bool {
    f.len() == 0 || (row.len() > 0 && contains_seq(lowercase_of(row[0]), f))
}

/// The rows that pass the applied filter `f`, in order.
pub open spec fn visible_rows(rows: Seq<Seq<Seq<char>>>, f: Seq<char>) -> Seq<Seq<Seq<char>>>
    decreases rows.len(),
{
    if rows.len() == 0 {
        seq![]
    } else {
        let prev = visible_rows(rows.drop_last(), f);
        if row_visible(rows.last(), f) {
            prev.push(rows.last())
        } else {
            prev
        }
    }
}

/// Every row passes the empty filter.
proof fn lemma_visible_rows_all(rows: Seq<Seq<Seq<char>>>, f: Seq<char>)
    requires
        f.len() == 0,
    ensures
        visible_rows(rows, f) == rows,
    decreases rows.len(),
{
    if rows.len() > 0 {
        lemma_visible_rows_all(rows.drop_last(), f);
        assert(rows.drop_last().push(rows.last()) =~= rows);
    }
}

/// Whether `row` passes the applied filter `f`.
fn row_passes(row: &Vec<String>, f: &Vec<char>) -> (b: bool)
    ensures
        b == row_visible(strings_view(row@), f@),
{
    if f.len() == 0 {
        return true;
    }
    if row.len() == 0 {
        return false;
    }
    let cmd = lowercase_chars(&chars_of(row[0].as_str()));
    contains_chars(&cmd, f)
}

/// The applied form of `filter`.
fn applied_filter(filter: &str) -> (f: Vec<char>)
    ensures
        f@ == filter_key(filter@),
        trim(filter@).len() == 0 ==> f@.len() == 0,
{
    let t = trim_chars(&chars_of(filter));
    lowercase_chars(&t)
}

/// The number of rows of table `index` that pass `filter`, 0 when there is no
/// overview.  With a blank filter every row passes, so the count is the
/// number of rows of the table, as [`chart_len`] gives it.
pub fn table_len_filtered(tables: Option<&OverviewTables>, table_index: usize, filter: &str) -> (n: usize)
    ensures
        n == match tables {
            Some(t) => visible_rows(table_at(*t, table_index as int), filter_key(filter@)).len(),
            None => 0,
        },
        trim(filter@).len() == 0 ==> n == match tables {
            Some(t) => table_at(*t, table_index as int).len(),
            None => 0,
        },
{
    let t = match tables {
        None => return 0,
        Some(t) => t,
    };
    let data = if table_index == 0 {
        &t.top_commands
    } else if table_index == 1 {
        &t.top_unsuccessful
    } else {
        &t.mistyped_commands
    };
    let ghost rows = rows_view(data@);
    assert(rows == table_at(*t, table_index as int));
    let f = applied_filter(filter);
    let mut n: usize = 0;
    let mut i: usize = 0;
    while i < data.len()
        invariant
            rows == rows_view(data@),
            i <= data.len(),
            n == visible_rows(rows.take(i as int), f@).len(),
            n <= i,
        decreases data.len() - i,
    {
        assert(rows.take(i + 1).drop_last() =~= rows.take(i as int));
        assert(rows.take(i + 1).last() == strings_view(data@[i as int]@));
        if row_passes(&data[i], &f) {
            n += 1;
        }
        i += 1;
    }
    assert(rows.take(data.len() as int) =~= rows);
    if f.len() == 0 {
        proof {
            lemma_visible_rows_all(rows, f@);
        }
    }
    n
}

/// The code points of `s`, as a sort key (lexicographic order of code points
/// is the order of `String`).
pub open spec fn text_key(s: Seq<char>) -> Seq<i128> {
    s.map_values(|c: char| (c as u32) as i128)
}

/// The sort key of a row: its command in lower case (the empty text when the
/// row has no cell).
pub open spec fn row_key(row: Seq<Seq<char>>) -> Seq<i128> {
    text_key(lowercase_of(if row.len() > 0 { row[0] } else { ""@ }))
}

/// The sort keys of rows.
pub open spec fn row_keys(rows: Seq<Seq<Seq<char>>>) -> Seq<Seq<i128>> {
    rows.map_values(|r: Seq<Seq<char>>| row_key(r))
}

/// `s` rearranged by the positions `p`.
pub open spec fn reorder<T>(s: Seq<T>, p: Seq<usize>) -> Seq<T> {
    p.map_values(|i: usize| s[i as int])
}

/// The code points of `v`.
fn text_key_of(v: &Vec<char>) -> (k: Vec<i128>)
    ensures
        k@ == text_key(v@),
{
    let mut k: Vec<i128> = Vec::new();
    let mut i: usize = 0;
    while i < v.len()
        invariant
            i <= v.len(),
            k@ == text_key(v@.take(i as int)),
        decreases v.len() - i,
    {
        k.push((v[i] as u32) as i128);
        i += 1;
        assert(k@ =~= text_key(v@.take(i as int)));
    }
    assert(v@.take(v.len() as int) =~= v@);
    k
}

/// A copy of a row.
fn copy_row(row: &Vec<String>) -> (out: Vec<String>)
    ensures
        strings_view(out@) == strings_view(row@),
{
    let mut out: Vec<String> = Vec::new();
    let mut i: usize = 0;
    while i < row.len()
        invariant
            i <= row.len(),
            strings_view(out@) == strings_view(row@.take(i as int)),
        decreases row.len() - i,
    {
        let c = row[i].clone();
        let ghost before = out@;
        out.push(c);
        assert(strings_view(out@) =~= strings_view(before).push(c@));
        assert(strings_view(row@.take(i + 1)) =~= strings_view(row@.take(i as int)).push(
            row@[i as int]@,
        ));
        i += 1;
    }
    assert(row@.take(row.len() as int) =~= row@);
    out
}

/// Every row that the filter keeps passes it.
pub proof fn lemma_visible_rows_pass(rows: Seq<Seq<Seq<char>>>, f: Seq<char>)
    ensures
        forall|k: int| 0 <= k < visible_rows(rows, f).len() ==> row_visible(#[trigger] visible_rows(rows, f)[k], f),
    decreases rows.len(),
{
    if rows.len() > 0 {
        lemma_visible_rows_pass(rows.drop_last(), f);
        let prev = visible_rows(rows.drop_last(), f);
        let cur = visible_rows(rows, f);
        assert forall|k: int| 0 <= k < cur.len() implies row_visible(#[trigger] cur[k], f) by {
            if k < prev.len() {
                assert(cur[k] == prev[k]);
            }
        }
    }
}

/// `a` comes no later than `b` in the order of a table sorted ascending
/// (when `asc`) or descending by command in lower case.
pub open spec fn row_in_order(a: Seq<Seq<char>>, b: Seq<Seq<char>>, asc: bool) -> bool {
    if asc {
        !lex_lt(row_key(b), row_key(a))
    } else {
        !lex_lt(row_key(a), row_key(b))
    }
}

/// Rows put in a stable order by command (descending when `desc`) are
/// sorted: no row's command comes after the next one's.
pub proof fn lemma_rows_in_order(rows: Seq<Seq<Seq<char>>>, desc: bool, q: Seq<usize>)
    requires
        is_stable_order(row_keys(rows), desc, q),
    ensures
        forall|a: int, b: int|
            0 <= a < b < q.len() ==> row_in_order(#[trigger] reorder(rows, q)[a], #[trigger] reorder(rows, q)[b], !desc),
{
    let keys = row_keys(rows);
    assert forall|a: int, b: int| 0 <= a < b < q.len() implies row_in_order(
        #[trigger] reorder(rows, q)[a],
        #[trigger] reorder(rows, q)[b],
        !desc,
    ) by {
        let i = q[a] as int;
        let j = q[b] as int;
        assert(key_before(keys, desc, i, j));
        assert(keys[i] == row_key(rows[i]));
        assert(keys[j] == row_key(rows[j]));
        lemma_lex_total(keys[i], keys[j]);
    }
}

/// The rows of `rows` that pass the applied filter `f`, sorted stably by
/// command in lower case, ascending when `asc` and descending otherwise.
pub open spec fn sorted_rows(rows: Seq<Seq<Seq<char>>>, f: Seq<char>, asc: bool) -> Seq<Seq<Seq<char>>> {
    reorder(visible_rows(rows, f), sorted_order(row_keys(visible_rows(rows, f)), !asc))
}

/// No more rows pass a filter than there are.
proof fn lemma_visible_rows_len(rows: Seq<Seq<Seq<char>>>, f: Seq<char>)
    ensures
        visible_rows(rows, f).len() <= rows.len(),
    decreases rows.len(),
{
    if rows.len() > 0 {
        lemma_visible_rows_len(rows.drop_last(), f);
    }
}

/// The rows that the selection keys move through are the rows listed:
/// filtering and sorting a table keeps exactly the rows that pass the
/// filter, so [`table_len_filtered`] counts the rows that
/// [`filter_sort_rows`] lists.
pub proof fn lemma_sorted_rows_len(rows: Seq<Seq<Seq<char>>>, f: Seq<char>, asc: bool)
    requires
        rows.len() <= usize::MAX,
    ensures
        sorted_rows(rows, f, asc).len() == visible_rows(rows, f).len(),
{
    lemma_visible_rows_len(rows, f);
    lemma_sorted_order_exists(row_keys(visible_rows(rows, f)), !asc);
}

/// The rows that pass a filter are the rows of the table that pass it.
proof fn lemma_visible_rows_contains(rows: Seq<Seq<Seq<char>>>, f: Seq<char>, x: Seq<Seq<char>>)
    ensures
        visible_rows(rows, f).contains(x) <==> rows.contains(x) && row_visible(x, f),
    decreases rows.len(),
{
    if rows.len() > 0 {
        let init = rows.drop_last();
        lemma_visible_rows_contains(init, f, x);
        let prev = visible_rows(init, f);
        if rows.contains(x) {
            let i = choose|i: int| 0 <= i < rows.len() && rows[i] == x;
            if i < init.len() {
                assert(init[i] == x);
            }
        }
        if init.contains(x) {
            let i = choose|i: int| 0 <= i < init.len() && init[i] == x;
            assert(rows[i] == x);
        }
        if row_visible(rows.last(), f) {
            let v = prev.push(rows.last());
            if v.contains(x) {
                let i = choose|i: int| 0 <= i < v.len() && v[i] == x;
                if i < prev.len() {
                    assert(prev[i] == x);
                }
            }
            if prev.contains(x) {
                let i = choose|i: int| 0 <= i < prev.len() && prev[i] == x;
                assert(v[i] == x);
            }
            assert(v[prev.len() as int] == rows.last());
        }
    }
}

/// Filtering and sorting a table keeps exactly the rows that pass the
/// applied filter `f`: with an empty filter every row, otherwise each row
/// whose command (its first cell), in lower case, holds `f` somewhere in
/// it, as a run of consecutive characters at any position.
pub proof fn lemma_filter_keeps_rows_containing(rows: Seq<Seq<Seq<char>>>, f: Seq<char>, asc: bool, x: Seq<Seq<char>>)
    requires
        rows.len() <= usize::MAX,
    ensures
        sorted_rows(rows, f, asc).contains(x) <==> rows.contains(x) && (f.len() == 0 || (x.len() > 0
            && exists|i: int|
            0 <= i && i + f.len() <= lowercase_of(x[0]).len() && #[trigger] lowercase_of(x[0]).subrange(
                i,
                i + f.len(),
            ) == f)),
{
    let vis = visible_rows(rows, f);
    lemma_visible_rows_len(rows, f);
    lemma_visible_rows_contains(rows, f, x);
    let keys = row_keys(vis);
    lemma_sorted_order_exists(keys, !asc);
    let q = sorted_order(keys, !asc);
    let out = sorted_rows(rows, f, asc);
    assert(out == reorder(vis, q));
    if out.contains(x) {
        let a = choose|a: int| 0 <= a < out.len() && out[a] == x;
        assert(vis[q[a] as int] == x);
    }
    if vis.contains(x) {
        let m = choose|m: int| 0 <= m < vis.len() && vis[m] == x;
        assert(q.contains(m as usize));
        let a = choose|a: int| 0 <= a < q.len() && q[a] == m as usize;
        assert(out[a] == x);
    }
    if x.len() > 0 && f.len() > 0 {
        let lc = lowercase_of(x[0]);
        if contains_seq(lc, f) {
            let i = choose|i: int| occurs_at(lc, f, i);
            assert(lc.subrange(i, i + f.len()) == f);
        }
        if exists|i: int| 0 <= i && i + f.len() <= lc.len() && #[trigger] lc.subrange(i, i + f.len()) == f {
            let i = choose|i: int| 0 <= i && i + f.len() <= lc.len() && #[trigger] lc.subrange(i, i + f.len()) == f;
            assert(occurs_at(lc, f, i));
        }
    }
}

/// The rows of `data` that pass `filter`, sorted by command in lower case,
/// ascending when `asc` and descending otherwise, stably.
pub fn filter_sort_rows(data: &[Vec<String>], filter: &str, asc: bool) -> (out: Vec<Vec<String>>)
    ensures
        rows_view(out@) == sorted_rows(rows_view(data@), filter_key(filter@), asc),
        out@.len() == visible_rows(rows_view(data@), filter_key(filter@)).len(),
        forall|k: int| 0 <= k < out@.len() ==> row_visible(#[trigger] rows_view(out@)[k], filter_key(filter@)),
        forall|a: int, b: int|
            0 <= a < b < out@.len() ==> row_in_order(#[trigger] rows_view(out@)[a], #[trigger] rows_view(out@)[b], asc),
{
    let ghost rows = rows_view(data@);
    let f = applied_filter(filter);
    let mut vis: Vec<Vec<String>> = Vec::new();
    let mut keys: Vec<Vec<i128>> = Vec::new();
    let mut i: usize = 0;
    while i < data.len()
        invariant
            rows == rows_view(data@),
            f@ == filter_key(filter@),
            i <= data@.len(),
            rows_view(vis@) == visible_rows(rows.take(i as int), f@),
            keys_view(keys@) == row_keys(rows_view(vis@)),
        decreases data@.len() - i,
    {
        assert(rows.take(i + 1).drop_last() =~= rows.take(i as int));
        assert(rows.take(i + 1).last() == strings_view(data@[i as int]@));
        if row_passes(&data[i], &f) {
            let row = copy_row(&data[i]);
            let first = if data[i].len() > 0 {
                chars_of(data[i][0].as_str())
            } else {
                chars_of("")
            };
            let key = text_key_of(&lowercase_chars(&first));
            let ghost before_v = vis@;
            let ghost before_k = keys@;
            vis.push(row);
            keys.push(key);
            assert(rows_view(vis@) =~= rows_view(before_v).push(strings_view(row@)));
            assert(keys_view(keys@) =~= keys_view(before_k).push(key@));
            assert(row_keys(rows_view(vis@)) =~= row_keys(rows_view(before_v)).push(
                row_key(strings_view(row@)),
            ));
        }
        i += 1;
    }
    assert(rows.take(data@.len() as int) =~= rows);
    let ghost visv = rows_view(vis@);
    let q = stable_order(&keys, !asc);
    let mut out: Vec<Vec<String>> = Vec::new();
    let mut m: usize = 0;
    while m < q.len()
        invariant
            visv == rows_view(vis@),
            q@.len() == vis@.len(),
            forall|a: int| 0 <= a < q@.len() ==> #[trigger] q@[a] < vis@.len(),
            m <= q.len(),
            rows_view(out@) == reorder(visv, q@).take(m as int),
        decreases q.len() - m,
    {
        let row = copy_row(&vis[q[m]]);
        let ghost before = out@;
        out.push(row);
        assert(rows_view(out@) =~= rows_view(before).push(strings_view(row@)));
        assert(reorder(visv, q@).take(m + 1) =~= reorder(visv, q@).take(m as int).push(
            reorder(visv, q@)[m as int],
        ));
        m += 1;
    }
    assert(reorder(visv, q@).take(q.len() as int) =~= reorder(visv, q@));
    proof {
        lemma_rows_in_order(visv, !asc, q@);
        lemma_visible_rows_pass(rows, f@);
        assert forall|k: int| 0 <= k < out@.len() implies row_visible(#[trigger] rows_view(out@)[k], f@) by {
            assert(rows_view(out@)[k] == visv[q@[k] as int]);
        }
    }
    out
}

// ---------------------------------------------------------------------------
// Rows of the recent-commands and intrusion tables
// ---------------------------------------------------------------------------

/// The row that shows a recent command: command, status, and how long
/// before `now` it ran.
pub open spec fn recent_row(e: EntryView, now: i64) -> Seq<Seq<char>> {
    seq![e.command, status_text(e.status), relative_time(e.timestamp, now)]
}

/// The rows of the recent-commands table, one per entry, in order.
pub open spec fn recent_rows(es: Seq<EntryView>, now: i64) -> Seq<Seq<Seq<char>>> {
    es.map_values(|e: EntryView| recent_row(e, now))
}

/// The rows of the recent-commands table for `entries`, as of `now`.
pub fn build_recent_rows(entries: &[Entry], now: i64) -> (rows: Vec<Vec<String>>)
    ensures
        rows_view(rows@) == recent_rows(entries_view(entries@), now),
{
    let ghost ev = entries_view(entries@);
    let mut rows: Vec<Vec<String>> = Vec::new();
    let mut i: usize = 0;
    while i < entries.len()
        invariant
            ev == entries_view(entries@),
            i <= entries@.len(),
            rows_view(rows@) == recent_rows(ev.take(i as int), now),
        decreases entries@.len() - i,
    {
        let e = &entries[i];
        let mut row: Vec<String> = Vec::new();
        row.push(e.command.clone());
        row.push(status_label(&e.status));
        row.push(format_relative_time_at(e.timestamp, now));
        assert(strings_view(row@) =~= recent_row(ev[i as int], now));
        let ghost before = rows@;
        rows.push(row);
        assert(rows_view(rows@) =~= rows_view(before).push(strings_view(row@)));
        assert(recent_rows(ev.take(i + 1), now) =~= recent_rows(ev.take(i as int), now).push(
            recent_row(ev[i as int], now),
        ));
        i += 1;
    }
    assert(ev.take(entries@.len() as int) =~= ev);
    rows
}

/// The most findings the intrusion table shows.
pub const INTRUSION_ROWS_SHOWN: usize = 10;

/// The row that shows a finding: command, score, `user (type)`, the reasons
/// joined by commas, and how long before `now` it happened.
pub open spec fn intrusion_row(f: FindingView, now: i64) -> Seq<Seq<char>> {
    seq![
        f.command,
        int_text(f.score),
        f.user + " ("@ + f.user_type + ")"@,
        join_seq(f.reasons, ", "@),
        relative_time(f.timestamp, now),
    ]
}

/// The rows of the intrusion table: one per finding, for the first ten.
pub open spec fn intrusion_rows(fs: Seq<FindingView>, now: i64) -> Seq<Seq<Seq<char>>> {
    let shown = if fs.len() <= INTRUSION_ROWS_SHOWN { fs } else { fs.take(INTRUSION_ROWS_SHOWN as int) };
    shown.map_values(|f: FindingView| intrusion_row(f, now))
}

/// The rows of the intrusion table for `findings`, as of `now`.
pub fn build_intrusion_rows(findings: &[IntrusionFinding], now: i64) -> (rows: Vec<Vec<String>>)
    ensures
        rows_view(rows@) == intrusion_rows(findings_view(findings@), now),
        rows@.len() <= INTRUSION_ROWS_SHOWN,
        rows@.len() == findings@.len() || rows@.len() == INTRUSION_ROWS_SHOWN,
{
    let ghost fv = findings_view(findings@);
    let n = if findings.len() <= INTRUSION_ROWS_SHOWN {
        findings.len()
    } else {
        INTRUSION_ROWS_SHOWN
    };
    let ghost shown = if fv.len() <= INTRUSION_ROWS_SHOWN { fv } else { fv.take(INTRUSION_ROWS_SHOWN as int) };
    assert(shown =~= fv.take(n as int));
    let mut rows: Vec<Vec<String>> = Vec::new();
    let mut i: usize = 0;
    while i < n
        invariant
            fv == findings_view(findings@),
            n <= findings@.len(),
            i <= n,
            rows_view(rows@) == fv.take(i as int).map_values(|f: FindingView| intrusion_row(f, now)),
        decreases n - i,
    {
        let f = &findings[i];
        let mut who = concat_str(f.user.as_str(), " (");
        who = concat_str(who.as_str(), f.user_type.as_str());
        who = concat_str(who.as_str(), ")");
        let mut row: Vec<String> = Vec::new();
        row.push(f.command.clone());
        row.push(i64_to_string(f.score as i64));
        row.push(who);
        row.push(join_strings(&f.reasons, ", "));
        row.push(format_relative_time_at(f.timestamp, now));
        assert(strings_view(row@) =~= intrusion_row(fv[i as int], now));
        let ghost before = rows@;
        rows.push(row);
        assert(rows_view(rows@) =~= rows_view(before).push(strings_view(row@)));
        assert(fv.take(i + 1).map_values(|f: FindingView| intrusion_row(f, now)) =~= fv.take(
            i as int,
        ).map_values(|f: FindingView| intrusion_row(f, now)).push(intrusion_row(fv[i as int], now)));
        i += 1;
    }
    rows
}

// ---------------------------------------------------------------------------
// Animation and themes
// ---------------------------------------------------------------------------

/// The number of colour themes that the interface cycles through.
pub const THEME_COUNT: usize = 15;

/// The frames of the watcher's spinner, in order: the braille dots turning
/// round.
pub open spec fn spinner_frames_are(frames: Seq<&str>) -> bool {
    &&& frames.len() == 10
    &&& frames[0]@ == "⠋"@
    &&& frames[1]@ == "⠙"@
    &&& frames[2]@ == "⠹"@
    &&& frames[3]@ == "⠸"@
    &&& frames[4]@ == "⠼"@
    &&& frames[5]@ == "⠴"@
    &&& frames[6]@ == "⠦"@
    &&& frames[7]@ == "⠧"@
    &&& frames[8]@ == "⠇"@
    &&& frames[9]@ == "⠏"@
}

/// The frames of the watcher's spinner, in order.
pub fn spinner_frames() -> (frames: [&'static str; 10])
    ensures
        spinner_frames_are(frames@),
{
    ["⠋", "⠙", "⠹", "⠸", "⠼", "⠴", "⠦", "⠧", "⠇", "⠏"]
}

// ---------------------------------------------------------------------------
// Reloading the overview
// ---------------------------------------------------------------------------

/// The number of latest entries that the recent-commands table shows.
pub const RECENT_SHOWN: usize = 10;

/// The number of latest entries that intrusion detection scans.
pub const RECENT_SCANNED: usize = 200;

/// What a reload of the overview reads: every entry (for the overview
/// tables), the [`RECENT_SHOWN`] and the [`RECENT_SCANNED`] latest entries,
/// the intrusion-detection settings and the user on whose behalf it scans.
pub struct RefreshSource {
    pub entries: Vec<Entry>,
    pub recent: Vec<Entry>,
    pub recent_for_ids: Vec<Entry>,
    pub ids_config: IdsConfig,
    pub current_user: String,
}

/// The overview's data computed from what a reload read, as of `now`: the
/// three overview tables, the rows of the recent commands, and the rows of
/// the findings of a scan of the entries read for it.
pub fn refresh_data(src: &RefreshSource, now: i64) -> (d: RefreshData)
    requires
        src.entries@.len() <= i64::MAX,
    ensures
        rows_view(d.tables.top_commands@) == top_table(commands_of(entries_view(src.entries@))),
        rows_view(d.tables.top_unsuccessful@) == top_table(error_commands(entries_view(src.entries@))),
        rows_view(d.tables.mistyped_commands@) == typo_table(commands_of(entries_view(src.entries@))),
        rows_view(d.recent_rows@) == recent_rows(entries_view(src.recent@), now),
        rows_view(d.intrusion_rows@) == intrusion_rows(
            intrusions(entries_view(src.recent_for_ids@), src.ids_config@, src.current_user@),
            now,
        ),
{
    let tables = get_overview_tables_from_entries(src.entries.as_slice());
    let recent_rows = build_recent_rows(src.recent.as_slice(), now);
    let findings = detect_intrusions(src.recent_for_ids.as_slice(), &src.ids_config, src.current_user.as_str());
    let intrusion_rows = build_intrusion_rows(findings.as_slice(), now);
    RefreshData { tables, recent_rows, intrusion_rows }
}

} // verus!
