//! The overview of the history: the most used commands, the commands that
//! most often failed, and the commands that were most often mistyped.
use vstd::prelude::*;

pub mod testing;

use crate::decimal::{i64_text_chars, int_text};
use crate::order::{is_stable_order, key_before, keys_view, lemma_sorted_order_is, lex_lt, sorted_order,
    stable_order};
use crate::storage::db::{CommandStatus, Entry, EntryView};
use crate::text::{append_chars, chars_eq, chars_of, join_seq, string_from_chars, strings_view};
use crate::util::helpers::{byte_len, max_distance, max_distance_spec};

verus! {

/// The three overview tables; each row is a command and its count text.
pub struct OverviewTables {
    pub top_commands: Vec<Vec<String>>,
    pub top_unsuccessful: Vec<Vec<String>>,
    pub mistyped_commands: Vec<Vec<String>>,
}

/// The rows of a table as plain values.
pub open spec fn rows_view(v: Seq<Vec<String>>) -> Seq<Seq<Seq<char>>> {
    v.map_values(|r: Vec<String>| strings_view(r@))
}

// ---------------------------------------------------------------------------
// Counting
// ---------------------------------------------------------------------------

/// How many of `cs` equal `c`.
pub open spec fn count_in(cs: Seq<Seq<char>>, c: Seq<char>) -> nat
    decreases cs.len(),
{
    if cs.len() == 0 {
        0
    } else {
        count_in(cs.drop_last(), c) + if cs.last() == c {
            1nat
        } else {
            0nat
        }
    }
}

/// A count never exceeds the number of values counted.
pub proof fn lemma_count_le_len(cs: Seq<Seq<char>>, c: Seq<char>)
    ensures
        count_in(cs, c) <= cs.len(),
    decreases cs.len(),
{
    if cs.len() > 0 {
        lemma_count_le_len(cs.drop_last(), c);
    }
}

/// The distinct values of `cs`, in the order of their first occurrence.
pub open spec fn distinct_cmds(cs: Seq<Seq<char>>) -> Seq<Seq<char>>
    decreases cs.len(),
{
    if cs.len() == 0 {
        seq![]
    } else {
        let d = distinct_cmds(cs.drop_last());
        if d.contains(cs.last()) {
            d
        } else {
            d.push(cs.last())
        }
    }
}

/// The commands of the entries.
pub open spec fn commands_of(es: Seq<EntryView>) -> Seq<Seq<char>> {
    es.map_values(|e: EntryView| e.command)
}

/// The commands of the entries whose status is an error, in order.
pub open spec fn error_commands(es: Seq<EntryView>) -> Seq<Seq<char>>
    decreases es.len(),
{
    if es.len() == 0 {
        seq![]
    } else {
        let prev = error_commands(es.drop_last());
        match es.last().status {
            CommandStatus::Error(_) => prev.push(es.last().command),
            _ => prev,
        }
    }
}

/// Each distinct command of `cs` with its number of occurrences, in the order
/// of first occurrence.
pub open spec fn occurrences(cs: Seq<Seq<char>>) -> Seq<(Seq<char>, nat)> {
    distinct_cmds(cs).map_values(|c: Seq<char>| (c, count_in(cs, c)))
}

/// Counts as sort keys.
pub open spec fn count_keys(rows: Seq<(Seq<char>, nat)>) -> Seq<Seq<i128>> {
    rows.map_values(|r: (Seq<char>, nat)| seq![r.1 as i128])
}

/// A table of commands and counts, as text.
pub open spec fn count_table(rows: Seq<(Seq<char>, nat)>) -> Seq<Seq<Seq<char>>> {
    rows.map_values(|r: (Seq<char>, nat)| seq![r.0, int_text(r.1 as int)])
}

/// The first `n` items of `s`, or all of them when there are fewer.
pub open spec fn first_n<T>(s: Seq<T>, n: int) -> Seq<T> {
    if s.len() <= n {
        s
    } else {
        s.take(n)
    }
}

/// `s` rearranged by the positions `p`.
pub open spec fn reorder<T>(s: Seq<T>, p: Seq<usize>) -> Seq<T> {
    p.map_values(|i: usize| s[i as int])
}

/// The top-five table of `cs` under the order `q`: `q` orders the distinct
/// commands by count, highest first, stably; the table holds the first five.
pub open spec fn top_table_with(cs: Seq<Seq<char>>, q: Seq<usize>) -> Seq<Seq<Seq<char>>> {
    count_table(first_n(reorder(occurrences(cs), q), 5))
}

/// The distinct values of `cs` with their counts, most frequent first and,
/// among equal counts, in order of first occurrence.
pub open spec fn ranked(cs: Seq<Seq<char>>) -> Seq<(Seq<char>, nat)> {
    reorder(occurrences(cs), sorted_order(count_keys(occurrences(cs)), true))
}

/// Rows put in a stable order by count, highest first, come with counts
/// that never increase, and rows with equal counts keep their order.
pub proof fn lemma_counts_ordered(rows: Seq<(Seq<char>, nat)>, q: Seq<usize>)
    requires
        is_stable_order(count_keys(rows), true, q),
        forall|k: int| 0 <= k < rows.len() ==> (#[trigger] rows[k]).1 <= i128::MAX,
    ensures
        forall|a: int, b: int|
            0 <= a < b < q.len() ==> (#[trigger] reorder(rows, q)[a]).1 >= (#[trigger] reorder(rows, q)[b]).1,
        forall|a: int, b: int|
            0 <= a < b < q.len() && reorder(rows, q)[a].1 == reorder(rows, q)[b].1 ==> #[trigger] q[a]
                < #[trigger] q[b],
{
    let keys = count_keys(rows);
    assert forall|a: int, b: int| 0 <= a < b < q.len() implies (#[trigger] reorder(rows, q)[a]).1 >= (
    #[trigger] reorder(rows, q)[b]).1 && (reorder(rows, q)[a].1 == reorder(rows, q)[b].1 ==> q[a] < q[b]) by {
        let i = q[a] as int;
        let j = q[b] as int;
        assert(key_before(keys, true, i, j));
        assert(keys[i] == seq![rows[i].1 as i128]);
        assert(keys[j] == seq![rows[j].1 as i128]);
        if keys[i] != keys[j] {
            reveal_with_fuel(lex_lt, 2);
            assert(keys[j].drop_first() =~= Seq::<i128>::empty());
            assert(keys[i].drop_first() =~= Seq::<i128>::empty());
        }
    }
}

/// The number of entries whose command is `command`.
pub fn calculate_command_occurance(command: &String, entries: &[Entry]) -> (count: i32)
    requires
        entries@.len() <= i32::MAX,
    ensures
        count == count_in(commands_of(crate::ids::entries_view(entries@)), command@),
{
    let ghost cs = commands_of(crate::ids::entries_view(entries@));
    let target = chars_of(command.as_str());
    let mut count: i32 = 0;
    let mut i: usize = 0;
    while i < entries.len()
        invariant
            cs == commands_of(crate::ids::entries_view(entries@)),
            entries@.len() <= i32::MAX,
            target@ == command@,
            i <= entries@.len(),
            count == count_in(cs.take(i as int), command@),
            count <= i,
        decreases entries@.len() - i,
    {
        assert(cs.take(i + 1).drop_last() =~= cs.take(i as int));
        assert(cs.take(i + 1).last() == entries@[i as int].command@);
        if chars_eq(&chars_of(entries[i].command.as_str()), &target) {
            count += 1;
        }
        i += 1;
    }
    assert(cs.take(entries@.len() as int) =~= cs);
    count
}

/// The commands of `entries`, in order.
pub fn entry_commands(entries: &[Entry]) -> (out: Vec<String>)
    ensures
        strings_view(out@) == commands_of(crate::ids::entries_view(entries@)),
{
    let ghost cs = commands_of(crate::ids::entries_view(entries@));
    let mut out: Vec<String> = Vec::new();
    let mut i: usize = 0;
    while i < entries.len()
        invariant
            cs == commands_of(crate::ids::entries_view(entries@)),
            i <= entries@.len(),
            strings_view(out@) == cs.take(i as int),
        decreases entries@.len() - i,
    {
        let c = entries[i].command.clone();
        let ghost before = out@;
        out.push(c);
        assert(strings_view(out@) =~= strings_view(before).push(c@));
        assert(cs.take(i + 1) =~= cs.take(i as int).push(cs[i as int]));
        i += 1;
    }
    assert(cs.take(entries@.len() as int) =~= cs);
    out
}

/// The commands of the entries of `entries` whose status is an error.
pub fn failed_commands(entries: &[Entry]) -> (out: Vec<String>)
    ensures
        strings_view(out@) == error_commands(crate::ids::entries_view(entries@)),
{
    let ghost es = crate::ids::entries_view(entries@);
    let mut out: Vec<String> = Vec::new();
    let mut i: usize = 0;
    while i < entries.len()
        invariant
            es == crate::ids::entries_view(entries@),
            i <= entries@.len(),
            strings_view(out@) == error_commands(es.take(i as int)),
        decreases entries@.len() - i,
    {
        assert(es.take(i + 1).drop_last() =~= es.take(i as int));
        assert(es.take(i + 1).last() == entries@[i as int]@);
        let ghost before = out@;
        match entries[i].status {
            CommandStatus::Error(_) => {
                let c = entries[i].command.clone();
                out.push(c);
                assert(strings_view(out@) =~= strings_view(before).push(c@));
            },
            _ => {},
        }
        i += 1;
    }
    assert(es.take(entries@.len() as int) =~= es);
    out
}

/// Whether `c` is one of `v`.
fn contains_string(v: &Vec<String>, c: &String) -> (r: bool)
    ensures
        r == strings_view(v@).contains(c@),
{
    let ghost sv = strings_view(v@);
    let target = chars_of(c.as_str());
    let mut i: usize = 0;
    while i < v.len()
        invariant
            sv == strings_view(v@),
            target@ == c@,
            i <= v.len(),
            forall|k: int| 0 <= k < i ==> sv[k] != c@,
        decreases v.len() - i,
    {
        if chars_eq(&chars_of(v[i].as_str()), &target) {
            assert(sv[i as int] == c@);
            return true;
        }
        i += 1;
    }
    false
}

/// The distinct values of `cs`, in order of first occurrence.
pub fn distinct_commands(cs: &Vec<String>) -> (out: Vec<String>)
    ensures
        strings_view(out@) == distinct_cmds(strings_view(cs@)),
{
    let ghost sv = strings_view(cs@);
    let mut out: Vec<String> = Vec::new();
    let mut i: usize = 0;
    while i < cs.len()
        invariant
            sv == strings_view(cs@),
            i <= cs.len(),
            strings_view(out@) == distinct_cmds(sv.take(i as int)),
        decreases cs.len() - i,
    {
        assert(sv.take(i + 1).drop_last() =~= sv.take(i as int));
        assert(sv.take(i + 1).last() == cs@[i as int]@);
        if !contains_string(&out, &cs[i]) {
            let c = cs[i].clone();
            let ghost before = out@;
            out.push(c);
            assert(strings_view(out@) =~= strings_view(before).push(c@));
        }
        i += 1;
    }
    assert(sv.take(cs.len() as int) =~= sv);
    out
}

/// How many of `cs` equal `c`.
fn count_string(cs: &Vec<String>, c: &String) -> (n: u64)
    requires
        cs.len() <= u64::MAX,
    ensures
        n == count_in(strings_view(cs@), c@),
{
    let ghost sv = strings_view(cs@);
    let target = chars_of(c.as_str());
    let mut n: u64 = 0;
    let mut i: usize = 0;
    while i < cs.len()
        invariant
            sv == strings_view(cs@),
            target@ == c@,
            cs.len() <= u64::MAX,
            i <= cs.len(),
            n == count_in(sv.take(i as int), c@),
            n <= i,
        decreases cs.len() - i,
    {
        assert(sv.take(i + 1).drop_last() =~= sv.take(i as int));
        assert(sv.take(i + 1).last() == cs@[i as int]@);
        if chars_eq(&chars_of(cs[i].as_str()), &target) {
            n += 1;
        }
        i += 1;
    }
    assert(sv.take(cs.len() as int) =~= sv);
    n
}

/// The five most frequent values of `cs` with their counts as text, most
/// frequent first; among equal counts, in order of first occurrence.
pub fn top_five(cs: &Vec<String>) -> (rows: Vec<Vec<String>>)
    requires
        cs.len() <= i64::MAX,
    ensures
        rows_view(rows@) == top_table(strings_view(cs@)),
        rows@.len() <= 5,
        forall|a: int, b: int|
            0 <= a < b < ranked(strings_view(cs@)).len() ==> (#[trigger] ranked(strings_view(cs@))[a]).1 >= (
            #[trigger] ranked(strings_view(cs@))[b]).1,
        is_stable_order(
            count_keys(occurrences(strings_view(cs@))),
            true,
            sorted_order(count_keys(occurrences(strings_view(cs@))), true),
        ),
{
    let ghost sv = strings_view(cs@);
    let ghost occ = occurrences(sv);
    let distinct = distinct_commands(cs);
    let mut counts: Vec<u64> = Vec::new();
    let mut keys: Vec<Vec<i128>> = Vec::new();
    let mut i: usize = 0;
    while i < distinct.len()
        invariant
            sv == strings_view(cs@),
            occ == occurrences(sv),
            cs.len() <= i64::MAX,
            strings_view(distinct@) == distinct_cmds(sv),
            i <= distinct.len(),
            counts@.len() == i,
            forall|k: int| 0 <= k < i ==> #[trigger] counts@[k] == occ[k].1,
            forall|k: int| 0 <= k < i ==> #[trigger] counts@[k] <= i64::MAX,
            keys_view(keys@) == count_keys(occ).take(i as int),
        decreases distinct.len() - i,
    {
        let n = count_string(cs, &distinct[i]);
        assert(occ[i as int] == (distinct@[i as int]@, count_in(sv, distinct@[i as int]@)));
        proof {
            lemma_count_le_len(sv, distinct@[i as int]@);
        }
        counts.push(n);
        let mut key: Vec<i128> = Vec::new();
        key.push(n as i128);
        let ghost before = keys@;
        keys.push(key);
        assert(keys_view(keys@) =~= keys_view(before).push(key@));
        assert(count_keys(occ).take(i + 1) =~= count_keys(occ).take(i as int).push(
            count_keys(occ)[i as int],
        ));
        i += 1;
    }
    assert(count_keys(occ).take(distinct.len() as int) =~= count_keys(occ));
    let q = stable_order(&keys, true);
    let ghost sorted = reorder(occ, q@);
    let limit: usize = if q.len() < 5 {
        q.len()
    } else {
        5
    };
    let ghost table = first_n(sorted, 5);
    assert(table.len() == limit);
    let mut rows: Vec<Vec<String>> = Vec::new();
    let mut m: usize = 0;
    while m < limit
        invariant
            occ == occurrences(sv),
            strings_view(distinct@) == distinct_cmds(sv),
            counts@.len() == distinct@.len(),
            forall|k: int| 0 <= k < counts@.len() ==> #[trigger] counts@[k] == occ[k].1,
            forall|k: int| 0 <= k < counts@.len() ==> #[trigger] counts@[k] <= i64::MAX,
            q@.len() == occ.len(),
            forall|a: int| 0 <= a < q@.len() ==> #[trigger] q@[a] < occ.len(),
            sorted == reorder(occ, q@),
            table == first_n(sorted, 5),
            limit == table.len(),
            limit <= q@.len(),
            m <= limit,
            rows_view(rows@) == count_table(table).take(m as int),
        decreases limit - m,
    {
        let idx = q[m];
        assert(occ.len() == distinct@.len());
        let mut row: Vec<String> = Vec::new();
        let name = distinct[idx].clone();
        row.push(name);
        let cnt = counts[idx];
        let text = i64_text_chars(cnt as i64);
        row.push(string_from_chars(&text));
        assert(table[m as int] == sorted[m as int]);
        assert(sorted[m as int] == occ[idx as int]);
        assert(occ[idx as int].0 == distinct@[idx as int]@);
        assert(name@ == distinct@[idx as int]@);
        assert(strings_view(row@) =~= seq![table[m as int].0, int_text(table[m as int].1 as int)]);
        let ghost before = rows@;
        rows.push(row);
        assert(rows_view(rows@) =~= rows_view(before).push(strings_view(row@)));
        assert(count_table(table).take(m + 1) =~= count_table(table).take(m as int).push(
            count_table(table)[m as int],
        ));
        m += 1;
    }
    assert(count_table(table).take(limit as int) =~= count_table(table));
    assert(rows_view(rows@) == top_table_with(sv, q@));
    proof {
        lemma_sorted_order_is(count_keys(occ), true, q@);
        assert forall|k: int| 0 <= k < occ.len() implies (#[trigger] occ[k]).1 <= i128::MAX by {
            assert(occ[k].1 == counts@[k]);
        }
        lemma_counts_ordered(occ, q@);
    }
    rows
}

/// The most used commands of `entries` (at most five) with their counts,
/// most used first; among equal counts, in order of first occurrence.
pub fn top_5_most_used_commands(entries: &[Entry]) -> (rows: Vec<Vec<String>>)
    requires
        entries@.len() <= i64::MAX,
    ensures
        rows_view(rows@) == top_table(commands_of(crate::ids::entries_view(entries@))),
{
    let cs = entry_commands(entries);
    top_five(&cs)
}

/// The commands of `entries` that most often ended in an error (at most
/// five) with their numbers of errors, most first; among equal counts, in
/// order of first failure.
pub fn top_5_most_unsuccessful_commands(entries: &[Entry]) -> (rows: Vec<Vec<String>>)
    requires
        entries@.len() <= i64::MAX,
    ensures
        rows_view(rows@) == top_table(error_commands(crate::ids::entries_view(entries@))),
{
    let cs = failed_commands(entries);
    proof {
        lemma_error_commands_len(crate::ids::entries_view(entries@));
    }
    top_five(&cs)
}

/// There are no more failed commands than entries.
pub proof fn lemma_error_commands_len(es: Seq<EntryView>)
    ensures
        error_commands(es).len() <= es.len(),
    decreases es.len(),
{
    if es.len() > 0 {
        lemma_error_commands_len(es.drop_last());
    }
}

/// The distinct values of `cs` are exactly the values that occur in `cs`,
/// each once.
proof fn lemma_distinct_cmds(cs: Seq<Seq<char>>)
    ensures
        forall|c: Seq<char>| #[trigger] distinct_cmds(cs).contains(c) <==> cs.contains(c),
        forall|i: int, j: int|
            0 <= i < j < distinct_cmds(cs).len() ==> #[trigger] distinct_cmds(cs)[i] != #[trigger] distinct_cmds(
                cs,
            )[j],
        distinct_cmds(cs).len() <= cs.len(),
    decreases cs.len(),
{
    if cs.len() > 0 {
        let init = cs.drop_last();
        let x = cs.last();
        lemma_distinct_cmds(init);
        let d0 = distinct_cmds(init);
        let d = distinct_cmds(cs);
        assert forall|c: Seq<char>| cs.contains(c) <==> init.contains(c) || c == x by {
            if cs.contains(c) {
                let i = choose|i: int| 0 <= i < cs.len() && cs[i] == c;
                if i < cs.len() - 1 {
                    assert(init[i] == c);
                }
            }
            if init.contains(c) {
                let i = choose|i: int| 0 <= i < init.len() && init[i] == c;
                assert(cs[i] == c);
            }
            if c == x {
                assert(cs[cs.len() - 1] == c);
            }
        }
        if !d0.contains(x) {
            assert forall|c: Seq<char>| d.contains(c) <==> d0.contains(c) || c == x by {
                if d.contains(c) {
                    let i = choose|i: int| 0 <= i < d.len() && d[i] == c;
                    if i < d0.len() {
                        assert(d0[i] == c);
                    }
                }
                if d0.contains(c) {
                    let i = choose|i: int| 0 <= i < d0.len() && d0[i] == c;
                    assert(d[i] == c);
                }
                if c == x {
                    assert(d[d.len() - 1] == c);
                }
            }
            assert forall|i: int, j: int| 0 <= i < j < d.len() implies #[trigger] d[i] != #[trigger] d[j] by {
                if j == d.len() - 1 {
                    assert(d[i] == d0[i]);
                    assert(d0.contains(d0[i]));
                }
            }
        }
    }
}

/// The top-five table of `cs` holds one row for each of the most frequent
/// distinct values of `cs` (five of them, or all when there are fewer): the
/// value and its true count as text, a different value on each row, counts
/// that never increase down the rows, and no value left out of the table
/// occurs more often than any value in it.
pub proof fn lemma_top_table_shape(cs: Seq<Seq<char>>)
    requires
        cs.len() <= usize::MAX,
    ensures
        top_table(cs).len() == if distinct_cmds(cs).len() < 5 {
            distinct_cmds(cs).len()
        } else {
            5
        },
        forall|k: int|
            0 <= k < top_table(cs).len() ==> cs.contains(#[trigger] top_table(cs)[k][0]) && top_table(cs)[k] == seq![
                top_table(cs)[k][0],
                int_text(count_in(cs, top_table(cs)[k][0]) as int),
            ],
        forall|a: int, b: int|
            0 <= a < b < top_table(cs).len() ==> #[trigger] top_table(cs)[a][0] != #[trigger] top_table(cs)[b][0]
                && count_in(cs, top_table(cs)[a][0]) >= count_in(cs, top_table(cs)[b][0]),
        forall|c: Seq<char>, k: int|
            cs.contains(c) && 0 <= k < top_table(cs).len() && (forall|j: int|
                0 <= j < top_table(cs).len() ==> top_table(cs)[j][0] != c) ==> #[trigger] count_in(cs, c) <= count_in(
                cs,
                #[trigger] top_table(cs)[k][0],
            ),
{
    lemma_distinct_cmds(cs);
    let d = distinct_cmds(cs);
    let occ = occurrences(cs);
    let keys = count_keys(occ);
    crate::order::lemma_sorted_order_exists(keys, true);
    let q = sorted_order(keys, true);
    let r = reorder(occ, q);
    let top = top_table(cs);
    let t = first_n(r, 5);
    assert(top == count_table(t));
    assert forall|k: int| 0 <= k < occ.len() implies (#[trigger] occ[k]).1 <= i128::MAX by {
        lemma_count_le_len(cs, d[k]);
    }
    lemma_counts_ordered(occ, q);
    // Row `k` of the table is the value `d[q[k]]` with its count.
    assert forall|k: int| 0 <= k < top.len() implies #[trigger] top[k] == seq![
        d[q[k] as int],
        int_text(count_in(cs, d[q[k] as int]) as int),
    ] && t[k] == r[k] by {
        assert(t[k] == r[k]);
        assert(r[k] == occ[q[k] as int]);
    }
    assert forall|k: int| 0 <= k < top.len() implies cs.contains(#[trigger] top[k][0]) && top[k] == seq![
        top[k][0],
        int_text(count_in(cs, top[k][0]) as int),
    ] by {
        assert(top[k][0] == d[q[k] as int]);
        assert(d.contains(d[q[k] as int]));
    }
    assert forall|a: int, b: int| 0 <= a < b < top.len() implies #[trigger] top[a][0] != #[trigger] top[b][0]
        && count_in(cs, top[a][0]) >= count_in(cs, top[b][0]) by {
        assert(top[a][0] == d[q[a] as int]);
        assert(top[b][0] == d[q[b] as int]);
        assert(key_before(keys, true, q[a] as int, q[b] as int));
        assert(r[a].1 >= r[b].1);
    }
    assert forall|c: Seq<char>, k: int|
        cs.contains(c) && 0 <= k < top.len() && (forall|j: int| 0 <= j < top.len() ==> top[j][0] != c) implies #[trigger] count_in(
        cs,
        c,
    ) <= count_in(cs, #[trigger] top[k][0]) by {
        assert(d.contains(c));
        let m = choose|m: int| 0 <= m < d.len() && d[m] == c;
        assert(q.contains(m as usize));
        let j = choose|j: int| 0 <= j < q.len() && q[j] == m as usize;
        if j < top.len() {
            assert(top[j][0] == d[q[j] as int]);
            assert(false);
        }
        assert(top[k][0] == d[q[k] as int]);
        assert(r[k].1 >= r[j].1);
    }
}

// ---------------------------------------------------------------------------
// Typos
// ---------------------------------------------------------------------------

/// The least number of single-character insertions, deletions and
/// substitutions that turn `a` into `b` (the Levenshtein distance).
pub open spec fn edit_distance(a: Seq<char>, b: Seq<char>) -> nat
    decreases a.len() + b.len(),
{
    if a.len() == 0 {
        b.len()
    } else if b.len() == 0 {
        a.len()
    } else {
        let del = edit_distance(a.drop_last(), b) + 1;
        let ins = edit_distance(a, b.drop_last()) + 1;
        let sub = edit_distance(a.drop_last(), b.drop_last()) + if a.last() == b.last() {
            0nat
        } else {
            1nat
        };
        if del <= ins && del <= sub {
            del
        } else if ins <= sub {
            ins
        } else {
            sub
        }
    }
}

/// strsim's `levenshtein`: the Levenshtein distance between the characters
/// of `a` and of `b`, as its documentation states.
#[verifier::external_body]
fn levenshtein(a: &str, b: &str) -> (d: usize)
    ensures
        d == edit_distance(a@, b@),
{
    strsim::levenshtein(a, b)
}

/// `cmd` is close enough to `common` to count as a typo of it.
pub open spec fn is_typo(cmd: Seq<char>, common: Seq<char>) -> bool {
    edit_distance(cmd, common) <= max_distance_spec(byte_len(cmd))
}

/// The commands of `cs` (with repeats, in order) that are not themselves
/// among `commons` and are typos of `c`.
pub open spec fn typo_hits(cs: Seq<Seq<char>>, commons: Seq<Seq<char>>, c: Seq<char>) -> Seq<Seq<char>>
    decreases cs.len(),
{
    if cs.len() == 0 {
        seq![]
    } else {
        let prev = typo_hits(cs.drop_last(), commons, c);
        let x = cs.last();
        if !commons.contains(x) && is_typo(x, c) {
            prev.push(x)
        } else {
            prev
        }
    }
}

/// For each of the first `k` of `commons` that has typos in `cs`: the command,
/// how many typos, and the distinct typos in order of first occurrence.
pub open spec fn typo_rows(cs: Seq<Seq<char>>, commons: Seq<Seq<char>>, k: int) -> Seq<(Seq<char>, nat, Seq<Seq<char>>)>
    decreases k,
{
    if k <= 0 {
        seq![]
    } else {
        let prev = typo_rows(cs, commons, k - 1);
        let c = commons[k - 1];
        let hits = typo_hits(cs, commons, c);
        if hits.len() > 0 {
            prev.push((c, hits.len(), distinct_cmds(hits)))
        } else {
            prev
        }
    }
}

/// Typo counts as sort keys.
pub open spec fn typo_keys(rows: Seq<(Seq<char>, nat, Seq<Seq<char>>)>) -> Seq<Seq<i128>> {
    rows.map_values(|r: (Seq<char>, nat, Seq<Seq<char>>)| seq![r.1 as i128])
}

/// A typo row as text: the command, and `<count> (<typo>, <typo>, ...)`.
pub open spec fn typo_row_text(r: (Seq<char>, nat, Seq<Seq<char>>)) -> Seq<Seq<char>> {
    seq![r.0, int_text(r.1 as int) + " ("@ + join_seq(r.2, ", "@) + ")"@]
}

/// The commands of a top table.
pub open spec fn first_column(rows: Seq<(Seq<char>, nat)>) -> Seq<Seq<char>> {
    rows.map_values(|r: (Seq<char>, nat)| r.0)
}

/// The typo table of `cs` under the orders `q1` (of the commands by count,
/// giving the five most used ones) and `q2` (of the typo rows by count,
/// highest first, stably).
pub open spec fn typo_table_with(cs: Seq<Seq<char>>, q1: Seq<usize>, q2: Seq<usize>) -> Seq<Seq<Seq<char>>> {
    let commons = first_column(first_n(reorder(occurrences(cs), q1), 5));
    let rows = typo_rows(cs, commons, commons.len() as int);
    reorder(rows, q2).map_values(|r: (Seq<char>, nat, Seq<Seq<char>>)| typo_row_text(r))
}

/// `q1` orders the commands of `cs` by count and `q2` orders the typo rows
/// of the five most used commands by count, both highest first and stable.
pub open spec fn typo_orders(cs: Seq<Seq<char>>, q1: Seq<usize>, q2: Seq<usize>) -> bool {
    let commons = first_column(first_n(reorder(occurrences(cs), q1), 5));
    &&& is_stable_order(count_keys(occurrences(cs)), true, q1)
    &&& is_stable_order(typo_keys(typo_rows(cs, commons, commons.len() as int)), true, q2)
}

/// The five most frequent values of `cs` with their counts as text, most
/// frequent first and, among equal counts, in order of first occurrence.
pub open spec fn top_table(cs: Seq<Seq<char>>) -> Seq<Seq<Seq<char>>> {
    top_table_with(cs, sorted_order(count_keys(occurrences(cs)), true))
}

/// The typo table of `cs`: for each of the five most frequent values, its
/// typos among `cs`, rows with the most typos first (stably).
pub open spec fn typo_table(cs: Seq<Seq<char>>) -> Seq<Seq<Seq<char>>> {
    let q1 = sorted_order(count_keys(occurrences(cs)), true);
    let commons = first_column(first_n(reorder(occurrences(cs), q1), 5));
    typo_table_with(cs, q1, sorted_order(typo_keys(typo_rows(cs, commons, commons.len() as int)), true))
}

/// The typos among `cs` of `common`.
fn typos_of(cs: &Vec<String>, commons: &Vec<String>, common: &String) -> (hits: Vec<String>)
    ensures
        strings_view(hits@) == typo_hits(strings_view(cs@), strings_view(commons@), common@),
{
    let ghost sv = strings_view(cs@);
    let ghost cv = strings_view(commons@);
    let mut hits: Vec<String> = Vec::new();
    let mut i: usize = 0;
    while i < cs.len()
        invariant
            sv == strings_view(cs@),
            cv == strings_view(commons@),
            i <= cs.len(),
            strings_view(hits@) == typo_hits(sv.take(i as int), cv, common@),
        decreases cs.len() - i,
    {
        assert(sv.take(i + 1).drop_last() =~= sv.take(i as int));
        assert(sv.take(i + 1).last() == cs@[i as int]@);
        let x = &cs[i];
        if !contains_string(commons, x) {
            let d = levenshtein(x.as_str(), common.as_str());
            let limit = max_distance(x.as_str());
            if d <= limit {
                let c = x.clone();
                let ghost before = hits@;
                hits.push(c);
                assert(strings_view(hits@) =~= strings_view(before).push(c@));
            }
        }
        i += 1;
    }
    assert(sv.take(cs.len() as int) =~= sv);
    hits
}

/// The text `<count> (<typo>, <typo>, ...)`.
fn typo_summary(count: usize, variants: &Vec<String>) -> (s: String)
    requires
        count <= i64::MAX,
    ensures
        s@ == int_text(count as int) + " ("@ + join_seq(strings_view(variants@), ", "@) + ")"@,
{
    let mut v = i64_text_chars(count as i64);
    append_chars(&mut v, &chars_of(" ("));
    let joined = crate::text::join_strings(variants, ", ");
    append_chars(&mut v, &chars_of(joined.as_str()));
    append_chars(&mut v, &chars_of(")"));
    string_from_chars(&v)
}

/// The commands that `entries` mistype, as rows: a command among the five most
/// used (see [`top_5_most_used_commands`]), and `<count> (<typos>)` where the
/// count is the number of entries whose command is not itself among those
/// five and is within the typo distance of it (see
/// [`crate::util::helpers::max_distance`]), and the typos are those commands,
/// each once; rows with the most typos first (a stable sort).
pub fn most_misstyped_command(entries: &[Entry]) -> (rows: Vec<Vec<String>>)
    requires
        entries@.len() <= i64::MAX,
    ensures
        rows_view(rows@) == typo_table(commands_of(crate::ids::entries_view(entries@))),
{
    let cs = entry_commands(entries);
    let ghost sv = strings_view(cs@);
    let top = top_five(&cs);
    let ghost q1 = sorted_order(count_keys(occurrences(sv)), true);
    let ghost commons_spec = first_column(first_n(reorder(occurrences(sv), q1), 5));
    assert(rows_view(top@).len() == top@.len());
    assert(commons_spec.len() == top@.len());
    let mut commons: Vec<String> = Vec::new();
    let mut i: usize = 0;
    while i < top.len()
        invariant
            rows_view(top@) == top_table_with(sv, q1),
            commons_spec == first_column(first_n(reorder(occurrences(sv), q1), 5)),
            commons_spec.len() == top@.len(),
            i <= top.len(),
            strings_view(commons@) == commons_spec.take(i as int),
        decreases top.len() - i,
    {
        assert(rows_view(top@)[i as int] == strings_view(top@[i as int]@));
        let ghost first = first_n(reorder(occurrences(sv), q1), 5);
        assert(rows_view(top@)[i as int] == seq![first[i as int].0, int_text(first[i as int].1 as int)]);
        assert(strings_view(top@[i as int]@).len() == 2);
        assert(top@[i as int]@[0]@ == commons_spec[i as int]);
        let c = top[i][0].clone();
        let ghost before = commons@;
        commons.push(c);
        assert(strings_view(commons@) =~= strings_view(before).push(c@));
        assert(commons_spec.take(i + 1) =~= commons_spec.take(i as int).push(
            commons_spec[i as int],
        ));
        i += 1;
    }
    assert(commons_spec.take(top.len() as int) =~= commons_spec);
    let ghost cv = commons_spec;
    let ghost srows = typo_rows(sv, cv, cv.len() as int);
    let mut counts: Vec<usize> = Vec::new();
    let mut texts: Vec<Vec<String>> = Vec::new();
    let mut keys: Vec<Vec<i128>> = Vec::new();
    let mut k: usize = 0;
    while k < commons.len()
        invariant
            sv == strings_view(cs@),
            cs@.len() <= i64::MAX,
            strings_view(commons@) == cv,
            k <= commons.len(),
            rows_view(texts@) == typo_rows(sv, cv, k as int).map_values(
                |r: (Seq<char>, nat, Seq<Seq<char>>)| typo_row_text(r),
            ),
            keys_view(keys@) == typo_keys(typo_rows(sv, cv, k as int)),
        decreases commons.len() - k,
    {
        let common = &commons[k];
        assert(cv[k as int] == common@);
        let hits = typos_of(&cs, &commons, common);
        proof {
            lemma_typo_hits_len(sv, cv, common@);
        }
        if hits.len() > 0 {
            let variants = distinct_commands(&hits);
            let summary = typo_summary(hits.len(), &variants);
            let mut row: Vec<String> = Vec::new();
            row.push(common.clone());
            row.push(summary);
            let mut key: Vec<i128> = Vec::new();
            key.push(hits.len() as i128);
            let ghost r = (common@, hits@.len(), distinct_cmds(strings_view(hits@)));
            assert(strings_view(row@) =~= typo_row_text(r));
            let ghost before_t = texts@;
            let ghost before_k = keys@;
            texts.push(row);
            keys.push(key);
            assert(rows_view(texts@) =~= rows_view(before_t).push(strings_view(row@)));
            assert(keys_view(keys@) =~= keys_view(before_k).push(key@));
        }
        k += 1;
    }
    assert(rows_view(texts@).len() == texts@.len());
    assert(texts@.len() == srows.len());
    let q2 = stable_order(&keys, true);
    let mut rows: Vec<Vec<String>> = Vec::new();
    let ghost target = typo_table_with(sv, q1, q2@);
    let mut m: usize = 0;
    while m < q2.len()
        invariant
            rows_view(texts@) == srows.map_values(
                |r: (Seq<char>, nat, Seq<Seq<char>>)| typo_row_text(r),
            ),
            q2@.len() == srows.len(),
            texts@.len() == srows.len(),
            forall|a: int| 0 <= a < q2@.len() ==> #[trigger] q2@[a] < srows.len(),
            target == reorder(srows, q2@).map_values(
                |r: (Seq<char>, nat, Seq<Seq<char>>)| typo_row_text(r),
            ),
            m <= q2.len(),
            rows_view(rows@) == target.take(m as int),
        decreases q2.len() - m,
    {
        let idx = q2[m];
        let row = copy_row(&texts[idx]);
        assert(rows_view(texts@)[idx as int] == strings_view(texts@[idx as int]@));
        let ghost before = rows@;
        rows.push(row);
        assert(rows_view(rows@) =~= rows_view(before).push(strings_view(row@)));
        assert(target.take(m + 1) =~= target.take(m as int).push(target[m as int]));
        m += 1;
    }
    assert(target.take(q2.len() as int) =~= target);
    assert(typo_orders(sv, q1, q2@));
    proof {
        let commons = first_column(first_n(reorder(occurrences(sv), q1), 5));
        lemma_sorted_order_is(typo_keys(typo_rows(sv, commons, commons.len() as int)), true, q2@);
    }
    rows
}

/// There are no more typos than commands.
proof fn lemma_typo_hits_len(cs: Seq<Seq<char>>, commons: Seq<Seq<char>>, c: Seq<char>)
    ensures
        typo_hits(cs, commons, c).len() <= cs.len(),
    decreases cs.len(),
{
    if cs.len() > 0 {
        lemma_typo_hits_len(cs.drop_last(), commons, c);
    }
}

/// A copy of a row.
fn copy_row(row: &Vec<String>) -> (out: Vec<String>)
    ensures
        strings_view(out@) == strings_view(row@),
{
    let mut out: Vec<String> = Vec::new();
    let mut i: usize = 0;
    while i < row.len()
        invariant
            i <= row.len(),
            strings_view(out@) == strings_view(row@.take(i as int)),
        decreases row.len() - i,
    {
        let c = row[i].clone();
        let ghost before = out@;
        out.push(c);
        assert(strings_view(out@) =~= strings_view(before).push(c@));
        assert(strings_view(row@.take(i + 1)) =~= strings_view(row@.take(i as int)).push(
            row@[i as int]@,
        ));
        i += 1;
    }
    assert(row@.take(row.len() as int) =~= row@);
    out
}

/// The three overview tables of `entries` (see
/// [`top_5_most_used_commands`], [`top_5_most_unsuccessful_commands`] and
/// [`most_misstyped_command`]).
pub fn get_overview_tables_from_entries(entries: &[Entry]) -> (t: OverviewTables)
    requires
        entries@.len() <= i64::MAX,
    ensures
        rows_view(t.top_commands@) == top_table(commands_of(crate::ids::entries_view(entries@))),
        rows_view(t.top_unsuccessful@) == top_table(error_commands(crate::ids::entries_view(entries@))),
        rows_view(t.mistyped_commands@) == typo_table(commands_of(crate::ids::entries_view(entries@))),
{
    OverviewTables {
        top_commands: top_5_most_used_commands(entries),
        top_unsuccessful: top_5_most_unsuccessful_commands(entries),
        mistyped_commands: most_misstyped_command(entries),
    }
}

} // verus!
