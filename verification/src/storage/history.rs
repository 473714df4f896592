//! Reading shell history files: the zsh and bash line formats, and which
//! parsed commands an import stores.
use vstd::prelude::*;

use crate::decimal::{parse_i64, parse_i64_chars};
use crate::storage::db::CommandStatus;
use crate::text::{strings_view, after_char, is_first_index, lemma_first_index_unique, after_char_chars, before_char, before_char_chars, chars_of,
    starts_with, string_from_chars, strip_all_prefix, strip_all_prefix_chars, sub_chars, trim,
    trim_chars};
use crate::timefmt::{format_utc_timestamp, utc_datetime_text};
use crate::util::helpers::ShellType;

verus! {

/// Timestamped commands as plain values.
pub open spec fn pairs_view(v: Seq<(i64, String)>) -> Seq<(i64, Seq<char>)> {
    v.map_values(|p: (i64, String)| (p.0, p.1@))
}

/// A list of zero or one items.
pub open spec fn opt_seq<T>(o: Option<T>) -> Seq<T> {
    match o {
        Some(x) => seq![x],
        None => seq![],
    }
}

/// One line of a zsh history file, read while `cur` is the timestamp of the
/// last command header (`None` before any).  Returns the command it yields,
/// if any, and the timestamp in force afterwards.
///
/// A line that starts with `:` is a header `: <ts>:<duration>;<command>`:
/// the timestamp is the text before the first `;`, with every leading `": "`
/// removed, up to its first `:`; when that is an `i64` the line yields the
/// trimmed text after the first `;` (empty when there is none) and the
/// timestamp becomes current, and otherwise the line is ignored.  Any other
/// line continues the previous command: it yields itself, stamped with the
/// current timestamp, or with 0 when there is none yet.
pub open spec fn zsh_step(line: Seq<char>, cur: Option<i64>) -> (Option<(i64, Seq<char>)>, Option<i64>) {
    if line.len() > 0 && line[0] == ':' {
        let meta = before_char(line, ';');
        let ts_text = before_char(strip_all_prefix(meta, ": "@), ':');
        match parse_i64(ts_text) {
            Some(ts) => {
                let rest = match after_char(line, ';') {
                    Some(r) => r,
                    None => seq![],
                };
                (Some((ts, trim(rest))), Some(ts))
            },
            None => (None, cur),
        }
    } else {
        match cur {
            Some(ts) => (Some((ts, line)), cur),
            None => (Some((0, line)), cur),
        }
    }
}

/// One line of a bash history file, read while `cur` is the timestamp read
/// from the preceding `#<ts>` line, if any.
///
/// A line that starts with `#` sets the timestamp when the rest of the line,
/// trimmed, is an `i64`, and is otherwise ignored.  Any other line is the
/// command of the pending timestamp: it yields the command and consumes the
/// timestamp; without a pending timestamp it is ignored.
pub open spec fn bash_step(line: Seq<char>, cur: Option<i64>) -> (Option<(i64, Seq<char>)>, Option<i64>) {
    if line.len() > 0 && line[0] == '#' {
        match parse_i64(trim(line.drop_first())) {
            Some(ts) => (None, Some(ts)),
            None => (None, cur),
        }
    } else {
        match cur {
            Some(ts) => (Some((ts, line)), None),
            None => (None, None),
        }
    }
}

/// Reads one zsh history line (see `zsh_step`), appending the command it
/// yields to `history_entries` and updating `current_timestamp`.
fn load_history_from_zsh(
    line: &str,
    history_entries: &mut Vec<(i64, String)>,
    current_timestamp: &mut Option<i64>,
)
    ensures
        pairs_view(final(history_entries)@) == pairs_view(old(history_entries)@) + opt_seq(
            zsh_step(line@, *old(current_timestamp)).0,
        ),
        *final(current_timestamp) == zsh_step(line@, *old(current_timestamp)).1,
{
    let v = chars_of(line);
    let ghost old_entries = history_entries@;
    if starts_with_char(&v, ':') {
        let meta = before_char_chars(&v, ';');
        let stripped = strip_all_prefix_chars(&meta, &chars_of(": "));
        let ts_text = before_char_chars(&stripped, ':');
        match parse_i64_chars(&ts_text) {
            Some(ts) => {
                *current_timestamp = Some(ts);
                let rest = match after_char_chars(&v, ';') {
                    Some(r) => r,
                    None => Vec::new(),
                };
                let command = trim_chars(&rest);
                history_entries.push((ts, string_from_chars(&command)));
            },
            None => {},
        }
    } else {
        let ts = match *current_timestamp {
            Some(t) => t,
            None => 0,
        };
        history_entries.push((ts, line.to_string()));
    }
    assert(pairs_view(history_entries@) =~= pairs_view(old_entries) + opt_seq(
        zsh_step(line@, *old(current_timestamp)).0,
    ));
}

/// Reads one bash history line (see `bash_step`), appending the command it
/// yields to `history_entries` and updating `current_timestamp`.
fn load_history_from_bash(
    line: &str,
    history_entries: &mut Vec<(i64, String)>,
    current_timestamp: &mut Option<i64>,
)
    ensures
        pairs_view(final(history_entries)@) == pairs_view(old(history_entries)@) + opt_seq(
            bash_step(line@, *old(current_timestamp)).0,
        ),
        *final(current_timestamp) == bash_step(line@, *old(current_timestamp)).1,
{
    let v = chars_of(line);
    let ghost old_entries = history_entries@;
    if starts_with_char(&v, '#') {
        let rest = sub_chars(&v, 1, v.len());
        assert(rest@ =~= v@.drop_first());
        let t = trim_chars(&rest);
        match parse_i64_chars(&t) {
            Some(ts) => {
                *current_timestamp = Some(ts);
            },
            None => {},
        }
    } else {
        match *current_timestamp {
            Some(ts) => {
                *current_timestamp = None;
                history_entries.push((ts, line.to_string()));
            },
            None => {},
        }
    }
    assert(pairs_view(history_entries@) =~= pairs_view(old_entries) + opt_seq(
        bash_step(line@, *old(current_timestamp)).0,
    ));
}

/// Whether `v` starts with the character `c`.
fn starts_with_char(v: &Vec<char>, c: char) -> (r: bool)
    ensures
        r == (v@.len() > 0 && v@[0] == c),
{
    v.len() > 0 && v[0] == c
}

/// Reads one line of a zsh history file (see `zsh_step`).
pub fn parse_zsh_line(
    line: &str,
    history_entries: &mut Vec<(i64, String)>,
    current_timestamp: &mut Option<i64>,
)
    ensures
        pairs_view(final(history_entries)@) == pairs_view(old(history_entries)@) + opt_seq(
            zsh_step(line@, *old(current_timestamp)).0,
        ),
        *final(current_timestamp) == zsh_step(line@, *old(current_timestamp)).1,
{
    load_history_from_zsh(line, history_entries, current_timestamp);
}

/// Reads one line of a bash history file (see `bash_step`).
pub fn parse_bash_line(
    line: &str,
    history_entries: &mut Vec<(i64, String)>,
    current_timestamp: &mut Option<i64>,
)
    ensures
        pairs_view(final(history_entries)@) == pairs_view(old(history_entries)@) + opt_seq(
            bash_step(line@, *old(current_timestamp)).0,
        ),
        *final(current_timestamp) == bash_step(line@, *old(current_timestamp)).1,
{
    load_history_from_bash(line, history_entries, current_timestamp);
}

/// The step that reads one line of a history file of the given shell.
pub open spec fn history_step(is_bash: bool, line: Seq<char>, cur: Option<i64>) -> (Option<(i64, Seq<char>)>, Option<i64>) {
    if is_bash {
        bash_step(line, cur)
    } else {
        zsh_step(line, cur)
    }
}

/// Reading `lines` from the top with no timestamp in force: the commands
/// yielded, in order, and the timestamp in force at the end.
pub open spec fn history_spec(is_bash: bool, lines: Seq<Seq<char>>) -> (Seq<(i64, Seq<char>)>, Option<i64>)
    decreases lines.len(),
{
    if lines.len() == 0 {
        (seq![], None)
    } else {
        let (acc, cur) = history_spec(is_bash, lines.drop_last());
        let (out, next) = history_step(is_bash, lines.last(), cur);
        (acc + opt_seq(out), next)
    }
}

/// The timestamped commands of a history file of `shell`, given its lines.
pub fn parse_history_lines(shell: &ShellType, lines: &Vec<String>) -> (out: Vec<(i64, String)>)
    ensures
        pairs_view(out@) == history_spec(shell is BASH, strings_view(lines@)).0,
{
    let is_bash = match shell {
        ShellType::BASH(_) => true,
        ShellType::ZSH(_) => false,
    };
    let ghost views = strings_view(lines@);
    let mut out: Vec<(i64, String)> = Vec::new();
    let mut cur: Option<i64> = None;
    let mut i: usize = 0;
    while i < lines.len()
        invariant
            is_bash == (shell is BASH),
            views == strings_view(lines@),
            i <= lines.len(),
            pairs_view(out@) == history_spec(is_bash, views.take(i as int)).0,
            cur == history_spec(is_bash, views.take(i as int)).1,
        decreases lines.len() - i,
    {
        assert(views.take(i + 1).drop_last() =~= views.take(i as int));
        assert(views.take(i + 1).last() == lines@[i as int]@);
        if is_bash {
            load_history_from_bash(lines[i].as_str(), &mut out, &mut cur);
        } else {
            load_history_from_zsh(lines[i].as_str(), &mut out, &mut cur);
        }
        i += 1;
    }
    assert(views.take(lines.len() as int) =~= views);
    out
}

/// What importing one parsed command does.
#[derive(Debug)]
pub enum ImportStep {
    /// Store the command with the calendar text of its timestamp.
    Insert { timestamp: i64, command: String, date: String },
    /// The timestamp has no calendar date; the command is skipped.
    InvalidTimestamp(i64),
}

/// The mathematical value of an [`ImportStep`].
pub enum ImportStepView {
    Insert { timestamp: i64, command: Seq<char>, date: Seq<char> },
    InvalidTimestamp(i64),
}

impl View for ImportStep {
    type V = ImportStepView;

    open spec fn view(&self) -> ImportStepView {
        match self {
            ImportStep::Insert { timestamp, command, date } => ImportStepView::Insert {
                timestamp: *timestamp,
                command: command@,
                date: date@,
            },
            ImportStep::InvalidTimestamp(ts) => ImportStepView::InvalidTimestamp(*ts),
        }
    }
}

/// What importing the parsed commands `entries` does when the newest stored
/// command has timestamp `last`: in order, each command whose timestamp has
/// no calendar date is reported, and each other command newer than `last` is
/// stored; commands at or before `last` are skipped.
pub open spec fn import_spec(entries: Seq<(i64, Seq<char>)>, last: i64) -> Seq<ImportStepView>
    decreases entries.len(),
{
    if entries.len() == 0 {
        seq![]
    } else {
        let prev = import_spec(entries.drop_last(), last);
        let (ts, command) = entries.last();
        match utc_datetime_text(ts as int) {
            None => prev.push(ImportStepView::InvalidTimestamp(ts)),
            Some(date) => if ts > last {
                prev.push(ImportStepView::Insert { timestamp: ts, command, date })
            } else {
                prev
            },
        }
    }
}

/// The step stores a command newer than `last`.
pub open spec fn inserts_newer(step: ImportStepView, last: i64) -> bool {
    match step {
        ImportStepView::Insert { timestamp, .. } => timestamp > last,
        ImportStepView::InvalidTimestamp(_) => true,
    }
}

/// An import stores only commands newer than the newest stored one.
pub proof fn lemma_import_only_newer(entries: Seq<(i64, Seq<char>)>, last: i64)
    ensures
        forall|k: int| 0 <= k < import_spec(entries, last).len() ==> inserts_newer(
            #[trigger] import_spec(entries, last)[k],
            last,
        ),
    decreases entries.len(),
{
    if entries.len() > 0 {
        lemma_import_only_newer(entries.drop_last(), last);
        let prev = import_spec(entries.drop_last(), last);
        let cur = import_spec(entries, last);
        assert forall|k: int| 0 <= k < cur.len() implies inserts_newer(#[trigger] cur[k], last) by {
            if k < prev.len() {
                assert(cur[k] == prev[k]);
            }
        }
    }
}

/// An import of commands none of which is newer than the newest stored one
/// stores nothing: importing the same history again adds no command twice.
pub proof fn lemma_import_nothing_new(entries: Seq<(i64, Seq<char>)>, last: i64)
    requires
        forall|k: int| 0 <= k < entries.len() ==> (#[trigger] entries[k]).0 <= last,
    ensures
        forall|k: int| 0 <= k < import_spec(entries, last).len() ==> #[trigger] import_spec(entries, last)[k] is InvalidTimestamp,
    decreases entries.len(),
{
    if entries.len() > 0 {
        assert(forall|k: int| 0 <= k < entries.drop_last().len() ==> entries.drop_last()[k] == entries[k]);
        lemma_import_nothing_new(entries.drop_last(), last);
        assert(entries.last() == entries[entries.len() - 1]);
    }
}

/// The views of a list of import steps.
pub open spec fn steps_view(v: Seq<ImportStep>) -> Seq<ImportStepView> {
    v.map_values(|s: ImportStep| s@)
}

/// What importing `entries` does when the newest stored command has
/// timestamp `last_timestamp` (0 for an empty database).
pub fn plan_history_import(entries: &Vec<(i64, String)>, last_timestamp: i64) -> (out: Vec<ImportStep>)
    ensures
        steps_view(out@) == import_spec(pairs_view(entries@), last_timestamp),
{
    let ghost pv = pairs_view(entries@);
    let mut out: Vec<ImportStep> = Vec::new();
    let mut i: usize = 0;
    while i < entries.len()
        invariant
            pv == pairs_view(entries@),
            i <= entries.len(),
            steps_view(out@) == import_spec(pv.take(i as int), last_timestamp),
        decreases entries.len() - i,
    {
        assert(pv.take(i + 1).drop_last() =~= pv.take(i as int));
        let ts = entries[i].0;
        let ghost old_out = out@;
        match format_utc_timestamp(ts) {
            None => {
                out.push(ImportStep::InvalidTimestamp(ts));
            },
            Some(date) => {
                if ts > last_timestamp {
                    let command = entries[i].1.clone();
                    out.push(ImportStep::Insert { timestamp: ts, command, date });
                }
            },
        }
        assert(steps_view(out@) =~= import_spec(pv.take(i + 1), last_timestamp));
        i += 1;
    }
    assert(pv.take(entries.len() as int) =~= pv);
    out
}

/// A command reported by the shell hook, ready to be stored.
#[derive(Debug)]
pub struct RealtimeRecord {
    pub timestamp: i64,
    pub command: String,
    pub date: String,
    pub status: CommandStatus,
}

/// The status that an exit code records: 0 is success, a positive code is an
/// error with that code, a negative one is unknown.
pub open spec fn exit_status(code: i32) -> CommandStatus {
    if code == 0 {
        CommandStatus::Success
    } else if code > 0 {
        CommandStatus::Error(code)
    } else {
        CommandStatus::Unknown
    }
}

/// The record to store for a command that the shell hook reported with exit
/// code `status` at `timestamp`; `Invalid timestamp` when the timestamp has
/// no calendar date.
pub fn realtime_record(command: &str, status: i32, timestamp: i64) -> (r: Result<RealtimeRecord, String>)
    ensures
        match r {
            Ok(rec) => {
                &&& utc_datetime_text(timestamp as int) == Some(rec.date@)
                &&& rec.timestamp == timestamp
                &&& rec.command@ == command@
                &&& rec.status == exit_status(status)
            },
            Err(e) => utc_datetime_text(timestamp as int) is None && e@ == "Invalid timestamp"@,
        },
{
    let date = match format_utc_timestamp(timestamp) {
        Some(d) => d,
        None => return Err("Invalid timestamp".to_string()),
    };
    let status = if status == 0 {
        CommandStatus::Success
    } else if status > 0 {
        CommandStatus::Error(status)
    } else {
        CommandStatus::Unknown
    };
    Ok(RealtimeRecord { timestamp, command: command.to_string(), date, status })
}

/// Text that `parse_i64` accepts holds only digits and a leading sign.
proof fn lemma_number_text_chars(t: Seq<char>)
    requires
        parse_i64(t) is Some,
    ensures
        t.len() > 0,
        forall|k: int| 0 <= k < t.len() ==> #[trigger] t[k] != ':' && t[k] != ';',
{
    let body = if t.len() > 0 && (t[0] == '-' || t[0] == '+') {
        t.drop_first()
    } else {
        t
    };
    assert forall|k: int| 0 <= k < t.len() implies #[trigger] t[k] != ':' && t[k] != ';' by {
        if t[0] == '-' || t[0] == '+' {
            if k > 0 {
                assert(t[k] == body[k - 1]);
                assert(crate::decimal::is_digit(body[k - 1]));
            }
        } else {
            assert(crate::decimal::is_digit(body[k]));
        }
    }
}

/// A zsh header line `: <ts>:<duration>;<command>` whose timestamp text `ts`
/// is an `i64` yields that timestamp with the whole command after the first
/// `;`, trimmed, whatever the command holds (`;` included), and makes the
/// timestamp current; so the file holding just that line reads as that one
/// command.
pub proof fn lemma_zsh_header_keeps_whole_command(
    ts: Seq<char>,
    duration: Seq<char>,
    command: Seq<char>,
    cur: Option<i64>,
)
    requires
        parse_i64(ts) is Some,
        forall|k: int| 0 <= k < duration.len() ==> #[trigger] duration[k] != ';',
    ensures
        ({
            let line = ": "@ + ts + ":"@ + duration + ";"@ + command;
            let t = parse_i64(ts)->0;
            &&& zsh_step(line, cur) == (Some((t, trim(command))), Some(t))
            &&& history_spec(false, seq![line]).0 == seq![(t, trim(command))]
        }),
{
    lemma_number_text_chars(ts);
    let line = ": "@ + ts + ":"@ + duration + ";"@ + command;
    let meta = ": "@ + ts + ":"@ + duration;
    let semi = meta.len() as int;
    reveal_strlit(": ");
    reveal_strlit(":");
    reveal_strlit(";");
    assert(line[0] == ':');
    assert(is_first_index(line, ';', semi)) by {
        assert(line[semi] == ';');
        assert forall|j: int| 0 <= j < semi implies line[j] != ';' by {
            assert(line[j] == meta[j]);
            if j >= 2 + ts.len() + 1 {
                assert(meta[j] == duration[j - (2 + ts.len() + 1)]);
            } else if j >= 2 && j < 2 + ts.len() {
                assert(meta[j] == ts[j - 2]);
            }
        }
    }
    lemma_first_index_unique(line, ';', semi);
    assert(before_char(line, ';') =~= meta);
    assert(after_char(line, ';') == Some(command)) by {
        assert(line.skip(semi + 1) =~= command);
    }
    let rest = ts + ":"@ + duration;
    assert(starts_with(meta, ": "@)) by {
        assert(meta.subrange(0, 2) =~= ": "@);
    }
    assert(meta.subrange(2, meta.len() as int) =~= rest);
    assert(!starts_with(rest, ": "@)) by {
        if starts_with(rest, ": "@) {
            assert(rest.subrange(0, 2)[0] == rest[0]);
            assert(rest[0] == ts[0]);
        }
    }
    assert(strip_all_prefix(meta, ": "@) == rest) by {
        reveal_with_fuel(strip_all_prefix, 2);
    }
    assert(is_first_index(rest, ':', ts.len() as int)) by {
        assert(rest[ts.len() as int] == ':');
        assert forall|j: int| 0 <= j < ts.len() implies rest[j] != ':' by {
            assert(rest[j] == ts[j]);
        }
    }
    lemma_first_index_unique(rest, ':', ts.len() as int);
    assert(before_char(rest, ':') =~= ts);
    let t = parse_i64(ts)->0;
    assert(zsh_step(line, cur) == (Some((t, trim(command))), Some(t)));
    assert(zsh_step(line, None) == (Some((t, trim(command))), Some(t)));
    assert(seq![line].drop_last() =~= Seq::<Seq<char>>::empty());
    assert(history_spec(false, Seq::<Seq<char>>::empty()).0 == Seq::<(i64, Seq<char>)>::empty());
    assert(history_spec(false, seq![line]).0 =~= seq![(t, trim(command))]);
}

} // verus!
