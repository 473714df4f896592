//! The history records and how their status is written to and read from the
//! database's text column.  Opening the database and running queries happen
//! outside the library; what they store and read back is decided here.
use vstd::prelude::*;

use crate::decimal::{i64_text_chars, int_text, parse_i32, parse_i32_chars};
use crate::text::{chars_eq, chars_of, starts_with, starts_with_chars, strip_all_prefix,
    strip_all_prefix_chars, strip_all_suffix, strip_all_suffix_chars, string_from_chars};

verus! {

/// How a recorded command ended.
#[derive(Debug, Clone, Copy, PartialEq, Eq)]
pub enum CommandStatus {
    Success,
    Error(i32),
    Unknown,
}

/// One recorded command.
#[derive(Debug)]
pub struct Entry {
    pub id: String,
    pub timestamp: i64,
    pub command: String,
    pub date: String,
    pub status: CommandStatus,
    pub user: String,
}

/// The mathematical value of an [`Entry`].
pub struct EntryView {
    pub id: Seq<char>,
    pub timestamp: i64,
    pub command: Seq<char>,
    pub date: Seq<char>,
    pub status: CommandStatus,
    pub user: Seq<char>,
}

impl View for Entry {
    type V = EntryView;

    open spec fn view(&self) -> EntryView {
        EntryView {
            id: self.id@,
            timestamp: self.timestamp,
            command: self.command@,
            date: self.date@,
            status: self.status,
            user: self.user@,
        }
    }
}

/// The text under which a status is stored (its `Debug` form):
/// `Success`, `Unknown` or `Error(<code>)`.
pub open spec fn status_text(status: CommandStatus) -> Seq<char> {
    match status {
        CommandStatus::Success => "Success"@,
        CommandStatus::Unknown => "Unknown"@,
        CommandStatus::Error(code) => "Error("@ + int_text(code as int) + ")"@,
    }
}

/// The status that a stored text denotes: `Success` and `Unknown` by name; a
/// text that starts with `Error(` is an error whose code is what remains after
/// stripping every leading `Error(` and every trailing `)`, or -1 when that is
/// not an `i32`; anything else is `Unknown`.
pub open spec fn parse_status_spec(s: Seq<char>) -> CommandStatus {
    if s == "Success"@ {
        CommandStatus::Success
    } else if s == "Unknown"@ {
        CommandStatus::Unknown
    } else if starts_with(s, "Error("@) {
        let body = strip_all_suffix(strip_all_prefix(s, "Error("@), ")"@);
        CommandStatus::Error(
            match parse_i32(body) {
                Some(code) => code,
                None => -1i32,
            },
        )
    } else {
        CommandStatus::Unknown
    }
}

/// The text under which `status` is stored.
pub fn status_to_text(status: &CommandStatus) -> (s: String)
    ensures
        s@ == status_text(*status),
{
    match status {
        CommandStatus::Success => "Success".to_string(),
        CommandStatus::Unknown => "Unknown".to_string(),
        CommandStatus::Error(code) => {
            let mut v = chars_of("Error(");
            let digits = i64_text_chars(*code as i64);
            crate::text::append_chars(&mut v, &digits);
            v.push(')');
            let ghost close = ")"@;
            proof {
                reveal_strlit(")");
            }
            assert(v@ =~= "Error("@ + int_text(*code as int) + close);
            string_from_chars(&v)
        },
    }
}

/// The status that the stored text `s` denotes.
pub fn parse_status(s: &str) -> (status: CommandStatus)
    ensures
        status == parse_status_spec(s@),
{
    let v = chars_of(s);
    if chars_eq(&v, &chars_of("Success")) {
        CommandStatus::Success
    } else if chars_eq(&v, &chars_of("Unknown")) {
        CommandStatus::Unknown
    } else if starts_with_chars(&v, &chars_of("Error(")) {
        let a = strip_all_prefix_chars(&v, &chars_of("Error("));
        let b = strip_all_suffix_chars(&a, &chars_of(")"));
        let code = match parse_i32_chars(&b) {
            Some(c) => c,
            None => -1,
        };
        CommandStatus::Error(code)
    } else {
        CommandStatus::Unknown
    }
}

/// Reading back a stored status gives the status that was stored.
pub proof fn lemma_status_round_trip(status: CommandStatus)
    ensures
        parse_status_spec(status_text(status)) == status,
{
    reveal_strlit("Success");
    reveal_strlit("Unknown");
    reveal_strlit("Error(");
    reveal_strlit(")");
    match status {
        CommandStatus::Success => {},
        CommandStatus::Unknown => {
            assert("Unknown"@ != "Success"@) by {
                assert("Unknown"@[0] != "Success"@[0]);
            }
        },
        CommandStatus::Error(code) => {
            let t = int_text(code as int);
            let s = status_text(status);
            crate::decimal::lemma_parse_int_text(code as int);
            crate::decimal::lemma_dec_digits(
                if code < 0 {
                    (-code) as nat
                } else {
                    code as nat
                },
            );
            assert(s.len() >= 7);
            assert(s != "Success"@) by {
                assert(s[0] == 'E');
            }
            assert(s != "Unknown"@) by {
                assert(s[0] == 'E');
            }
            assert(s.subrange(0, 6) =~= "Error("@);
            let rest = s.subrange(6, s.len() as int);
            assert(rest =~= t + ")"@);
            // The text after the prefix starts with a digit or `-`.
            assert(t.len() > 0);
            assert(t[0] == '-' || crate::decimal::is_digit(t[0]));
            assert(!starts_with(rest, "Error("@)) by {
                assert(rest[0] == t[0]);
                if rest.len() >= 6 {
                    assert(rest.subrange(0, 6)[0] == rest[0]);
                }
            }
            assert(strip_all_prefix(rest, "Error("@) == rest);
            assert(strip_all_prefix(s, "Error("@) == rest);
            // The text before the closing bracket ends with a digit.
            assert(crate::decimal::is_digit(t.last())) by {
                let d = if code < 0 {
                    (-code) as nat
                } else {
                    code as nat
                };
                let dd = crate::decimal::dec_digits(d);
                assert(crate::decimal::all_digits(dd));
                if code < 0 {
                    assert(t.last() == dd.last());
                } else {
                    assert(t == dd);
                }
            }
            assert(rest.subrange(rest.len() - 1, rest.len() as int) =~= ")"@);
            assert(rest.subrange(0, rest.len() - 1) =~= t);
            assert(!crate::text::ends_with(t, ")"@)) by {
                assert(t.subrange(t.len() - 1, t.len() as int)[0] == t.last());
            }
            assert(strip_all_suffix(t, ")"@) == t);
            assert(strip_all_suffix(rest, ")"@) == t);
        },
    }
}

/// The database file used when `BASKET_DB_PATH` is not set.
pub const DEFAULT_DB_FILE: &'static str = "/Users/yasinya/basket.db";

/// The database file: the value of `BASKET_DB_PATH` when it is set, else
/// [`DEFAULT_DB_FILE`].
pub fn db_path(db_var: Option<String>) -> (p: String)
    ensures
        p@ == match db_var {
            Some(v) => v@,
            None => DEFAULT_DB_FILE@,
        },
{
    match db_var {
        Some(v) => v,
        None => DEFAULT_DB_FILE.to_string(),
    }
}

/// The text stored for an entry's status: that of the given status, or of
/// `Unknown` when none is given.
pub fn stored_status(status: Option<CommandStatus>) -> (s: String)
    ensures
        s@ == status_text(
            match status {
                Some(st) => st,
                None => CommandStatus::Unknown,
            },
        ),
{
    let st = match status {
        Some(st) => st,
        None => CommandStatus::Unknown,
    };
    status_to_text(&st)
}

/// Whether the history table has the `user` column, given the names of its
/// columns.
pub fn has_user_column(columns: &Vec<String>) -> (b: bool)
    ensures
        b == exists|i: int| 0 <= i < columns@.len() && #[trigger] columns@[i]@ == "user"@,
{
    let user = chars_of("user");
    let mut i: usize = 0;
    while i < columns.len()
        invariant
            user@ == "user"@,
            i <= columns.len(),
            forall|k: int| 0 <= k < i ==> #[trigger] columns@[k]@ != "user"@,
        decreases columns.len() - i,
    {
        if chars_eq(&chars_of(columns[i].as_str()), &user) {
            return true;
        }
        i += 1;
    }
    false
}

} // verus!
