//! The choices of the text menu and how a typed answer selects one.
use vstd::prelude::*;

use crate::text::{trim, trim_str};

verus! {

/// A choice of the text menu.
#[derive(Debug, Clone, Copy, PartialEq, Eq, Structural)]
pub enum ProgramOption {
    Overview,
    Realtime,
    Exit,
}

/// The choice that an answer selects: `1`, `2` or `3` after trimming
/// whitespace; `None` for anything else.
pub open spec fn option_spec(input: Seq<char>) -> Option<ProgramOption> {
    let t = trim(input);
    if t == "1"@ {
        Some(ProgramOption::Overview)
    } else if t == "2"@ {
        Some(ProgramOption::Realtime)
    } else if t == "3"@ {
        Some(ProgramOption::Exit)
    } else {
        None
    }
}

/// The choice that the typed answer `input` selects.
pub fn parse_option(input: &str) -> (r: Option<ProgramOption>)
    ensures
        r == option_spec(input@),
{
    let t = trim_str(input);
    if t.eq(&"1".to_string()) {
        Some(ProgramOption::Overview)
    } else if t.eq(&"2".to_string()) {
        Some(ProgramOption::Realtime)
    } else if t.eq(&"3".to_string()) {
        Some(ProgramOption::Exit)
    } else {
        None
    }
}

} // verus!
