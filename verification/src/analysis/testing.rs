//! The overview's building blocks, for exercising them one by one.
use vstd::prelude::*;

use super::{
    calculate_command_occurance, commands_of, count_in, error_commands, most_misstyped_command,
    top_5_most_unsuccessful_commands, top_5_most_used_commands, rows_view, top_table, typo_table,
};
use crate::ids::entries_view;
use crate::storage::db::Entry;

verus! {

/// The number of entries whose command is `command`.
pub fn calculate_command_occurrence_for_test(command: &String, entries: &[Entry]) -> (count: i32)
    requires
        entries@.len() <= i32::MAX,
    ensures
        count == count_in(commands_of(entries_view(entries@)), command@),
{
    calculate_command_occurance(command, entries)
}

/// The most used commands of `entries` with their counts.
pub fn top_5_most_used_commands_for_test(entries: &[Entry]) -> (rows: Vec<Vec<String>>)
    requires
        entries@.len() <= i64::MAX,
    ensures
        rows_view(rows@) == top_table(commands_of(entries_view(entries@))),
{
    top_5_most_used_commands(entries)
}

/// The commands of `entries` that most often failed, with their numbers of
/// failures.
pub fn top_5_most_unsuccessful_commands_for_test(entries: &[Entry]) -> (rows: Vec<Vec<String>>)
    requires
        entries@.len() <= i64::MAX,
    ensures
        rows_view(rows@) == top_table(error_commands(entries_view(entries@))),
{
    top_5_most_unsuccessful_commands(entries)
}

/// The typo table of `entries`.
pub fn most_misstyped_command_for_test(entries: &[Entry]) -> (rows: Vec<Vec<String>>)
    requires
        entries@.len() <= i64::MAX,
    ensures
        rows_view(rows@) == typo_table(commands_of(entries_view(entries@))),
{
    most_misstyped_command(entries)
}

} // verus!
