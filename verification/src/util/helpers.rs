//! The user's shell and name as the environment gives them, and the
//! typo-distance threshold for commands.
use vstd::prelude::*;

use crate::text::{chars_of, concat_str, ends_with, ends_with_chars};

verus! {

/// The user's shell, with the path of its history file.
#[derive(Debug)]
pub enum ShellType {
    ZSH(String),
    BASH(String),
}

/// Which shell a `SHELL` value (absent: `/bin/zsh`) and a `HOME` value
/// (absent: `/home/unknown`) select: bash, with `<home>/.bash_history`, when
/// the shell's path ends with `bash`; zsh, with `<home>/.zsh_history`,
/// otherwise.
pub open spec fn shell_spec(shell: Option<Seq<char>>, home: Option<Seq<char>>) -> (bool, Seq<char>) {
    let active = match shell {
        Some(s) => s,
        None => "/bin/zsh"@,
    };
    let h = match home {
        Some(h) => h,
        None => "/home/unknown"@,
    };
    if ends_with(active, "bash"@) {
        (true, h + "/.bash_history"@)
    } else {
        (false, h + "/.zsh_history"@)
    }
}

/// The view of an optional string.
pub open spec fn opt_view(o: Option<String>) -> Option<Seq<char>> {
    match o {
        Some(s) => Some(s@),
        None => None,
    }
}

/// The shell that the values of the `SHELL` and `HOME` variables select
/// (`None` where a variable is unset).
pub fn detect_user_shell_with(shell_var: Option<String>, home_var: Option<String>) -> (r: ShellType)
    ensures
        ({
            let (is_bash, path) = shell_spec(opt_view(shell_var), opt_view(home_var));
            match r {
                ShellType::BASH(p) => is_bash && p@ == path,
                ShellType::ZSH(p) => !is_bash && p@ == path,
            }
        }),
{
    let active = match shell_var {
        Some(s) => s,
        None => "/bin/zsh".to_string(),
    };
    let home = match home_var {
        Some(h) => h,
        None => "/home/unknown".to_string(),
    };
    if ends_with_chars(&chars_of(active.as_str()), &chars_of("bash")) {
        ShellType::BASH(concat_str(home.as_str(), "/.bash_history"))
    } else {
        ShellType::ZSH(concat_str(home.as_str(), "/.zsh_history"))
    }
}

/// The edit distance up to which a command counts as a typo of another, by
/// the command's length in bytes (`str::len`): 1 up to 4 bytes, 2 up to 8, 3 beyond.
pub open spec fn max_distance_spec(byte_len: nat) -> nat {
    if byte_len <= 4 {
        1
    } else if byte_len <= 8 {
        2
    } else {
        3
    }
}

/// The length in bytes of the UTF-8 text with the characters `s`, as
/// `str::len` reports it.
pub open spec fn byte_len(s: Seq<char>) -> nat {
    (vstd::utf8::encode_utf8(s).len() as usize) as nat
}

/// The typo threshold for `cmd`.
pub fn max_distance(cmd: &str) -> (d: usize)
    ensures
        d == max_distance_spec(byte_len(cmd@)),
{
    let n = cmd.len();
    if n <= 4 {
        1
    } else if n <= 8 {
        2
    } else {
        3
    }
}

/// The user's name from the `USER` variable, else `LOGNAME`, else `unknown`.
pub open spec fn user_spec(user: Option<Seq<char>>, logname: Option<Seq<char>>) -> Seq<char> {
    match user {
        Some(u) => u,
        None => match logname {
            Some(l) => l,
            None => "unknown"@,
        },
    }
}

/// The user's name from the values of `USER` and `LOGNAME`.
pub fn current_user_with(user_var: Option<String>, logname_var: Option<String>) -> (r: String)
    ensures
        r@ == user_spec(opt_view(user_var), opt_view(logname_var)),
{
    match user_var {
        Some(u) => u,
        None => match logname_var {
            Some(l) => l,
            None => "unknown".to_string(),
        },
    }
}

/// Whether the shell history has already been imported: the database
/// yields a last entry (any error, an empty table included, means not).
pub fn is_history_read<T, E>(last_entry: &Result<T, E>) -> (b: bool)
    ensures
        b == last_entry is Ok,
{
    match last_entry {
        Ok(_) => true,
        Err(_) => false,
    }
}

} // verus!
