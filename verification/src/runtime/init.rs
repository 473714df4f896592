//! Installing the shell hook that writes the command log.  Which files are
//! written or extended, and with what, is decided here; the file system is
//! touched outside the library.
use vstd::prelude::*;

use crate::text::{chars_of, concat_str, contains_chars, contains_seq, ends_with, occurs_at};
use crate::util::helpers::ShellType;

verus! {

/// The zsh hook, written to `~/.basket.zsh`: it appends a JSON line per
/// command to the command log.
pub const ZSH_HOOK: &'static str = r#"
CMDLOG_FILE="$HOME/Documents/playground/basket/.cmdlog.json"

preexec() {
  __basket_cmd="$1"
}

precmd() {
  local exit_code=$?
  local ts=$(date +%s)
  local cmd="$__basket_cmd"
  unset __basket_cmd

  [[ -z "$cmd" ]] && return

  local cmd_escaped=${cmd//\"/\\\"}
  printf '{"cmd":"%s","status":%d, "timestamp":%d}\n' "$cmd_escaped" "$exit_code" "$ts" >> "$CMDLOG_FILE"
}
"#;

/// The lines appended to `~/.zshrc` to load the hook.
pub const ZSH_SOURCE_LINE: &'static str = "\n# basket command logger\nsource \"$HOME/.basket.zsh\"\n";

/// What shows that `~/.zshrc` already loads the hook.
pub const ZSH_SOURCE_MARKER: &'static str = "source \"$HOME/.basket.zsh\"";

/// The bash hook, appended to `~/.bashrc`.
pub const BASH_HOOK: &'static str = r#"
# basket command logger
export PROMPT_COMMAND='
history -a
status=$?
ts=$(date +%s)
cmd=$(history 1 | sed "s/^[ ]*[0-9]\+[ ]*//")
printf "{\"cmd\":\"%s\",\"status\":%d},\"timestamp\":%d\n" "$cmd" "$status" "$ts" >> ~/.cmdlog.json
'
"#;

/// What shows that `~/.bashrc` already holds the hook.
pub const BASH_MARKER: &'static str = "basket command logger";

/// A change to a file: write it whole, or append to it (creating it when it
/// does not exist).
pub enum SetupStep {
    WriteFile { path: String, contents: String },
    AppendFile { path: String, text: String },
}

/// The mathematical value of a [`SetupStep`].
pub enum SetupStepView {
    WriteFile { path: Seq<char>, contents: Seq<char> },
    AppendFile { path: Seq<char>, text: Seq<char> },
}

impl View for SetupStep {
    type V = SetupStepView;

    open spec fn view(&self) -> SetupStepView {
        match self {
            SetupStep::WriteFile { path, contents } => SetupStepView::WriteFile {
                path: path@,
                contents: contents@,
            },
            SetupStep::AppendFile { path, text } => SetupStepView::AppendFile { path: path@, text: text@ },
        }
    }
}

/// The views of steps.
pub open spec fn steps_view(v: Seq<SetupStep>) -> Seq<SetupStepView> {
    v.map_values(|s: SetupStep| s@)
}

/// The path of the file `name` in the directory `dir` (`Path::join` with a
/// relative name): a separator goes between them unless `dir` is empty or
/// already ends with one.
pub open spec fn join_path(dir: Seq<char>, name: Seq<char>) -> Seq<char> {
    if dir.len() == 0 || ends_with(dir, "/"@) {
        dir + name
    } else {
        dir + "/"@ + name
    }
}

/// The file `name` in the directory `dir`.
pub fn join_path_str(dir: &str, name: &str) -> (p: String)
    ensures
        p@ == join_path(dir@, name@),
{
    let d = chars_of(dir);
    if d.len() == 0 || d[d.len() - 1] == '/' {
        proof {
            if d.len() > 0 {
                reveal_strlit("/");
                assert(dir@.subrange(dir@.len() - 1, dir@.len() as int) =~= "/"@);
            }
        }
        concat_str(dir, name)
    } else {
        proof {
            reveal_strlit("/");
            assert(dir@.subrange(dir@.len() - 1, dir@.len() as int)[0] != '/');
        }
        let with_sep = concat_str(dir, "/");
        concat_str(with_sep.as_str(), name)
    }
}

/// The zsh setup, in the home directory `home`, whose `.zshrc` holds
/// `zshrc`: write the hook to `.basket.zsh`, then append the lines that load
/// it to `.zshrc` unless it already loads it.
pub open spec fn zsh_steps(home: Seq<char>, zshrc: Seq<char>) -> Seq<SetupStepView> {
    let write = SetupStepView::WriteFile { path: join_path(home, ".basket.zsh"@), contents: ZSH_HOOK@ };
    if contains_seq(zshrc, ZSH_SOURCE_MARKER@) {
        seq![write]
    } else {
        seq![write, SetupStepView::AppendFile { path: join_path(home, ".zshrc"@), text: ZSH_SOURCE_LINE@ }]
    }
}

/// The bash setup, in the home directory `home`, whose `.bashrc` holds
/// `bashrc`: append the hook to `.bashrc` unless it already holds it.
pub open spec fn bash_steps(home: Seq<char>, bashrc: Seq<char>) -> Seq<SetupStepView> {
    if contains_seq(bashrc, BASH_MARKER@) {
        seq![]
    } else {
        seq![SetupStepView::AppendFile { path: join_path(home, ".bashrc"@), text: BASH_HOOK@ }]
    }
}

/// The zsh setup's changes (see [`zsh_steps`]).
pub fn setup_zsh(home: &str, zshrc: &str) -> (steps: Vec<SetupStep>)
    ensures
        steps_view(steps@) == zsh_steps(home@, zshrc@),
{
    let mut steps: Vec<SetupStep> = Vec::new();
    steps.push(SetupStep::WriteFile {
        path: join_path_str(home, ".basket.zsh"),
        contents: ZSH_HOOK.to_string(),
    });
    if !contains_chars(&chars_of(zshrc), &chars_of(ZSH_SOURCE_MARKER)) {
        steps.push(SetupStep::AppendFile {
            path: join_path_str(home, ".zshrc"),
            text: ZSH_SOURCE_LINE.to_string(),
        });
    }
    assert(steps_view(steps@) =~= zsh_steps(home@, zshrc@));
    steps
}

/// The bash setup's changes (see [`bash_steps`]).
pub fn setup_bash(home: &str, bashrc: &str) -> (steps: Vec<SetupStep>)
    ensures
        steps_view(steps@) == bash_steps(home@, bashrc@),
{
    let mut steps: Vec<SetupStep> = Vec::new();
    if !contains_chars(&chars_of(bashrc), &chars_of(BASH_MARKER)) {
        steps.push(SetupStep::AppendFile {
            path: join_path_str(home, ".bashrc"),
            text: BASH_HOOK.to_string(),
        });
    }
    assert(steps_view(steps@) =~= bash_steps(home@, bashrc@));
    steps
}

/// The file that the setup for `shell` reads before deciding: `.zshrc` or
/// `.bashrc` in the home directory `home`.
pub open spec fn rc_path(shell: ShellType, home: Seq<char>) -> Seq<char> {
    match shell {
        ShellType::ZSH(_) => join_path(home, ".zshrc"@),
        ShellType::BASH(_) => join_path(home, ".bashrc"@),
    }
}

/// The file that the setup for `shell` reads before deciding.
pub fn rc_file(shell: &ShellType, home: &str) -> (p: String)
    ensures
        p@ == rc_path(*shell, home@),
{
    match shell {
        ShellType::ZSH(_) => join_path_str(home, ".zshrc"),
        ShellType::BASH(_) => join_path_str(home, ".bashrc"),
    }
}

/// The setup for the user's shell, in the home directory `home`, where
/// `rc_contents` is what its [`rc_file`] holds (empty when it does not
/// exist): the zsh setup for zsh, the bash setup for bash.
pub fn setup(shell: &ShellType, home: &str, rc_contents: &str) -> (steps: Vec<SetupStep>)
    ensures
        steps_view(steps@) == match shell {
            ShellType::ZSH(_) => zsh_steps(home@, rc_contents@),
            ShellType::BASH(_) => bash_steps(home@, rc_contents@),
        },
{
    match shell {
        ShellType::ZSH(_) => setup_zsh(home, rc_contents),
        ShellType::BASH(_) => setup_bash(home, rc_contents),
    }
}

/// What an rc file holds after its setup step (if any) was carried out.
pub open spec fn rc_after(rc: Seq<char>, marker: Seq<char>, text: Seq<char>) -> Seq<char> {
    if contains_seq(rc, marker) {
        rc
    } else {
        rc + text
    }
}

/// Text that contains `n` still contains it with more text before it.
proof fn lemma_contains_after(a: Seq<char>, b: Seq<char>, n: Seq<char>, i: int)
    requires
        occurs_at(b, n, i),
    ensures
        contains_seq(a + b, n),
{
    assert((a + b).subrange(a.len() + i, a.len() + i + n.len()) =~= b.subrange(i, i + n.len()));
    assert(occurs_at(a + b, n, a.len() + i));
}

/// Setting up zsh twice loads the hook once: after the first setup's
/// changes, `.zshrc` loads the hook, so a second setup appends nothing.
pub proof fn lemma_zsh_setup_idempotent(home: Seq<char>, zshrc: Seq<char>)
    ensures
        contains_seq(rc_after(zshrc, ZSH_SOURCE_MARKER@, ZSH_SOURCE_LINE@), ZSH_SOURCE_MARKER@),
        zsh_steps(home, rc_after(zshrc, ZSH_SOURCE_MARKER@, ZSH_SOURCE_LINE@)).len() == 1,
{
    reveal_strlit("\n# basket command logger\nsource \"$HOME/.basket.zsh\"\n");
    reveal_strlit("source \"$HOME/.basket.zsh\"");
    if !contains_seq(zshrc, ZSH_SOURCE_MARKER@) {
        assert(ZSH_SOURCE_LINE@.subrange(25, 25 + ZSH_SOURCE_MARKER@.len() as int) =~= ZSH_SOURCE_MARKER@);
        lemma_contains_after(zshrc, ZSH_SOURCE_LINE@, ZSH_SOURCE_MARKER@, 25);
    }
}

/// Setting up bash twice adds the hook once: after the first setup's
/// change, `.bashrc` holds the hook, so a second setup changes nothing.
pub proof fn lemma_bash_setup_idempotent(home: Seq<char>, bashrc: Seq<char>)
    ensures
        contains_seq(rc_after(bashrc, BASH_MARKER@, BASH_HOOK@), BASH_MARKER@),
        bash_steps(home, rc_after(bashrc, BASH_MARKER@, BASH_HOOK@)).len() == 0,
{
    reveal_strlit("basket command logger");
    reveal_strlit(
        r#"
# basket command logger
export PROMPT_COMMAND='
history -a
status=$?
ts=$(date +%s)
cmd=$(history 1 | sed "s/^[ ]*[0-9]\+[ ]*//")
printf "{\"cmd\":\"%s\",\"status\":%d},\"timestamp\":%d\n" "$cmd" "$status" "$ts" >> ~/.cmdlog.json
'
"#,
    );
    if !contains_seq(bashrc, BASH_MARKER@) {
        assert(BASH_HOOK@.subrange(3, 3 + BASH_MARKER@.len() as int) =~= BASH_MARKER@);
        lemma_contains_after(bashrc, BASH_HOOK@, BASH_MARKER@, 3);
    }
}

/// `n` occurs in `t` at exactly one position.
pub open spec fn occurs_once(t: Seq<char>, n: Seq<char>) -> bool {
    exists|i: int| #[trigger] occurs_at(t, n, i) && forall|j: int| #[trigger] occurs_at(t, n, j) ==> j == i
}

/// The character `c` is none of `s[i]`, ..., `s[j - 1]`.
pub open spec fn char_absent(s: Seq<char>, c: char, i: int, j: int) -> bool
    decreases j - i,
{
    i >= j || (s[i] != c && char_absent(s, c, i + 1, j))
}

/// What [`char_absent`] says, position by position.
proof fn lemma_char_absent(s: Seq<char>, c: char, i: int, j: int)
    requires
        char_absent(s, c, i, j),
    ensures
        forall|k: int| i <= k < j ==> s[k] != c,
    decreases j - i,
{
    if i < j {
        lemma_char_absent(s, c, i + 1, j);
    }
}

/// `n` occurs exactly once in `a + b` when it does not occur in `a`, the
/// first character of `b` is not in `n`, and `n` occurs in `b` at `i` and
/// nowhere else.
proof fn lemma_occurs_once_after(a: Seq<char>, b: Seq<char>, n: Seq<char>, i: int)
    requires
        !contains_seq(a, n),
        b.len() > 0,
        char_absent(n, b[0], 0, n.len() as int),
        occurs_at(b, n, i),
        forall|k: int| #[trigger] occurs_at(b, n, k) ==> k == i,
    ensures
        occurs_once(a + b, n),
{
    let t = a + b;
    let m = n.len() as int;
    lemma_char_absent(n, b[0], 0, m);
    lemma_contains_after(a, b, n, i);
    assert(occurs_at(t, n, a.len() + i)) by {
        assert(t.subrange(a.len() + i, a.len() + i + m) =~= b.subrange(i, i + m));
    }
    assert forall|j: int| #[trigger] occurs_at(t, n, j) implies j == a.len() + i by {
        if j + m <= a.len() {
            assert(t.subrange(j, j + m) =~= a.subrange(j, j + m));
            assert(occurs_at(a, n, j));
        } else if j < a.len() {
            let k = a.len() - j;
            assert(t.subrange(j, j + m)[k] == t[a.len() as int]);
            assert(n[k] == b[0]);
        } else {
            let k = j - a.len();
            assert(t.subrange(j, j + m) =~= b.subrange(k, k + m));
            assert(occurs_at(b, n, k));
        }
    }
}

/// After the zsh setup, a `.zshrc` that loaded the hook at most once loads
/// it exactly once, and a second setup leaves it as it is (see
/// [`lemma_zsh_setup_idempotent`]): after setting up twice, the line that
/// loads the hook occurs exactly once.
pub proof fn lemma_zsh_setup_loads_once(zshrc: Seq<char>)
    requires
        !contains_seq(zshrc, ZSH_SOURCE_MARKER@) || occurs_once(zshrc, ZSH_SOURCE_MARKER@),
    ensures
        occurs_once(rc_after(zshrc, ZSH_SOURCE_MARKER@, ZSH_SOURCE_LINE@), ZSH_SOURCE_MARKER@),
        rc_after(rc_after(zshrc, ZSH_SOURCE_MARKER@, ZSH_SOURCE_LINE@), ZSH_SOURCE_MARKER@, ZSH_SOURCE_LINE@)
            == rc_after(zshrc, ZSH_SOURCE_MARKER@, ZSH_SOURCE_LINE@),
{
    lemma_zsh_setup_idempotent(Seq::empty(), zshrc);
    if !contains_seq(zshrc, ZSH_SOURCE_MARKER@) {
        reveal_strlit("\n# basket command logger\nsource \"$HOME/.basket.zsh\"\n");
        reveal_strlit("source \"$HOME/.basket.zsh\"");
        let l = ZSH_SOURCE_LINE@;
        let m = ZSH_SOURCE_MARKER@;
        assert(char_absent(m, '\n', 0, 26)) by {
            reveal_with_fuel(char_absent, 27);
        }
        assert(char_absent(l, 's', 0, 5)) by {
            reveal_with_fuel(char_absent, 6);
        }
        assert(char_absent(l, 's', 6, 25)) by {
            reveal_with_fuel(char_absent, 20);
        }
        lemma_char_absent(l, 's', 0, 5);
        lemma_char_absent(l, 's', 6, 25);
        assert(l.subrange(25, 51) =~= m);
        assert forall|k: int| #[trigger] occurs_at(l, m, k) implies k == 25 by {
            assert(l.subrange(k, k + 26)[0] == l[k]);
            assert(l.subrange(k, k + 26)[1] == l[k + 1]);
            assert(l[k] == 's');
            if k == 5 {
                assert(l[6] != 'o');
            }
            if k == 26 {
                assert(l[26] != 's');
            }
        }
        lemma_occurs_once_after(zshrc, l, m, 25);
    }
}

/// After the bash setup, a `.bashrc` that held the hook at most once holds
/// it exactly once, and a second setup leaves it as it is (see
/// [`lemma_bash_setup_idempotent`]): after setting up twice, the hook's
/// marker occurs exactly once.
pub proof fn lemma_bash_setup_adds_once(bashrc: Seq<char>)
    requires
        !contains_seq(bashrc, BASH_MARKER@) || occurs_once(bashrc, BASH_MARKER@),
    ensures
        occurs_once(rc_after(bashrc, BASH_MARKER@, BASH_HOOK@), BASH_MARKER@),
        rc_after(rc_after(bashrc, BASH_MARKER@, BASH_HOOK@), BASH_MARKER@, BASH_HOOK@) == rc_after(
            bashrc,
            BASH_MARKER@,
            BASH_HOOK@,
        ),
{
    lemma_bash_setup_idempotent(Seq::empty(), bashrc);
    if !contains_seq(bashrc, BASH_MARKER@) {
        reveal_strlit("basket command logger");
        reveal_strlit(
            r#"
# basket command logger
export PROMPT_COMMAND='
history -a
status=$?
ts=$(date +%s)
cmd=$(history 1 | sed "s/^[ ]*[0-9]\+[ ]*//")
printf "{\"cmd\":\"%s\",\"status\":%d},\"timestamp\":%d\n" "$cmd" "$status" "$ts" >> ~/.cmdlog.json
'
"#,
        );
        let h = BASH_HOOK@;
        let m = BASH_MARKER@;
        assert(char_absent(m, '\n', 0, 21)) by {
            reveal_with_fuel(char_absent, 22);
        }
        assert(char_absent(h, 'b', 200, 233)) by {
            reveal_with_fuel(char_absent, 34);
        }
        assert(char_absent(h, 'b', 160, 233)) by {
            reveal_with_fuel(char_absent, 41);
        }
        assert(char_absent(h, 'b', 120, 233)) by {
            reveal_with_fuel(char_absent, 41);
        }
        assert(char_absent(h, 'b', 80, 233)) by {
            reveal_with_fuel(char_absent, 41);
        }
        assert(char_absent(h, 'b', 40, 233)) by {
            reveal_with_fuel(char_absent, 41);
        }
        assert(char_absent(h, 'b', 4, 233)) by {
            reveal_with_fuel(char_absent, 37);
        }
        assert(char_absent(h, 'b', 0, 3)) by {
            reveal_with_fuel(char_absent, 4);
        }
        lemma_char_absent(h, 'b', 4, 233);
        lemma_char_absent(h, 'b', 0, 3);
        assert(h.subrange(3, 24) =~= m);
        assert forall|k: int| #[trigger] occurs_at(h, m, k) implies k == 3 by {
            assert(h.subrange(k, k + 21)[0] == h[k]);
            assert(h[k] == 'b');
        }
        lemma_occurs_once_after(bashrc, h, m, 3);
    }
}

} // verus!
