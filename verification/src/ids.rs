//! Intrusion signals in the command history: rules that flag single commands,
//! sequences of commands within five minutes of each other, an allowlist of
//! commands that are never flagged, and rules that are switched off.
use vstd::prelude::*;

use crate::order::{is_stable_order, key_before, keys_view, lemma_sorted_order_is, lex_lt, sorted_order,
    stable_order};
use crate::storage::db::{CommandStatus, Entry, EntryView};
use crate::text::{chars_eq, chars_of, contains_chars, contains_seq, lowercase_chars, lowercase_of,
    starts_with, starts_with_chars, string_from_chars, strings_view, trim, trim_chars};

verus! {

// ---------------------------------------------------------------------------
// Types
// ---------------------------------------------------------------------------

/// A command that one or more rules flag.
#[derive(Debug)]
pub struct IntrusionFinding {
    pub command: String,
    pub score: i32,
    pub reasons: Vec<String>,
    pub timestamp: i64,
    pub user: String,
    pub user_type: String,
}

/// The mathematical value of an [`IntrusionFinding`].
pub struct FindingView {
    pub command: Seq<char>,
    pub score: int,
    pub reasons: Seq<Seq<char>>,
    pub timestamp: i64,
    pub user: Seq<char>,
    pub user_type: Seq<char>,
}

impl View for IntrusionFinding {
    type V = FindingView;

    open spec fn view(&self) -> FindingView {
        FindingView {
            command: self.command@,
            score: self.score as int,
            reasons: strings_view(self.reasons@),
            timestamp: self.timestamp,
            user: self.user@,
            user_type: self.user_type@,
        }
    }
}

/// Which rules are switched off (by id) and which commands are never flagged
/// (a command is skipped when it contains an allowlisted text, both in lower
/// case).
pub struct IdsConfig {
    pub suppress_rules: Vec<String>,
    pub allowlist_commands: Vec<String>,
}

/// The mathematical value of an [`IdsConfig`].
pub struct IdsConfigView {
    pub suppress: Seq<Seq<char>>,
    pub allow: Seq<Seq<char>>,
}

impl View for IdsConfig {
    type V = IdsConfigView;

    open spec fn view(&self) -> IdsConfigView {
        IdsConfigView {
            suppress: strings_view(self.suppress_rules@),
            allow: strings_view(self.allowlist_commands@),
        }
    }
}

impl Default for IdsConfig {
    /// No rule switched off and nothing allowlisted.
    fn default() -> (c: Self)
        ensures
            c@.suppress.len() == 0,
            c@.allow.len() == 0,
    {
        IdsConfig { suppress_rules: Vec::new(), allowlist_commands: Vec::new() }
    }
}

/// What kind of activity a command shows, for the sequence rules.
#[derive(Debug, Clone, Copy, PartialEq, Eq, Structural)]
pub enum CmdTag {
    Recon,
    Download,
    Exec,
    PrivEsc,
}

/// The rules.
#[derive(Debug, Clone, Copy, PartialEq, Eq, Structural)]
pub enum Rule {
    PipeShell,
    DownloadExec,
    LolbinExec,
    HistoryTamper,
    Persistence,
    Recon,
    PrivEsc,
    PrivShell,
    SubshellExec,
    ReconDownloadExec,
    SudoShell,
}

/// The id of a rule, by which it is switched off.
pub open spec fn rule_id(r: Rule) -> Seq<char> {
    match r {
        Rule::PipeShell => "highrisk.pipe_shell"@,
        Rule::DownloadExec => "highrisk.remote_exec"@,
        Rule::LolbinExec => "lolbin.inline_exec"@,
        Rule::HistoryTamper => "tamper.history"@,
        Rule::Persistence => "persist.setup"@,
        Rule::Recon => "recon.basic"@,
        Rule::PrivEsc => "priv.esc"@,
        Rule::PrivShell => "priv.shell"@,
        Rule::SubshellExec => "remote.exec.subshell"@,
        Rule::ReconDownloadExec => "seq.recon_download_exec"@,
        Rule::SudoShell => "seq.sudo_shell"@,
    }
}

/// The score that a rule adds.
pub open spec fn rule_score(r: Rule) -> int {
    match r {
        Rule::PipeShell => 10,
        Rule::DownloadExec => 12,
        Rule::LolbinExec => 6,
        Rule::HistoryTamper => 8,
        Rule::Persistence => 7,
        Rule::Recon => 3,
        Rule::PrivEsc => 3,
        Rule::PrivShell => 5,
        Rule::SubshellExec => 10,
        Rule::ReconDownloadExec => 10,
        Rule::SudoShell => 6,
    }
}

/// The reason that a rule reports.
pub open spec fn rule_reason(r: Rule) -> Seq<char> {
    match r {
        Rule::PipeShell => "pipe to shell"@,
        Rule::DownloadExec => "download and execute"@,
        Rule::LolbinExec => "lolbin inline execution"@,
        Rule::HistoryTamper => "history tampering"@,
        Rule::Persistence => "persistence modification"@,
        Rule::Recon => "recon command"@,
        Rule::PrivEsc => "privilege escalation"@,
        Rule::PrivShell => "privileged shell"@,
        Rule::SubshellExec => "subshell download exec"@,
        Rule::ReconDownloadExec => "recon → download → exec sequence"@,
        Rule::SudoShell => "sudo → shell sequence"@,
    }
}

/// The id of `r`.
pub fn rule_id_str(r: Rule) -> (s: &'static str)
    ensures
        s@ == rule_id(r),
{
    match r {
        Rule::PipeShell => "highrisk.pipe_shell",
        Rule::DownloadExec => "highrisk.remote_exec",
        Rule::LolbinExec => "lolbin.inline_exec",
        Rule::HistoryTamper => "tamper.history",
        Rule::Persistence => "persist.setup",
        Rule::Recon => "recon.basic",
        Rule::PrivEsc => "priv.esc",
        Rule::PrivShell => "priv.shell",
        Rule::SubshellExec => "remote.exec.subshell",
        Rule::ReconDownloadExec => "seq.recon_download_exec",
        Rule::SudoShell => "seq.sudo_shell",
    }
}

/// The score of `r`.
pub fn rule_score_of(r: Rule) -> (s: i32)
    ensures
        s == rule_score(r),
        1 <= s <= 12,
{
    match r {
        Rule::PipeShell => 10,
        Rule::DownloadExec => 12,
        Rule::LolbinExec => 6,
        Rule::HistoryTamper => 8,
        Rule::Persistence => 7,
        Rule::Recon => 3,
        Rule::PrivEsc => 3,
        Rule::PrivShell => 5,
        Rule::SubshellExec => 10,
        Rule::ReconDownloadExec => 10,
        Rule::SudoShell => 6,
    }
}

/// The reason of `r`.
pub fn rule_reason_str(r: Rule) -> (s: &'static str)
    ensures
        s@ == rule_reason(r),
{
    match r {
        Rule::PipeShell => "pipe to shell",
        Rule::DownloadExec => "download and execute",
        Rule::LolbinExec => "lolbin inline execution",
        Rule::HistoryTamper => "history tampering",
        Rule::Persistence => "persistence modification",
        Rule::Recon => "recon command",
        Rule::PrivEsc => "privilege escalation",
        Rule::PrivShell => "privileged shell",
        Rule::SubshellExec => "subshell download exec",
        Rule::ReconDownloadExec => "recon → download → exec sequence",
        Rule::SudoShell => "sudo → shell sequence",
    }
}

// ---------------------------------------------------------------------------
// Word lists
// ---------------------------------------------------------------------------

pub const TAG_RECON_WORDS: [&'static str; 7] = [
    "nmap",
    "masscan",
    "netstat",
    "ss ",
    "lsof",
    "whoami",
    "id ",
];

pub const TAG_DOWNLOAD_WORDS: [&'static str; 4] = ["curl ", "wget ", "ftp ", "tftp "];

pub const TAG_EXEC_WORDS: [&'static str; 7] = [
    "bash",
    "sh ",
    "zsh",
    "python",
    "perl",
    "ruby",
    "node",
];

pub const PRIV_WORDS: [&'static str; 3] = ["sudo ", "su ", "doas "];

pub const PIPE_SHELL_WORDS: [&'static str; 5] = ["| sh", "| bash", "|bash", "| zsh", "|zsh"];

pub const DOWNLOADER_WORDS: [&'static str; 2] = ["curl ", "wget "];

pub const PIPE_SH_BASH_WORDS: [&'static str; 3] = ["| sh", "| bash", "|bash"];

pub const LOLBIN_WORDS: [&'static str; 6] = [
    "python -c",
    "perl -e",
    "ruby -e",
    "awk ",
    "nc -e",
    "bash -i",
];

pub const TAMPER_WORDS: [&'static str; 5] = [
    "history -c",
    "unset histfile",
    "histfile=/dev/null",
    "rm ~/.bash_history",
    "rm ~/.zsh_history",
];

pub const PERSIST_WORDS: [&'static str; 8] = [
    "crontab",
    "systemctl enable",
    "launchctl",
    "/etc/rc.local",
    "~/.bashrc",
    "~/.zshrc",
    "~/.profile",
    "~/.config/autostart",
];

pub const RECON_WORDS: [&'static str; 15] = [
    "nmap",
    "masscan",
    "netstat",
    "ss ",
    "lsof",
    "whoami",
    "id ",
    "uname",
    "ifconfig",
    "ip a",
    "ip addr",
    "ps aux",
    "ps -ef",
    "last",
    "w ",
];

pub const PRIV_SHELL_WORDS: [&'static str; 5] = ["bash", "sh ", "zsh", "python", "perl"];

pub const SUBSHELL_RUNNER_WORDS: [&'static str; 2] = ["bash -c", "sh -c"];

pub const SUBSHELL_FETCH_WORDS: [&'static str; 2] = ["$(curl", "$(wget"];

pub const SERVICE_USERS: [&'static str; 18] = [
    "root",
    "daemon",
    "bin",
    "sys",
    "sync",
    "games",
    "man",
    "lp",
    "mail",
    "news",
    "uucp",
    "proxy",
    "www-data",
    "backup",
    "list",
    "irc",
    "gnats",
    "nobody",
];

/// One of `words` occurs in `h`.
#[verifier::opaque]
pub open spec fn contains_any_spec(h: Seq<char>, words: Seq<&str>) -> bool {
    exists|i: int| 0 <= i < words.len() && contains_seq(h, #[trigger] words[i]@)
}

/// Whether one of `words` occurs in `h`.
pub fn contains_any(h: &Vec<char>, words: &[&str]) -> (r: bool)
    ensures
        r == contains_any_spec(h@, words@),
{
    reveal(contains_any_spec);
    let mut i: usize = 0;
    while i < words.len()
        invariant
            i <= words@.len(),
            forall|k: int| 0 <= k < i ==> !contains_seq(h@, #[trigger] words@[k]@),
        decreases words@.len() - i,
    {
        let w = chars_of(words[i]);
        if contains_chars(h, &w) {
            assert(contains_any_spec(h@, words@)) by {
                reveal(contains_any_spec);
                let k = i as int;
                assert(contains_seq(h@, words@[k]@));
            }
            return true;
        }
        i += 1;
    }
    false
}

// ---------------------------------------------------------------------------
// Single commands
// ---------------------------------------------------------------------------

/// A list of zero or one rules.
pub open spec fn rule_if(cond: bool, r: Rule) -> Seq<Rule> {
    if cond {
        seq![r]
    } else {
        seq![]
    }
}

/// The activity tags of a lower-cased command, in the order recon, download,
/// exec, privilege escalation.
pub open spec fn tags_spec(l: Seq<char>) -> Seq<CmdTag> {
    (if contains_any_spec(l, TAG_RECON_WORDS@) {
        seq![CmdTag::Recon]
    } else {
        seq![]
    }) + (if contains_any_spec(l, TAG_DOWNLOAD_WORDS@) {
        seq![CmdTag::Download]
    } else {
        seq![]
    }) + (if contains_any_spec(l, TAG_EXEC_WORDS@) {
        seq![CmdTag::Exec]
    } else {
        seq![]
    }) + (if contains_any_spec(l, PRIV_WORDS@) {
        seq![CmdTag::PrivEsc]
    } else {
        seq![]
    })
}

/// Whether the lower-cased command `l` matches the single-command rule `r`
/// (the sequence rules never match on their own).
#[verifier::opaque]
pub open spec fn rule_matches(r: Rule, l: Seq<char>) -> bool {
    match r {
        Rule::PipeShell => contains_seq(l, "|"@) && contains_any_spec(l, PIPE_SHELL_WORDS@),
        Rule::DownloadExec => contains_any_spec(l, DOWNLOADER_WORDS@) && contains_any_spec(
            l,
            PIPE_SH_BASH_WORDS@,
        ),
        Rule::LolbinExec => contains_any_spec(l, LOLBIN_WORDS@),
        Rule::HistoryTamper => contains_any_spec(l, TAMPER_WORDS@),
        Rule::Persistence => contains_any_spec(l, PERSIST_WORDS@),
        Rule::Recon => contains_any_spec(l, RECON_WORDS@),
        Rule::PrivEsc => contains_any_spec(l, PRIV_WORDS@),
        Rule::PrivShell => starts_with(l, "sudo "@) && contains_any_spec(l, PRIV_SHELL_WORDS@),
        Rule::SubshellExec => contains_any_spec(l, SUBSHELL_RUNNER_WORDS@) && contains_any_spec(
            l,
            SUBSHELL_FETCH_WORDS@,
        ),
        Rule::ReconDownloadExec => false,
        Rule::SudoShell => false,
    }
}

/// The single-command rules that the lower-cased command `l` matches, in
/// rule order.
pub open spec fn base_rules_spec(l: Seq<char>) -> Seq<Rule> {
    rule_if(rule_matches(Rule::PipeShell, l), Rule::PipeShell) + rule_if(
        rule_matches(Rule::DownloadExec, l),
        Rule::DownloadExec,
    ) + rule_if(rule_matches(Rule::LolbinExec, l), Rule::LolbinExec) + rule_if(
        rule_matches(Rule::HistoryTamper, l),
        Rule::HistoryTamper,
    ) + rule_if(rule_matches(Rule::Persistence, l), Rule::Persistence) + rule_if(
        rule_matches(Rule::Recon, l),
        Rule::Recon,
    ) + rule_if(rule_matches(Rule::PrivEsc, l), Rule::PrivEsc) + rule_if(
        rule_matches(Rule::PrivShell, l),
        Rule::PrivShell,
    ) + rule_if(rule_matches(Rule::SubshellExec, l), Rule::SubshellExec)
}

/// A rule is in a concatenation of rule lists exactly when it is in one of
/// them.
proof fn lemma_rules_concat_contains(a: Seq<Rule>, b: Seq<Rule>, x: Rule)
    ensures
        (a + b).contains(x) <==> a.contains(x) || b.contains(x),
{
    if (a + b).contains(x) {
        let i = choose|i: int| 0 <= i < (a + b).len() && (a + b)[i] == x;
        if i >= a.len() {
            assert(b[i - a.len()] == x);
        }
    }
    if a.contains(x) {
        let i = choose|i: int| 0 <= i < a.len() && a[i] == x;
        assert((a + b)[i] == x);
    }
    if b.contains(x) {
        let i = choose|i: int| 0 <= i < b.len() && b[i] == x;
        assert((a + b)[a.len() + i] == x);
    }
}

/// The download-and-execute rule matches a lower-cased command exactly when
/// it holds `curl ` or `wget ` and one of `| sh`, `| bash`, `|bash`.
proof fn lemma_download_exec_matches(l: Seq<char>)
    ensures
        rule_matches(Rule::DownloadExec, l) <==> ((contains_seq(l, "curl "@) || contains_seq(l, "wget "@)) && (
        contains_seq(l, "| sh"@) || contains_seq(l, "| bash"@) || contains_seq(l, "|bash"@))),
{
    reveal(rule_matches);
    reveal(contains_any_spec);
    assert(DOWNLOADER_WORDS@.len() == 2);
    assert(DOWNLOADER_WORDS@[0]@ == "curl "@);
    assert(DOWNLOADER_WORDS@[1]@ == "wget "@);
    assert(PIPE_SH_BASH_WORDS@.len() == 3);
    assert(PIPE_SH_BASH_WORDS@[0]@ == "| sh"@);
    assert(PIPE_SH_BASH_WORDS@[1]@ == "| bash"@);
    assert(PIPE_SH_BASH_WORDS@[2]@ == "|bash"@);
    if contains_any_spec(l, DOWNLOADER_WORDS@) {
        let i = choose|i: int| 0 <= i < DOWNLOADER_WORDS@.len() && contains_seq(l, #[trigger] DOWNLOADER_WORDS@[i]@);
        assert(i == 0 || i == 1);
    }
    if contains_any_spec(l, PIPE_SH_BASH_WORDS@) {
        let i = choose|i: int| 0 <= i < PIPE_SH_BASH_WORDS@.len() && contains_seq(l, #[trigger] PIPE_SH_BASH_WORDS@[i]@);
        assert(i == 0 || i == 1 || i == 2);
    }
}

/// A lower-cased command triggers the download-and-execute rule exactly
/// when it runs a downloader (`curl ` or `wget `) and pipes into `sh` or
/// `bash` (`| sh`, `| bash` or `|bash`); the rule adds 12 to the score with
/// the reason `download and execute`.
pub proof fn lemma_download_exec_rule(l: Seq<char>)
    ensures
        base_rules_spec(l).contains(Rule::DownloadExec) <==> ((contains_seq(l, "curl "@) || contains_seq(
            l,
            "wget "@,
        )) && (contains_seq(l, "| sh"@) || contains_seq(l, "| bash"@) || contains_seq(l, "|bash"@))),
        rule_score(Rule::DownloadExec) == 12,
        rule_reason(Rule::DownloadExec) == "download and execute"@,
{
    lemma_download_exec_matches(l);
    let x = Rule::DownloadExec;
    let r1 = rule_if(rule_matches(Rule::PipeShell, l), Rule::PipeShell);
    let r2 = rule_if(rule_matches(Rule::DownloadExec, l), Rule::DownloadExec);
    let r3 = rule_if(rule_matches(Rule::LolbinExec, l), Rule::LolbinExec);
    let r4 = rule_if(rule_matches(Rule::HistoryTamper, l), Rule::HistoryTamper);
    let r5 = rule_if(rule_matches(Rule::Persistence, l), Rule::Persistence);
    let r6 = rule_if(rule_matches(Rule::Recon, l), Rule::Recon);
    let r7 = rule_if(rule_matches(Rule::PrivEsc, l), Rule::PrivEsc);
    let r8 = rule_if(rule_matches(Rule::PrivShell, l), Rule::PrivShell);
    let r9 = rule_if(rule_matches(Rule::SubshellExec, l), Rule::SubshellExec);
    lemma_rules_concat_contains(r1, r2, x);
    lemma_rules_concat_contains(r1 + r2, r3, x);
    lemma_rules_concat_contains(r1 + r2 + r3, r4, x);
    lemma_rules_concat_contains(r1 + r2 + r3 + r4, r5, x);
    lemma_rules_concat_contains(r1 + r2 + r3 + r4 + r5, r6, x);
    lemma_rules_concat_contains(r1 + r2 + r3 + r4 + r5 + r6, r7, x);
    lemma_rules_concat_contains(r1 + r2 + r3 + r4 + r5 + r6 + r7, r8, x);
    lemma_rules_concat_contains(r1 + r2 + r3 + r4 + r5 + r6 + r7 + r8, r9, x);
    assert(base_rules_spec(l) == r1 + r2 + r3 + r4 + r5 + r6 + r7 + r8 + r9);
    assert(r2.contains(x) <==> rule_matches(Rule::DownloadExec, l)) by {
        if rule_matches(Rule::DownloadExec, l) {
            assert(r2[0] == x);
        }
    }
}

/// Whether the lower-cased command `l` matches the rule `r` on its own.
pub fn matches_rule(r: Rule, l: &Vec<char>) -> (b: bool)
    ensures
        b == rule_matches(r, l@),
{
    reveal(rule_matches);
    match r {
        Rule::PipeShell => {
            let bar = chars_of("|");
            contains_chars(l, &bar) && contains_any(l, &PIPE_SHELL_WORDS)
        },
        Rule::DownloadExec => contains_any(l, &DOWNLOADER_WORDS) && contains_any(
            l,
            &PIPE_SH_BASH_WORDS,
        ),
        Rule::LolbinExec => contains_any(l, &LOLBIN_WORDS),
        Rule::HistoryTamper => contains_any(l, &TAMPER_WORDS),
        Rule::Persistence => contains_any(l, &PERSIST_WORDS),
        Rule::Recon => contains_any(l, &RECON_WORDS),
        Rule::PrivEsc => contains_any(l, &PRIV_WORDS),
        Rule::PrivShell => {
            let sudo = chars_of("sudo ");
            starts_with_chars(l, &sudo) && contains_any(l, &PRIV_SHELL_WORDS)
        },
        Rule::SubshellExec => contains_any(l, &SUBSHELL_RUNNER_WORDS) && contains_any(
            l,
            &SUBSHELL_FETCH_WORDS,
        ),
        Rule::ReconDownloadExec => false,
        Rule::SudoShell => false,
    }
}

/// Appends `x` to `v` when `cond` holds.
fn push_if<T>(v: &mut Vec<T>, cond: bool, x: T)
    ensures
        final(v)@ == old(v)@ + (if cond {
            seq![x]
        } else {
            seq![]
        }),
{
    if cond {
        v.push(x);
    }
    assert(final(v)@ =~= old(v)@ + (if cond {
        seq![x]
    } else {
        seq![]
    }));
}

/// The activity tags of the lower-cased command `l`.
pub fn classify_tags(l: &Vec<char>) -> (tags: Vec<CmdTag>)
    ensures
        tags@ == tags_spec(l@),
{
    let mut tags: Vec<CmdTag> = Vec::new();
    push_if(&mut tags, contains_any(l, &TAG_RECON_WORDS), CmdTag::Recon);
    push_if(&mut tags, contains_any(l, &TAG_DOWNLOAD_WORDS), CmdTag::Download);
    push_if(&mut tags, contains_any(l, &TAG_EXEC_WORDS), CmdTag::Exec);
    push_if(&mut tags, contains_any(l, &PRIV_WORDS), CmdTag::PrivEsc);
    assert(tags@ =~= tags_spec(l@));
    tags
}

/// The rules that the lower-cased command `l` matches on its own.
pub fn base_rules(l: &Vec<char>) -> (rules: Vec<Rule>)
    ensures
        rules@ == base_rules_spec(l@),
        rules@.len() <= 9,
{
    let mut rules: Vec<Rule> = Vec::new();
    push_if(&mut rules, matches_rule(Rule::PipeShell, l), Rule::PipeShell);
    push_if(&mut rules, matches_rule(Rule::DownloadExec, l), Rule::DownloadExec);
    push_if(&mut rules, matches_rule(Rule::LolbinExec, l), Rule::LolbinExec);
    push_if(&mut rules, matches_rule(Rule::HistoryTamper, l), Rule::HistoryTamper);
    push_if(&mut rules, matches_rule(Rule::Persistence, l), Rule::Persistence);
    push_if(&mut rules, matches_rule(Rule::Recon, l), Rule::Recon);
    push_if(&mut rules, matches_rule(Rule::PrivEsc, l), Rule::PrivEsc);
    push_if(&mut rules, matches_rule(Rule::PrivShell, l), Rule::PrivShell);
    push_if(&mut rules, matches_rule(Rule::SubshellExec, l), Rule::SubshellExec);
    assert(rules@ =~= base_rules_spec(l@));
    rules
}

// ---------------------------------------------------------------------------
// Sequences
// ---------------------------------------------------------------------------

/// `tags` holds `t`.
pub open spec fn has_tag(tags: Seq<CmdTag>, t: CmdTag) -> bool {
    exists|i: int| 0 <= i < tags.len() && tags[i] == t
}

/// Whether `tags` holds `t`.
pub fn has_tag_exec(tags: &Vec<CmdTag>, t: CmdTag) -> (r: bool)
    ensures
        r == has_tag(tags@, t),
{
    let mut i: usize = 0;
    while i < tags.len()
        invariant
            i <= tags.len(),
            forall|k: int| 0 <= k < i ==> tags@[k] != t,
        decreases tags.len() - i,
    {
        if tags[i] == t {
            return true;
        }
        i += 1;
    }
    false
}

/// The window holds a recon command, a later download and a still later
/// execution.
pub open spec fn recon_download_exec(w: Seq<Seq<CmdTag>>) -> bool {
    exists|i: int, j: int, k: int|
        0 <= i < j < k < w.len() && has_tag(#[trigger] w[i], CmdTag::Recon) && has_tag(
            #[trigger] w[j],
            CmdTag::Download,
        ) && has_tag(#[trigger] w[k], CmdTag::Exec)
}

/// The window holds a privilege escalation and a later execution.
pub open spec fn sudo_then_shell(w: Seq<Seq<CmdTag>>) -> bool {
    exists|i: int, k: int|
        0 <= i < k < w.len() && has_tag(#[trigger] w[i], CmdTag::PrivEsc) && has_tag(
            #[trigger] w[k],
            CmdTag::Exec,
        )
}

/// The tag lists of a window.
pub open spec fn window_view(w: Seq<Vec<CmdTag>>) -> Seq<Seq<CmdTag>> {
    w.map_values(|t: Vec<CmdTag>| t@)
}

/// Whether the window shows recon, then a download, then an execution.
pub fn sequence_recon_download_exec(window: &Vec<Vec<CmdTag>>) -> (r: bool)
    ensures
        r == recon_download_exec(window_view(window@)),
{
    let ghost w = window_view(window@);
    let mut has_recon = false;
    let mut has_download = false;
    let mut idx: usize = 0;
    while idx < window.len()
        invariant
            w == window_view(window@),
            idx <= window.len(),
            has_recon == exists|i: int| 0 <= i < idx && has_tag(#[trigger] w[i], CmdTag::Recon),
            has_download == exists|i: int, j: int|
                0 <= i < j < idx && has_tag(#[trigger] w[i], CmdTag::Recon) && has_tag(
                    #[trigger] w[j],
                    CmdTag::Download,
                ),
            forall|i: int, j: int, k: int|
                0 <= i < j < k < idx && has_tag(#[trigger] w[i], CmdTag::Recon) && has_tag(
                    #[trigger] w[j],
                    CmdTag::Download,
                ) ==> !has_tag(#[trigger] w[k], CmdTag::Exec),
        decreases window.len() - idx,
    {
        let tags = &window[idx];
        assert(w[idx as int] == tags@);
        let recon = has_tag_exec(tags, CmdTag::Recon);
        let download = has_tag_exec(tags, CmdTag::Download);
        let exec = has_tag_exec(tags, CmdTag::Exec);
        if !has_recon && recon {
            has_recon = true;
        } else if has_recon && !has_download && download {
            let ghost i0 = choose|i: int| 0 <= i < idx && has_tag(#[trigger] w[i], CmdTag::Recon);
            assert(has_tag(w[i0], CmdTag::Recon) && has_tag(w[idx as int], CmdTag::Download));
            has_download = true;
        } else if has_recon && has_download && exec {
            let ghost (i0, j0) = choose|i: int, j: int|
                0 <= i < j < idx && has_tag(#[trigger] w[i], CmdTag::Recon) && has_tag(
                    #[trigger] w[j],
                    CmdTag::Download,
                );
            assert(has_tag(w[i0], CmdTag::Recon) && has_tag(w[j0], CmdTag::Download) && has_tag(
                w[idx as int],
                CmdTag::Exec,
            ));
            return true;
        }
        idx += 1;
    }
    false
}

/// Whether the window shows a privilege escalation followed by an execution.
pub fn sequence_sudo_shell(window: &Vec<Vec<CmdTag>>) -> (r: bool)
    ensures
        r == sudo_then_shell(window_view(window@)),
{
    let ghost w = window_view(window@);
    let mut has_sudo = false;
    let mut idx: usize = 0;
    while idx < window.len()
        invariant
            w == window_view(window@),
            idx <= window.len(),
            has_sudo == exists|i: int| 0 <= i < idx && has_tag(#[trigger] w[i], CmdTag::PrivEsc),
            forall|i: int, k: int|
                0 <= i < k < idx && has_tag(#[trigger] w[i], CmdTag::PrivEsc) ==> !has_tag(
                    #[trigger] w[k],
                    CmdTag::Exec,
                ),
        decreases window.len() - idx,
    {
        let tags = &window[idx];
        assert(w[idx as int] == tags@);
        let sudo = has_tag_exec(tags, CmdTag::PrivEsc);
        let exec = has_tag_exec(tags, CmdTag::Exec);
        if !has_sudo && sudo {
            has_sudo = true;
        } else if has_sudo && exec {
            let ghost i0 = choose|i: int| 0 <= i < idx && has_tag(#[trigger] w[i], CmdTag::PrivEsc);
            assert(has_tag(w[i0], CmdTag::PrivEsc) && has_tag(w[idx as int], CmdTag::Exec));
            return true;
        }
        idx += 1;
    }
    false
}

// ---------------------------------------------------------------------------
// Allowlist, suppression, users, scores
// ---------------------------------------------------------------------------

/// The lower-cased command contains one of the allowlisted texts, lower-cased.
pub open spec fn allowlisted(lower: Seq<char>, allow: Seq<Seq<char>>) -> bool {
    exists|i: int| 0 <= i < allow.len() && contains_seq(lower, lowercase_of(#[trigger] allow[i]))
}

/// Whether the lower-cased command `raw_lower` is allowlisted by `config`.
pub fn is_allowlisted(raw_lower: &Vec<char>, config: &IdsConfig) -> (r: bool)
    ensures
        r == allowlisted(raw_lower@, config@.allow),
{
    let ghost allow = config@.allow;
    let mut i: usize = 0;
    while i < config.allowlist_commands.len()
        invariant
            allow == config@.allow,
            i <= allow.len(),
            forall|k: int| 0 <= k < i ==> !contains_seq(raw_lower@, lowercase_of(#[trigger] allow[k])),
        decreases allow.len() - i,
    {
        let rule = lowercase_chars(&chars_of(config.allowlist_commands[i].as_str()));
        assert(allow[i as int] == config.allowlist_commands@[i as int]@);
        if contains_chars(raw_lower, &rule) {
            return true;
        }
        i += 1;
    }
    false
}

/// The id of `r` is one of the switched-off ids.
pub open spec fn is_suppressed(r: Rule, suppress: Seq<Seq<char>>) -> bool {
    exists|j: int| 0 <= j < suppress.len() && #[trigger] suppress[j] == rule_id(r)
}

/// The rules of `rules` that are not switched off, in order.
pub open spec fn unsuppressed(rules: Seq<Rule>, suppress: Seq<Seq<char>>) -> Seq<Rule>
    decreases rules.len(),
{
    if rules.len() == 0 {
        seq![]
    } else {
        let prev = unsuppressed(rules.drop_last(), suppress);
        if is_suppressed(rules.last(), suppress) {
            prev
        } else {
            prev.push(rules.last())
        }
    }
}

/// Whether `r` is switched off.
fn suppressed(r: Rule, suppress: &Vec<String>) -> (b: bool)
    ensures
        b == is_suppressed(r, strings_view(suppress@)),
{
    let ghost sv = strings_view(suppress@);
    let id = chars_of(rule_id_str(r));
    let mut j: usize = 0;
    while j < suppress.len()
        invariant
            sv == strings_view(suppress@),
            id@ == rule_id(r),
            j <= suppress.len(),
            forall|k: int| 0 <= k < j ==> #[trigger] sv[k] != rule_id(r),
        decreases suppress.len() - j,
    {
        assert(sv[j as int] == suppress@[j as int]@);
        if chars_eq(&chars_of(suppress[j].as_str()), &id) {
            return true;
        }
        j += 1;
    }
    false
}

/// The rules of `rules` that `suppress` does not switch off.
pub fn apply_suppression(rules: &Vec<Rule>, suppress: &Vec<String>) -> (out: Vec<Rule>)
    ensures
        out@ == unsuppressed(rules@, strings_view(suppress@)),
        out@.len() <= rules@.len(),
{
    let mut out: Vec<Rule> = Vec::new();
    let mut i: usize = 0;
    while i < rules.len()
        invariant
            i <= rules.len(),
            out@ == unsuppressed(rules@.take(i as int), strings_view(suppress@)),
            out@.len() <= i,
        decreases rules.len() - i,
    {
        assert(rules@.take(i + 1).drop_last() =~= rules@.take(i as int));
        if !suppressed(rules[i], suppress) {
            out.push(rules[i]);
        }
        i += 1;
    }
    assert(rules@.take(rules.len() as int) =~= rules@);
    out
}

/// `service` for the names of system accounts, `human` otherwise.
pub open spec fn user_type_of(u: Seq<char>) -> Seq<char> {
    if exists|i: int| 0 <= i < SERVICE_USERS@.len() && u == #[trigger] SERVICE_USERS@[i]@ {
        "service"@
    } else {
        "human"@
    }
}

/// The kind of account `user` is.
pub fn classify_user(user: &str) -> (t: &'static str)
    ensures
        t@ == user_type_of(user@),
{
    let u = chars_of(user);
    let mut i: usize = 0;
    while i < SERVICE_USERS.len()
        invariant
            u@ == user@,
            i <= SERVICE_USERS@.len(),
            forall|k: int| 0 <= k < i ==> user@ != #[trigger] SERVICE_USERS@[k]@,
        decreases SERVICE_USERS@.len() - i,
    {
        if chars_eq(&u, &chars_of(SERVICE_USERS[i])) {
            return "service";
        }
        i += 1;
    }
    "human"
}

/// The total score of `rules`.
pub open spec fn score_sum(rules: Seq<Rule>) -> int
    decreases rules.len(),
{
    if rules.len() == 0 {
        0
    } else {
        score_sum(rules.drop_last()) + rule_score(rules.last())
    }
}

/// The reasons of `rules`, in order.
pub open spec fn reasons_of(rules: Seq<Rule>) -> Seq<Seq<char>> {
    rules.map_values(|r: Rule| rule_reason(r))
}

/// The total score of `rules`.
fn total_score(rules: &Vec<Rule>) -> (s: i32)
    requires
        rules.len() <= 11,
    ensures
        s == score_sum(rules@),
{
    let mut s: i32 = 0;
    let mut i: usize = 0;
    while i < rules.len()
        invariant
            rules.len() <= 11,
            i <= rules.len(),
            s == score_sum(rules@.take(i as int)),
            0 <= s <= 12 * i,
        decreases rules.len() - i,
    {
        assert(rules@.take(i + 1).drop_last() =~= rules@.take(i as int));
        let r = rule_score_of(rules[i]);
        s = s + r;
        i += 1;
    }
    assert(rules@.take(rules.len() as int) =~= rules@);
    s
}

/// The reasons of `rules`.
fn reason_strings(rules: &Vec<Rule>) -> (out: Vec<String>)
    ensures
        strings_view(out@) == reasons_of(rules@),
{
    let mut out: Vec<String> = Vec::new();
    let mut i: usize = 0;
    while i < rules.len()
        invariant
            i <= rules.len(),
            strings_view(out@) == reasons_of(rules@.take(i as int)),
        decreases rules.len() - i,
    {
        let reason = rule_reason_str(rules[i]).to_string();
        assert(reason@ == rule_reason(rules@[i as int]));
        let ghost before = out@;
        out.push(reason);
        assert(out@ == before.push(reason));
        assert(strings_view(out@) =~= strings_view(before).push(reason@));
        assert(rules@.take(i + 1) =~= rules@.take(i as int).push(rules@[i as int]));
        assert(reasons_of(rules@.take(i + 1)) =~= reasons_of(rules@.take(i as int)).push(
            rule_reason(rules@[i as int]),
        ));
        i += 1;
    }
    assert(rules@.take(rules.len() as int) =~= rules@);
    out
}

// ---------------------------------------------------------------------------
// Scanning the history
// ---------------------------------------------------------------------------

/// The command as examined: without surrounding whitespace.
pub open spec fn raw_of(e: EntryView) -> Seq<char> {
    trim(e.command)
}

/// The examined command in lower case.
pub open spec fn lower_of(e: EntryView) -> Seq<char> {
    lowercase_of(raw_of(e))
}

/// The command is examined: it is not blank and not allowlisted.
pub open spec fn is_kept(e: EntryView, cfg: IdsConfigView) -> bool {
    raw_of(e).len() > 0 && !allowlisted(lower_of(e), cfg.allow)
}

/// What the scan remembers of a command for the sequence rules.
pub struct ScanRecord {
    pub kept: bool,
    pub timestamp: i64,
    pub tags: Seq<CmdTag>,
}

/// What the scan remembers of `e`.
pub open spec fn scan_record(e: EntryView, cfg: IdsConfigView) -> ScanRecord {
    ScanRecord { kept: is_kept(e, cfg), timestamp: e.timestamp, tags: tags_spec(lower_of(e)) }
}

/// The tags of the examined commands among `recs` that ran at most 300
/// seconds before `now`, in order.
pub open spec fn window_of(recs: Seq<ScanRecord>, now: i64) -> Seq<Seq<CmdTag>>
    decreases recs.len(),
{
    if recs.len() == 0 {
        seq![]
    } else {
        let prev = window_of(recs.drop_last(), now);
        let r = recs.last();
        if r.kept && now - r.timestamp <= 300 {
            prev.push(r.tags)
        } else {
            prev
        }
    }
}

/// The records of the first `k + 1` commands of `ordered`.
pub open spec fn records_upto(ordered: Seq<EntryView>, k: int, cfg: IdsConfigView) -> Seq<ScanRecord> {
    ordered.take(k + 1).map_values(|x: EntryView| scan_record(x, cfg))
}

/// The rules that command `k` of `ordered` (the history in time order)
/// triggers and that are not switched off: its own rules, then the
/// recon-download-exec and the sudo-shell sequence rules when it executes
/// something and its window shows the sequence.
pub open spec fn rules_at(ordered: Seq<EntryView>, k: int, cfg: IdsConfigView) -> Seq<Rule> {
    let e = ordered[k];
    let l = lower_of(e);
    let w = window_of(records_upto(ordered, k, cfg), e.timestamp);
    let exec = has_tag(tags_spec(l), CmdTag::Exec);
    unsuppressed(
        base_rules_spec(l) + rule_if(exec && recon_download_exec(w), Rule::ReconDownloadExec)
            + rule_if(exec && sudo_then_shell(w), Rule::SudoShell),
        cfg.suppress,
    )
}

/// The finding for command `k` of `ordered`, if it is examined and triggers
/// a rule: the trimmed command, the total score, the reasons, its time, and
/// its user (the current user when the entry has none) with the kind of
/// account.
pub open spec fn finding_at(ordered: Seq<EntryView>, k: int, cfg: IdsConfigView, user: Seq<char>) -> Option<FindingView> {
    let e = ordered[k];
    let rules = rules_at(ordered, k, cfg);
    if !is_kept(e, cfg) || rules.len() == 0 {
        None
    } else {
        let u = if e.user.len() == 0 {
            user
        } else {
            e.user
        };
        Some(
            FindingView {
                command: raw_of(e),
                score: score_sum(rules),
                reasons: reasons_of(rules),
                timestamp: e.timestamp,
                user: u,
                user_type: user_type_of(u),
            },
        )
    }
}

/// The findings for the first `n` commands of `ordered`, in time order.
pub open spec fn candidates(ordered: Seq<EntryView>, n: int, cfg: IdsConfigView, user: Seq<char>) -> Seq<FindingView>
    decreases n,
{
    if n <= 0 {
        seq![]
    } else {
        candidates(ordered, n - 1, cfg, user) + match finding_at(ordered, n - 1, cfg, user) {
            Some(f) => seq![f],
            None => seq![],
        }
    }
}

/// The views of entries.
pub open spec fn entries_view(v: Seq<Entry>) -> Seq<EntryView> {
    v.map_values(|e: Entry| e@)
}

/// The views of findings.
pub open spec fn findings_view(v: Seq<IntrusionFinding>) -> Seq<FindingView> {
    v.map_values(|f: IntrusionFinding| f@)
}

/// Entries ordered by time.
pub open spec fn time_keys(es: Seq<EntryView>) -> Seq<Seq<i128>> {
    es.map_values(|e: EntryView| seq![e.timestamp as i128])
}

/// Findings ordered by score, then by time.
pub open spec fn finding_keys(fs: Seq<FindingView>) -> Seq<Seq<i128>> {
    fs.map_values(|f: FindingView| seq![f.score as i128, f.timestamp as i128])
}

/// `s` rearranged by the positions `p`.
pub open spec fn reorder<T>(s: Seq<T>, p: Seq<usize>) -> Seq<T> {
    p.map_values(|i: usize| s[i as int])
}

/// The scan with the orders `p` (of the entries, by time, stable) and `q` (of
/// the findings, by score then time, both descending, stable).
pub open spec fn intrusions_with_orders(
    es: Seq<EntryView>,
    cfg: IdsConfigView,
    user: Seq<char>,
    p: Seq<usize>,
    q: Seq<usize>,
) -> bool {
    let cands = candidates(reorder(es, p), es.len() as int, cfg, user);
    &&& is_stable_order(time_keys(es), false, p)
    &&& is_stable_order(finding_keys(cands), true, q)
}

/// The findings of a scan of `es` with the configuration `cfg`, on behalf
/// of `user`: the entries are taken in order of time (stably), each entry's
/// finding (if any) is made against the window of entries before it, and
/// the findings are ordered by score, then by time, both highest first
/// (stably).
pub open spec fn intrusions(es: Seq<EntryView>, cfg: IdsConfigView, user: Seq<char>) -> Seq<FindingView> {
    let cands = candidates(reorder(es, sorted_order(time_keys(es), false)), es.len() as int, cfg, user);
    reorder(cands, sorted_order(finding_keys(cands), true))
}

/// `f` comes no later than `g` in the order of findings: a higher score, or
/// the same score and a time no earlier.
pub open spec fn finding_order(f: FindingView, g: FindingView) -> bool {
    f.score > g.score || (f.score == g.score && f.timestamp >= g.timestamp)
}

/// Findings put in a stable order by score, then time, both highest first,
/// come highest score first and, among equal scores, latest first.
pub proof fn lemma_findings_ordered(fs: Seq<FindingView>, q: Seq<usize>)
    requires
        is_stable_order(finding_keys(fs), true, q),
        forall|k: int| 0 <= k < fs.len() ==> i128::MIN <= #[trigger] fs[k].score <= i128::MAX,
    ensures
        forall|a: int, b: int|
            0 <= a < b < q.len() ==> finding_order(#[trigger] reorder(fs, q)[a], #[trigger] reorder(fs, q)[b]),
{
    let keys = finding_keys(fs);
    assert forall|a: int, b: int| 0 <= a < b < q.len() implies finding_order(
        #[trigger] reorder(fs, q)[a],
        #[trigger] reorder(fs, q)[b],
    ) by {
        let i = q[a] as int;
        let j = q[b] as int;
        assert(key_before(keys, true, i, j));
        let f = fs[i];
        let g = fs[j];
        assert(keys[i] == seq![f.score as i128, f.timestamp as i128]);
        assert(keys[j] == seq![g.score as i128, g.timestamp as i128]);
        if keys[i] != keys[j] {
            reveal_with_fuel(lex_lt, 3);
            assert(lex_lt(keys[j], keys[i]));
            assert(keys[j].drop_first() =~= seq![g.timestamp as i128]);
            assert(keys[i].drop_first() =~= seq![f.timestamp as i128]);
            assert(keys[j].drop_first().drop_first() =~= Seq::<i128>::empty());
            assert(keys[i].drop_first().drop_first() =~= Seq::<i128>::empty());
        }
    }
}

/// A copy of the tags `t`.
fn copy_tags(t: &Vec<CmdTag>) -> (out: Vec<CmdTag>)
    ensures
        out@ == t@,
{
    let mut out: Vec<CmdTag> = Vec::new();
    let mut i: usize = 0;
    while i < t.len()
        invariant
            i <= t.len(),
            out@ == t@.take(i as int),
        decreases t.len() - i,
    {
        out.push(t[i]);
        i += 1;
        assert(out@ =~= t@.take(i as int));
    }
    assert(t@.take(t.len() as int) =~= t@);
    out
}

/// The records kept by the scan.
pub open spec fn records_view(kept: Seq<bool>, ts: Seq<i64>, tags: Seq<Vec<CmdTag>>) -> Seq<ScanRecord> {
    Seq::new(kept.len(), |i: int| ScanRecord { kept: kept[i], timestamp: ts[i], tags: tags[i]@ })
}

/// The window of the first `end` records for a command at `now`.
fn build_window(kept: &Vec<bool>, ts: &Vec<i64>, tags: &Vec<Vec<CmdTag>>, end: usize, now: i64) -> (w: Vec<Vec<CmdTag>>)
    requires
        kept.len() == ts.len(),
        kept.len() == tags.len(),
        end <= kept.len(),
    ensures
        window_view(w@) == window_of(records_view(kept@, ts@, tags@).take(end as int), now),
{
    let ghost recs = records_view(kept@, ts@, tags@);
    let mut w: Vec<Vec<CmdTag>> = Vec::new();
    let mut j: usize = 0;
    while j < end
        invariant
            kept.len() == ts.len(),
            kept.len() == tags.len(),
            end <= kept.len(),
            recs == records_view(kept@, ts@, tags@),
            j <= end,
            window_view(w@) == window_of(recs.take(j as int), now),
        decreases end - j,
    {
        assert(recs.take(j + 1).drop_last() =~= recs.take(j as int));
        assert(recs.take(j + 1).last() == recs[j as int]);
        if kept[j] && (now as i128) - (ts[j] as i128) <= 300 {
            w.push(copy_tags(&tags[j]));
        }
        assert(window_view(w@) =~= window_of(recs.take(j + 1), now));
        j += 1;
    }
    w
}

/// A copy of `v`.
fn copy_strings(v: &Vec<String>) -> (out: Vec<String>)
    ensures
        strings_view(out@) == strings_view(v@),
{
    let mut out: Vec<String> = Vec::new();
    let mut i: usize = 0;
    while i < v.len()
        invariant
            i <= v.len(),
            strings_view(out@) == strings_view(v@.take(i as int)),
        decreases v.len() - i,
    {
        let c = v[i].clone();
        assert(c@ == v@[i as int]@);
        let ghost before = out@;
        out.push(c);
        assert(out@ == before.push(c));
        assert(strings_view(out@) =~= strings_view(before).push(c@));
        assert(v@.take(i + 1) =~= v@.take(i as int).push(v@[i as int]));
        assert(strings_view(v@.take(i + 1)) =~= strings_view(v@.take(i as int)).push(
            v@[i as int]@,
        ));
        i += 1;
    }
    assert(v@.take(v.len() as int) =~= v@);
    out
}

/// A copy of `f`.
pub fn clone_finding(f: &IntrusionFinding) -> (out: IntrusionFinding)
    ensures
        out@ == f@,
{
    IntrusionFinding {
        command: f.command.clone(),
        score: f.score,
        reasons: copy_strings(&f.reasons),
        timestamp: f.timestamp,
        user: f.user.clone(),
        user_type: f.user_type.clone(),
    }
}

/// The rules that command `k` of the time-ordered history triggers, given
/// its lower-cased text, its tags and its window.
fn rules_for(
    lower: &Vec<char>,
    tags: &Vec<CmdTag>,
    window: &Vec<Vec<CmdTag>>,
    config: &IdsConfig,
) -> (rules: Vec<Rule>)
    requires
        tags@ == tags_spec(lower@),
    ensures
        rules@ == unsuppressed(
            base_rules_spec(lower@) + rule_if(
                has_tag(tags_spec(lower@), CmdTag::Exec) && recon_download_exec(
                    window_view(window@),
                ),
                Rule::ReconDownloadExec,
            ) + rule_if(
                has_tag(tags_spec(lower@), CmdTag::Exec) && sudo_then_shell(window_view(window@)),
                Rule::SudoShell,
            ),
            config@.suppress,
        ),
        rules@.len() <= 11,
{
    let mut all = base_rules(lower);
    let exec = has_tag_exec(tags, CmdTag::Exec);
    let rde = exec && sequence_recon_download_exec(window);
    push_if(&mut all, rde, Rule::ReconDownloadExec);
    let sudo = exec && sequence_sudo_shell(window);
    push_if(&mut all, sudo, Rule::SudoShell);
    apply_suppression(&all, &config.suppress_rules)
}

/// The intrusion findings in the history `entries`, given the detection
/// settings and the name of the current user (who is credited with commands
/// that record no user).
///
/// The commands are examined in time order (a stable sort by timestamp);
/// blank and allowlisted commands are skipped.  Each other command gets a
/// finding when it triggers a rule that is not switched off: the rules on the
/// command itself, and the sequence rules over the window of examined
/// commands run at most 300 seconds before it (itself included).  The
/// findings come highest score first, and among equal scores latest first
/// (a stable sort).
pub fn detect_intrusions(entries: &[Entry], config: &IdsConfig, current_user: &str) -> (out: Vec<IntrusionFinding>)
    ensures
        findings_view(out@) == intrusions(entries_view(entries@), config@, current_user@),
        forall|a: int, b: int| 0 <= a < b < out@.len() ==> finding_order(#[trigger] out@[a]@, #[trigger] out@[b]@),
{
    let ghost ev = entries_view(entries@);
    let ghost cfg = config@;
    let n = entries.len();
    let mut keys: Vec<Vec<i128>> = Vec::new();
    let mut i: usize = 0;
    while i < n
        invariant
            n == entries@.len(),
            ev == entries_view(entries@),
            i <= n,
            keys_view(keys@) == time_keys(ev).take(i as int),
        decreases n - i,
    {
        let mut key: Vec<i128> = Vec::new();
        key.push(entries[i].timestamp as i128);
        assert(key@ =~= seq![ev[i as int].timestamp as i128]);
        let ghost before = keys@;
        keys.push(key);
        assert(keys_view(keys@) =~= keys_view(before).push(key@));
        assert(time_keys(ev).take(i + 1) =~= time_keys(ev).take(i as int).push(
            time_keys(ev)[i as int],
        ));
        i += 1;
    }
    assert(time_keys(ev).take(n as int) =~= time_keys(ev));
    let p = stable_order(&keys, false);
    let ghost ordered = reorder(ev, p@);
    let mut kept_v: Vec<bool> = Vec::new();
    let mut ts_v: Vec<i64> = Vec::new();
    let mut tags_v: Vec<Vec<CmdTag>> = Vec::new();
    let mut cands: Vec<IntrusionFinding> = Vec::new();
    let mut k: usize = 0;
    while k < n
        invariant
            n == entries@.len(),
            ev == entries_view(entries@),
            cfg == config@,
            p@.len() == n,
            forall|a: int| 0 <= a < n ==> #[trigger] p@[a] < n,
            ordered == reorder(ev, p@),
            k <= n,
            kept_v@.len() == k,
            ts_v@.len() == k,
            tags_v@.len() == k,
            records_view(kept_v@, ts_v@, tags_v@) == ordered.take(k as int).map_values(
                |x: EntryView| scan_record(x, cfg),
            ),
            findings_view(cands@) == candidates(ordered, k as int, cfg, current_user@),
        decreases n - k,
    {
        let e = &entries[p[k]];
        assert(e@ == ordered[k as int]);
        let raw = trim_chars(&chars_of(e.command.as_str()));
        let lower = lowercase_chars(&raw);
        let kept = raw.len() > 0 && !is_allowlisted(&lower, config);
        let tags = classify_tags(&lower);
        kept_v.push(kept);
        ts_v.push(e.timestamp);
        let ghost tags_copy = tags@;
        tags_v.push(tags);
        let ghost recs = records_upto(ordered, k as int, cfg);
        assert(records_view(kept_v@, ts_v@, tags_v@) =~= recs) by {
            let prev = ordered.take(k as int).map_values(|x: EntryView| scan_record(x, cfg));
            assert(ordered.take(k + 1) =~= ordered.take(k as int).push(ordered[k as int]));
            assert(recs =~= prev.push(scan_record(ordered[k as int], cfg)));
            assert forall|a: int| 0 <= a < k implies #[trigger] records_view(
                kept_v@,
                ts_v@,
                tags_v@,
            )[a] == prev[a] by {
                assert(records_view(kept_v@, ts_v@, tags_v@)[a] == records_view(
                    kept_v@.take(k as int),
                    ts_v@.take(k as int),
                    tags_v@.take(k as int),
                )[a]);
            }
        }
        let ghost f_spec = finding_at(ordered, k as int, cfg, current_user@);
        let ghost before = findings_view(cands@);
        if kept {
            let window = build_window(&kept_v, &ts_v, &tags_v, k + 1, e.timestamp);
            assert(recs.take(k + 1) =~= recs);
            let rules = rules_for(&lower, &tags_v[k], &window, config);
            assert(rules@ == rules_at(ordered, k as int, cfg));
            if rules.len() > 0 {
                let user = if e.user.as_str().is_empty() {
                    current_user.to_string()
                } else {
                    e.user.clone()
                };
                let user_type = classify_user(user.as_str()).to_string();
                let finding = IntrusionFinding {
                    command: string_from_chars(&raw),
                    score: total_score(&rules),
                    reasons: reason_strings(&rules),
                    timestamp: e.timestamp,
                    user,
                    user_type,
                };
                assert(Some(finding@) == f_spec);
                cands.push(finding);
                assert(findings_view(cands@) =~= before.push(finding@));
            } else {
                assert(f_spec is None);
            }
        } else {
            assert(f_spec is None);
        }
        k += 1;
        assert(findings_view(cands@) =~= candidates(ordered, k as int, cfg, current_user@));
    }
    let ghost all = candidates(ordered, n as int, cfg, current_user@);
    let mut fkeys: Vec<Vec<i128>> = Vec::new();
    let mut j: usize = 0;
    while j < cands.len()
        invariant
            findings_view(cands@) == all,
            j <= cands.len(),
            keys_view(fkeys@) == finding_keys(all).take(j as int),
        decreases cands.len() - j,
    {
        let mut key: Vec<i128> = Vec::new();
        key.push(cands[j].score as i128);
        key.push(cands[j].timestamp as i128);
        assert(cands@[j as int]@ == all[j as int]);
        assert(key@ =~= seq![all[j as int].score as i128, all[j as int].timestamp as i128]);
        let ghost before = fkeys@;
        fkeys.push(key);
        assert(keys_view(fkeys@) =~= keys_view(before).push(key@));
        assert(finding_keys(all).take(j + 1) =~= finding_keys(all).take(j as int).push(
            finding_keys(all)[j as int],
        ));
        j += 1;
    }
    assert(finding_keys(all).take(cands.len() as int) =~= finding_keys(all));
    let q = stable_order(&fkeys, true);
    let mut out: Vec<IntrusionFinding> = Vec::new();
    let mut m: usize = 0;
    while m < q.len()
        invariant
            findings_view(cands@) == all,
            q@.len() == all.len(),
            forall|a: int| 0 <= a < q@.len() ==> #[trigger] q@[a] < all.len(),
            m <= q.len(),
            findings_view(out@) == reorder(all, q@).take(m as int),
        decreases q.len() - m,
    {
        let f = clone_finding(&cands[q[m]]);
        assert(f@ == all[q@[m as int] as int]);
        let ghost before = out@;
        out.push(f);
        assert(findings_view(out@) =~= findings_view(before).push(f@));
        assert(reorder(all, q@).take(m + 1) =~= reorder(all, q@).take(m as int).push(
            reorder(all, q@)[m as int],
        ));
        m += 1;
    }
    assert(reorder(all, q@).take(q.len() as int) =~= reorder(all, q@));
    assert(intrusions_with_orders(ev, cfg, current_user@, p@, q@));
    proof {
        let cands_v = candidates(reorder(ev, p@), ev.len() as int, cfg, current_user@);
        assert forall|k: int| 0 <= k < cands_v.len() implies i128::MIN <= #[trigger] cands_v[k].score
            <= i128::MAX by {
            assert(cands_v[k] == cands@[k]@);
        }
        lemma_findings_ordered(cands_v, q@);
        assert forall|a: int, b: int| 0 <= a < b < out@.len() implies finding_order(
            #[trigger] out@[a]@,
            #[trigger] out@[b]@,
        ) by {
            assert(out@[a]@ == findings_view(out@)[a]);
            assert(out@[b]@ == findings_view(out@)[b]);
            assert(finding_order(reorder(cands_v, q@)[a], reorder(cands_v, q@)[b]));
        }
        lemma_sorted_order_is(time_keys(ev), false, p@);
        lemma_sorted_order_is(
            finding_keys(candidates(reorder(ev, p@), ev.len() as int, cfg, current_user@)),
            true,
            q@,
        );
    }
    out
}

// ---------------------------------------------------------------------------
// What every finding is made of
// ---------------------------------------------------------------------------

/// `f` is the finding made of the entry `e` on behalf of `user`: the entry's
/// trimmed command (never blank), its time, a positive score with at least
/// one reason, and the entry's user (the current user when the entry names
/// none) with the kind of that account.
pub open spec fn finding_of_entry(f: FindingView, e: EntryView, user: Seq<char>) -> bool {
    let u = if e.user.len() == 0 {
        user
    } else {
        e.user
    };
    &&& f.command == raw_of(e)
    &&& f.command.len() > 0
    &&& f.timestamp == e.timestamp
    &&& f.score > 0
    &&& f.reasons.len() > 0
    &&& f.user == u
    &&& f.user_type == user_type_of(u)
}

/// `src` gives, for each of the findings `fs`, the position in `es` of the
/// entry it was made of, a different entry for each finding.
pub open spec fn findings_from_entries(fs: Seq<FindingView>, es: Seq<EntryView>, user: Seq<char>, src: Seq<int>) -> bool {
    &&& src.len() == fs.len()
    &&& forall|a: int|
        0 <= a < src.len() ==> 0 <= #[trigger] src[a] < es.len() && finding_of_entry(fs[a], es[src[a]], user)
    &&& forall|a: int, b: int| 0 <= a < b < src.len() ==> #[trigger] src[a] != #[trigger] src[b]
}

/// The rules left after switching some off are those of the list that are
/// not switched off.
proof fn lemma_unsuppressed_contains(rules: Seq<Rule>, suppress: Seq<Seq<char>>, x: Rule)
    ensures
        unsuppressed(rules, suppress).contains(x) <==> rules.contains(x) && !is_suppressed(x, suppress),
    decreases rules.len(),
{
    if rules.len() > 0 {
        let init = rules.drop_last();
        lemma_unsuppressed_contains(init, suppress, x);
        lemma_rules_concat_contains(init, seq![rules.last()], x);
        assert(rules =~= init + seq![rules.last()]);
        let prev = unsuppressed(init, suppress);
        if !is_suppressed(rules.last(), suppress) {
            lemma_rules_concat_contains(prev, seq![rules.last()], x);
            assert(prev.push(rules.last()) =~= prev + seq![rules.last()]);
        }
        if seq![rules.last()].contains(x) {
            assert(seq![rules.last()][0] == x);
        }
    } else {
        assert(!rules.contains(x));
    }
}

/// A command of the history that is examined (not blank, not allowlisted)
/// and that, in lower case, runs a downloader (`curl ` or `wget `) piped into
/// `sh` or `bash` is flagged, with the reason `download and execute` among
/// its reasons and a score of at least 12, unless the rule
/// `highrisk.remote_exec` is switched off.
pub proof fn lemma_download_pipe_flagged(ordered: Seq<EntryView>, k: int, cfg: IdsConfigView, user: Seq<char>)
    requires
        0 <= k < ordered.len(),
        is_kept(ordered[k], cfg),
        contains_seq(lower_of(ordered[k]), "curl "@) || contains_seq(lower_of(ordered[k]), "wget "@),
        contains_seq(lower_of(ordered[k]), "| sh"@) || contains_seq(lower_of(ordered[k]), "| bash"@)
            || contains_seq(lower_of(ordered[k]), "|bash"@),
        forall|j: int| 0 <= j < cfg.suppress.len() ==> #[trigger] cfg.suppress[j] != "highrisk.remote_exec"@,
    ensures
        finding_at(ordered, k, cfg, user) matches Some(f) && f.reasons.contains("download and execute"@)
            && f.score >= 12,
{
    let e = ordered[k];
    let l = lower_of(e);
    lemma_download_exec_rule(l);
    let w = window_of(records_upto(ordered, k, cfg), e.timestamp);
    let exec = has_tag(tags_spec(l), CmdTag::Exec);
    let extra = rule_if(exec && recon_download_exec(w), Rule::ReconDownloadExec) + rule_if(
        exec && sudo_then_shell(w),
        Rule::SudoShell,
    );
    let all = base_rules_spec(l) + extra;
    assert(all == base_rules_spec(l) + rule_if(exec && recon_download_exec(w), Rule::ReconDownloadExec)
        + rule_if(exec && sudo_then_shell(w), Rule::SudoShell));
    lemma_rules_concat_contains(base_rules_spec(l), extra, Rule::DownloadExec);
    assert(!is_suppressed(Rule::DownloadExec, cfg.suppress));
    lemma_unsuppressed_contains(all, cfg.suppress, Rule::DownloadExec);
    let rules = rules_at(ordered, k, cfg);
    assert(rules == unsuppressed(all, cfg.suppress));
    let i = choose|i: int| 0 <= i < rules.len() && rules[i] == Rule::DownloadExec;
    assert(reasons_of(rules)[i] == "download and execute"@);
    lemma_score_sum_at_least(rules, i);
}

/// The total score of a list of rules is at least the score of each of
/// them.
proof fn lemma_score_sum_at_least(rules: Seq<Rule>, i: int)
    requires
        0 <= i < rules.len(),
    ensures
        score_sum(rules) >= rule_score(rules[i]),
    decreases rules.len(),
{
    lemma_score_sum_positive(rules.drop_last());
    if i < rules.len() - 1 {
        lemma_score_sum_at_least(rules.drop_last(), i);
    }
}

/// `src` gives, for each of the findings `cs`, the position among the first
/// `n` commands of `ordered` of the command it was made of, in increasing
/// positions.
pub open spec fn made_in_order(cs: Seq<FindingView>, ordered: Seq<EntryView>, n: int, user: Seq<char>, src: Seq<int>) -> bool {
    &&& src.len() == cs.len()
    &&& forall|a: int|
        0 <= a < src.len() ==> 0 <= #[trigger] src[a] < n && finding_of_entry(cs[a], ordered[src[a]], user)
    &&& forall|a: int, b: int| 0 <= a < b < src.len() ==> #[trigger] src[a] < #[trigger] src[b]
}

/// A non-empty list of rules has a positive total score.
proof fn lemma_score_sum_positive(rules: Seq<Rule>)
    ensures
        score_sum(rules) >= 0,
        rules.len() > 0 ==> score_sum(rules) > 0,
    decreases rules.len(),
{
    if rules.len() > 0 {
        lemma_score_sum_positive(rules.drop_last());
    }
}

/// A finding made for command `k` is made of that command's entry.
proof fn lemma_finding_at_of_entry(ordered: Seq<EntryView>, k: int, cfg: IdsConfigView, user: Seq<char>)
    requires
        finding_at(ordered, k, cfg, user) is Some,
    ensures
        finding_of_entry(finding_at(ordered, k, cfg, user)->0, ordered[k], user),
{
    lemma_score_sum_positive(rules_at(ordered, k, cfg));
}

/// The findings for the first `n` commands of `ordered` are made of those
/// commands, in increasing positions.
proof fn lemma_candidates_from_entries(ordered: Seq<EntryView>, n: int, cfg: IdsConfigView, user: Seq<char>)
    requires
        0 <= n <= ordered.len(),
    ensures
        candidates(ordered, n, cfg, user).len() <= n,
        exists|src: Seq<int>| #[trigger] made_in_order(candidates(ordered, n, cfg, user), ordered, n, user, src),
    decreases n,
{
    if n > 0 {
        lemma_candidates_from_entries(ordered, n - 1, cfg, user);
        let prev = candidates(ordered, n - 1, cfg, user);
        let cs = candidates(ordered, n, cfg, user);
        let src0 = choose|src: Seq<int>| #[trigger] made_in_order(prev, ordered, n - 1, user, src);
        match finding_at(ordered, n - 1, cfg, user) {
            Some(f) => {
                lemma_finding_at_of_entry(ordered, n - 1, cfg, user);
                let src = src0.push(n - 1);
                assert(cs == prev + seq![f]);
                assert forall|a: int| 0 <= a < src.len() implies 0 <= #[trigger] src[a] < n && finding_of_entry(
                    cs[a],
                    ordered[src[a]],
                    user,
                ) by {
                    if a < prev.len() {
                        assert(src[a] == src0[a]);
                    }
                }
                assert forall|a: int, b: int| 0 <= a < b < src.len() implies #[trigger] src[a] < #[trigger] src[b] by {
                    assert(src[a] == src0[a]);
                    if b < prev.len() {
                        assert(src[b] == src0[b]);
                    }
                }
                assert(made_in_order(cs, ordered, n, user, src));
            },
            None => {
                assert(cs =~= prev);
                assert(made_in_order(cs, ordered, n, user, src0));
            },
        }
    } else {
        assert(made_in_order(candidates(ordered, n, cfg, user), ordered, n, user, Seq::<int>::empty()));
    }
}

/// A stable order lists each position at most once.
proof fn lemma_order_distinct(keys: Seq<Seq<i128>>, desc: bool, p: Seq<usize>, a: int, b: int)
    requires
        is_stable_order(keys, desc, p),
        0 <= a < p.len(),
        0 <= b < p.len(),
        a != b,
    ensures
        p[a] != p[b],
{
    if a < b {
        assert(key_before(keys, desc, p[a] as int, p[b] as int));
    } else {
        assert(key_before(keys, desc, p[b] as int, p[a] as int));
    }
}

/// Each finding of a scan is made of an entry of the history, a different
/// one for each finding: it carries that entry's trimmed command (never
/// blank) and its time, a positive score with at least one reason, and the
/// entry's user (the current user when the entry names none) with the kind
/// of that account.  So there are no more findings than entries.
pub proof fn lemma_intrusions_from_entries(es: Seq<EntryView>, cfg: IdsConfigView, user: Seq<char>)
    requires
        es.len() <= usize::MAX,
    ensures
        intrusions(es, cfg, user).len() <= es.len(),
        exists|src: Seq<int>| findings_from_entries(intrusions(es, cfg, user), es, user, src),
{
    let tk = time_keys(es);
    crate::order::lemma_sorted_order_exists(tk, false);
    let p = sorted_order(tk, false);
    let ordered = reorder(es, p);
    let n = es.len() as int;
    lemma_candidates_from_entries(ordered, n, cfg, user);
    let cs = candidates(ordered, n, cfg, user);
    let src_c = choose|src: Seq<int>| #[trigger] made_in_order(cs, ordered, n, user, src);
    let fk = finding_keys(cs);
    crate::order::lemma_sorted_order_exists(fk, true);
    let q = sorted_order(fk, true);
    let fs = intrusions(es, cfg, user);
    assert(fs == reorder(cs, q));
    let src = Seq::new(q.len(), |a: int| p[src_c[q[a] as int]] as int);
    assert forall|a: int| 0 <= a < src.len() implies 0 <= #[trigger] src[a] < es.len() && finding_of_entry(
        fs[a],
        es[src[a]],
        user,
    ) by {
        let i = q[a] as int;
        assert(0 <= src_c[i] < n);
        assert(ordered[src_c[i]] == es[p[src_c[i]] as int]);
    }
    assert forall|a: int, b: int| 0 <= a < b < src.len() implies #[trigger] src[a] != #[trigger] src[b] by {
        lemma_order_distinct(fk, true, q, a, b);
        let i = q[a] as int;
        let j = q[b] as int;
        assert(src_c[i] != src_c[j]) by {
            if i < j {
                assert(src_c[i] < src_c[j]);
            } else {
                assert(src_c[j] < src_c[i]);
            }
        }
        lemma_order_distinct(tk, false, p, src_c[i], src_c[j]);
    }
    assert(findings_from_entries(fs, es, user, src));
}

/// The severity of a command's outcome: 0 for success, 1 when unknown, 2 for
/// an error.
pub open spec fn status_score(status: CommandStatus) -> i32 {
    match status {
        CommandStatus::Success => 0,
        CommandStatus::Unknown => 1,
        CommandStatus::Error(_) => 2,
    }
}

/// The severity of a command's outcome.
pub fn status_to_score(status: &CommandStatus) -> (score: i32)
    ensures
        score == status_score(*status),
{
    match status {
        CommandStatus::Success => 0,
        CommandStatus::Unknown => 1,
        CommandStatus::Error(_) => 2,
    }
}

} // verus!
