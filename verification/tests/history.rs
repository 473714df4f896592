use basket::storage::history::{
    parse_bash_line, parse_history_lines, parse_zsh_line, plan_history_import, realtime_record,
    ImportStep,
};
use basket::storage::db::CommandStatus;
use basket::util::helpers::ShellType;

#[test]
fn parse_zsh_history_lines() {
    let mut entries: Vec<(i64, String)> = Vec::new();
    let mut current: Option<i64> = None;

    parse_zsh_line(": 1709933342:0;ls -la", &mut entries, &mut current);
    parse_zsh_line("echo second", &mut entries, &mut current);

    assert_eq!(entries.len(), 2);
    assert_eq!(entries[0].0, 1709933342);
    assert_eq!(entries[0].1, "ls -la");
    assert_eq!(entries[1].0, 1709933342);
    assert_eq!(entries[1].1, "echo second");
}

#[test]
fn parse_bash_history_lines() {
    let mut entries: Vec<(i64, String)> = Vec::new();
    let mut current: Option<i64> = None;

    parse_bash_line("#1709933342", &mut entries, &mut current);
    parse_bash_line("ls -la", &mut entries, &mut current);

    assert_eq!(entries.len(), 1);
    assert_eq!(entries[0].0, 1709933342);
    assert_eq!(entries[0].1, "ls -la");
    assert!(current.is_none());
}

#[test]
fn parse_zsh_line_without_timestamp_uses_default() {
    let mut entries: Vec<(i64, String)> = Vec::new();
    let mut current: Option<i64> = None;

    parse_zsh_line("orphan command", &mut entries, &mut current);

    assert_eq!(entries.len(), 1);
    assert_eq!(entries[0].0, 0);
    assert_eq!(entries[0].1, "orphan command");
}

#[test]
fn parse_bash_line_ignores_when_no_timestamp() {
    let mut entries: Vec<(i64, String)> = Vec::new();
    let mut current: Option<i64> = None;

    parse_bash_line("ls -la", &mut entries, &mut current);

    assert!(entries.is_empty());
}

#[test]
fn parse_zsh_line_ignores_malformed_timestamp() {
    let mut entries: Vec<(i64, String)> = Vec::new();
    let mut current: Option<i64> = None;

    parse_zsh_line(": not-a-ts:0;ls", &mut entries, &mut current);

    assert!(entries.is_empty());
}

#[test]
fn zsh_command_is_trimmed_and_timestamp_kept() {
    let mut entries: Vec<(i64, String)> = Vec::new();
    let mut current: Option<i64> = None;
    parse_zsh_line(": 12:0;  git status  ", &mut entries, &mut current);
    assert_eq!(entries, vec![(12, "git status".to_string())]);
    assert_eq!(current, Some(12));
}

#[test]
fn bash_timestamp_lines_may_have_spaces() {
    let mut entries: Vec<(i64, String)> = Vec::new();
    let mut current: Option<i64> = None;
    parse_bash_line("# 77 ", &mut entries, &mut current);
    assert_eq!(current, Some(77));
    parse_bash_line("#nope", &mut entries, &mut current);
    assert_eq!(current, Some(77));
    parse_bash_line("pwd", &mut entries, &mut current);
    assert_eq!(entries, vec![(77, "pwd".to_string())]);
}

#[test]
fn history_files_are_read_line_by_line() {
    let zsh = ShellType::ZSH("/tmp/.zsh_history".to_string());
    let lines = vec![
        ": 1709933342:0;ls -la".to_string(),
        ": 1709933343:0;whoami".to_string(),
    ];
    assert_eq!(
        parse_history_lines(&zsh, &lines),
        vec![(1709933342, "ls -la".to_string()), (1709933343, "whoami".to_string())]
    );
    let bash = ShellType::BASH("/tmp/.bash_history".to_string());
    let lines = vec![
        "#1709933342".to_string(),
        "ls -la".to_string(),
        "#1709933343".to_string(),
        "whoami".to_string(),
    ];
    assert_eq!(
        parse_history_lines(&bash, &lines),
        vec![(1709933342, "ls -la".to_string()), (1709933343, "whoami".to_string())]
    );
}

#[test]
fn import_skips_entries_already_stored() {
    let entries = vec![(1709933342, "ls -la".to_string()), (1709933343, "whoami".to_string())];
    let steps = plan_history_import(&entries, 1709933342);
    assert_eq!(steps.len(), 1);
    match &steps[0] {
        ImportStep::Insert { timestamp, command, date } => {
            assert_eq!(*timestamp, 1709933343);
            assert_eq!(command, "whoami");
            assert_eq!(date, "2024-03-08 21:29:03");
        }
        _ => panic!("expected an insert"),
    }
    assert_eq!(plan_history_import(&entries, 0).len(), 2);
}

#[test]
fn import_reports_timestamps_without_a_date() {
    let entries = vec![(i64::MAX, "far future".to_string())];
    let steps = plan_history_import(&entries, 0);
    assert_eq!(steps.len(), 1);
    assert!(matches!(steps[0], ImportStep::InvalidTimestamp(t) if t == i64::MAX));
}

#[test]
fn save_history_realtime_inserts_and_handles_invalid_timestamp() {
    let record = realtime_record("realtime", 0, 1709933342).expect("record");
    assert_eq!(record.command, "realtime");
    assert_eq!(record.date, "2024-03-08 21:29:02");
    assert_eq!(record.status, CommandStatus::Success);
    let err = realtime_record("realtime", 0, i64::MAX).unwrap_err();
    assert_eq!(err, "Invalid timestamp");
}

#[test]
fn exit_codes_map_to_statuses() {
    assert_eq!(realtime_record("a", 3, 10).unwrap().status, CommandStatus::Error(3));
    assert_eq!(realtime_record("a", -1, 10).unwrap().status, CommandStatus::Unknown);
    assert_eq!(realtime_record("a", 0, 10).unwrap().date, "1970-01-01 00:00:10");
}

#[test]
fn importing_again_adds_nothing() {
    let entries = vec![(1709933342, "ls -la".to_string()), (1709933343, "whoami".to_string())];
    assert!(plan_history_import(&entries, 1709933343).is_empty());
    assert!(plan_history_import(&entries, 1709999999).is_empty());
}
