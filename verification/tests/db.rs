use basket::storage::db::{
    db_path, has_user_column, parse_status, status_to_text, stored_status, CommandStatus,
};

#[test]
fn get_all_entries_parses_status() {
    for status in [CommandStatus::Success, CommandStatus::Error(2), CommandStatus::Unknown] {
        assert_eq!(parse_status(&status_to_text(&status)), status);
    }
}

#[test]
fn get_all_entries_handles_unknown_status_strings() {
    assert_eq!(parse_status("Error(not-a-number)"), CommandStatus::Error(-1));
    assert_eq!(parse_status("Weird"), CommandStatus::Unknown);
}

#[test]
fn status_texts() {
    assert_eq!(status_to_text(&CommandStatus::Success), "Success");
    assert_eq!(status_to_text(&CommandStatus::Unknown), "Unknown");
    assert_eq!(status_to_text(&CommandStatus::Error(-7)), "Error(-7)");
    assert_eq!(status_to_text(&CommandStatus::Error(i32::MIN)), "Error(-2147483648)");
}

#[test]
fn status_round_trips_at_the_edges() {
    for code in [0, 1, -1, 42, i32::MAX, i32::MIN] {
        let status = CommandStatus::Error(code);
        assert_eq!(parse_status(&status_to_text(&status)), status);
    }
}

#[test]
fn odd_error_texts() {
    assert_eq!(parse_status("Error(Error(5))"), CommandStatus::Error(5));
    assert_eq!(parse_status("Error(5)))"), CommandStatus::Error(5));
    assert_eq!(parse_status("Error(+5)"), CommandStatus::Error(5));
    assert_eq!(parse_status("Error()"), CommandStatus::Error(-1));
    assert_eq!(parse_status("success"), CommandStatus::Unknown);
}

#[test]
fn stored_status_defaults_to_unknown() {
    assert_eq!(stored_status(None), "Unknown");
    assert_eq!(stored_status(Some(CommandStatus::Error(3))), "Error(3)");
}

#[test]
fn db_path_prefers_the_variable() {
    assert_eq!(db_path(Some("/tmp/x.db".to_string())), "/tmp/x.db");
    assert_eq!(db_path(None), "/Users/yasinya/basket.db");
}

#[test]
fn user_column_is_found_by_name() {
    let cols = vec!["id".to_string(), "timestamp".to_string(), "user".to_string()];
    assert!(has_user_column(&cols));
    let cols = vec!["id".to_string(), "username".to_string()];
    assert!(!has_user_column(&cols));
}
