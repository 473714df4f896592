use basket::options::{parse_option, ProgramOption};
use basket::storage::config::{config_or_default, config_path, AppConfig};
use basket::ui::layout::{
    detail_dialog_area, filter_prompt_area, legend_height, legend_window, menu_footer,
    overview_footer, table_row_texts, truncate_chars, watcher_text, Area,
};
use basket::ui::state::OverviewView;
use basket::util::logging::{console_table_lines, status_heading, Status};

#[test]
fn menu_answers() {
    assert_eq!(parse_option(" 1\n"), Some(ProgramOption::Overview));
    assert_eq!(parse_option("2"), Some(ProgramOption::Realtime));
    assert_eq!(parse_option("3 "), Some(ProgramOption::Exit));
    assert_eq!(parse_option("4"), None);
    assert_eq!(parse_option("12"), None);
}

#[test]
fn config_location_and_defaults() {
    assert_eq!(config_path(Some("/x/c.json".to_string()), Some("/h".to_string())), "/x/c.json");
    assert_eq!(config_path(None, Some("/h".to_string())), "/h/.basket_config.json");
    assert_eq!(config_path(None, None), "/home/unknown/.basket_config.json");
    assert_eq!(config_or_default(None), AppConfig::default());
    assert_eq!(config_or_default(Some(AppConfig { theme_index: 4 })).theme_index, 4);
}

#[test]
fn headings() {
    assert_eq!(status_heading(Status::SUCCESS), "Success!");
    assert_eq!(status_heading(Status::ERROR), "Error!");
    assert_eq!(status_heading(Status::WARNING), "Warning!");
    assert_eq!(status_heading(Status::INFO), "Info!");
}

#[test]
fn legend_window_scrolls_to_the_selection() {
    let (start, end, title) = legend_window(10, 6, 7);
    assert_eq!((start, end), (4, 8));
    assert_eq!(title, "Legend 5-8 / 10");
    let (start, end, title) = legend_window(3, 6, 2);
    assert_eq!((start, end), (0, 3));
    assert_eq!(title, "Legend");
    let (start, end, _) = legend_window(10, 6, 50);
    assert_eq!((start, end), (6, 10));
    assert_eq!(legend_height(20, 2), 3);
    assert_eq!(legend_height(20, 30), 14);
    assert_eq!(legend_height(6, 30), 0);
    assert_eq!(legend_height(7, 30), 3);
}

#[test]
fn table_texts_mark_the_selection() {
    let rows = vec![
        vec!["ls".to_string(), "3".to_string()],
        vec!["git".to_string()],
    ];
    let texts = table_row_texts(&rows, 9, true);
    assert_eq!(texts[0], vec!["  ls".to_string(), "3".to_string()]);
    assert_eq!(texts[1], vec!["➤ git".to_string(), String::new()]);
    let texts = table_row_texts(&[], 0, true);
    assert_eq!(texts, vec![vec!["(no data)".to_string(), String::new()]]);
}

#[test]
fn popups_are_centred() {
    let screen = Area { x: 0, y: 0, width: 120, height: 40 };
    assert_eq!(filter_prompt_area(screen), Area { x: 30, y: 18, width: 60, height: 3 });
    assert_eq!(detail_dialog_area(screen, true), Area { x: 22, y: 15, width: 76, height: 9 });
    let small = Area { x: 2, y: 1, width: 20, height: 5 };
    assert_eq!(detail_dialog_area(small, false), Area { x: 2, y: 1, width: 30, height: 7 });
}

#[test]
fn footers_and_captions() {
    assert_eq!(
        overview_footer(OverviewView::Tables, false, "", "Gold"),
        "t: tables  c: charts  ←/→: table  ↑/↓: row  enter: details  s: sort(Z->A)  /: filter(none)  x: clear  p: theme(Gold)  b: back  q: quit"
    );
    assert_eq!(
        overview_footer(OverviewView::Charts, true, "git", "Gold"),
        "t: tables  c: charts  ←/→: chart  ↑/↓: slice  p: theme(Gold)  b: back  q: quit"
    );
    assert_eq!(menu_footer("Mint"), "Use Up/Down + Enter. p: theme (Mint).  q: quit.");
    assert_eq!(
        watcher_text("⠋"),
        "⠋  Realtime watcher is running\nListening for new commands..."
    );
    assert_eq!(truncate_chars("äbcdef", 3), "äbc");
    assert_eq!(truncate_chars("ab", 3), "ab");
}

#[test]
fn console_table_is_laid_out_in_columns() {
    let data = vec![
        vec!["ls".to_string(), "2".to_string()],
        vec!["git".to_string(), "1".to_string()],
    ];
    let lines = console_table_lines("Commands", &data);
    assert_eq!(
        lines,
        vec![
            "_".repeat(24),
            "Command           |           Occurrence".to_string(),
            "_".repeat(24),
            "ls            |           2         ".to_string(),
            "git           |           1         ".to_string(),
        ]
    );
    let wide = vec![vec!["ü".to_string(), "12".to_string()]];
    let lines = console_table_lines("é", &wide);
    assert_eq!(lines[0], "______");
    assert_eq!(lines[3], "ü            |           12        ");
    assert_eq!(console_table_lines("", &[]), vec![String::new(), "Command           |           Occurrence".to_string(), String::new()]);
}
