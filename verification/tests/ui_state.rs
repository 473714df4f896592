use basket::ui::state::Key;
use basket::ui::testing::TestState;

#[test]
fn handle_key_events_cover_menu_and_overview() {
    let menu_items = ["View overview", "Start realtime watcher", "Exit"];
    let mut state = TestState::new();

    assert_eq!(state.menu_index(), 0);
    state.handle_key(Key::Down, &menu_items);
    assert_eq!(state.menu_index(), 1);
    state.handle_key(Key::Up, &menu_items);
    assert_eq!(state.menu_index(), 0);
    state.handle_key(Key::Up, &menu_items);
    assert_eq!(state.menu_index(), menu_items.len() - 1);
    state.handle_key(Key::Down, &menu_items);
    assert_eq!(state.menu_index(), 0);

    state.handle_key(Key::Enter, &menu_items);
    assert_eq!(state.screen(), "overview");

    state.handle_key(Key::Char('c'), &menu_items);
    assert_eq!(
        state.overview_view(),
        basket::ui::testing::OverviewView::Charts
    );
    state.handle_key(Key::Char('t'), &menu_items);
    assert_eq!(
        state.overview_view(),
        basket::ui::testing::OverviewView::Tables
    );

    state.handle_key(Key::Char('s'), &menu_items);
    state.handle_key(Key::Char('/'), &menu_items);
    assert!(state.filter_input());

    let before = state.filter_buffer().to_string();
    state.handle_key(Key::Char('\u{7f}'), &menu_items);
    assert_eq!(state.filter_buffer(), before);

    state.handle_key(Key::Esc, &menu_items);
    assert!(!state.filter_input());

    state.handle_key(Key::Char('a'), &menu_items);
    state.handle_key(Key::Backspace, &menu_items);
    state.handle_key(Key::Enter, &menu_items);
    assert!(!state.filter_input());

    state.handle_key(Key::Left, &menu_items);
    state.handle_key(Key::Right, &menu_items);
    state.handle_key(Key::Up, &menu_items);
    state.handle_key(Key::Down, &menu_items);

    state.handle_key(Key::Char('b'), &menu_items);
    assert_eq!(state.screen(), "menu");

    state.handle_key(Key::Down, &menu_items);
    state.handle_key(Key::Enter, &menu_items);
    assert_eq!(state.screen(), "watcher");

    let mut already_started = TestState::new();
    already_started.set_menu_index(1);
    already_started.set_watcher_started(true);
    already_started.handle_key(Key::Enter, &menu_items);
    assert_eq!(already_started.screen(), "watcher");

    let mut error_state = TestState::new();
    error_state.handle_key(Key::Enter, &menu_items);
    assert_eq!(error_state.screen(), "overview");

    let mut error_refresh = TestState::new();
    error_refresh.handle_key_with_error(Key::Enter, &menu_items);
    assert_eq!(error_refresh.screen(), "error");
}

#[test]
fn handle_key_events_cover_error_and_exit_paths() {
    let menu_items = ["View overview", "Start realtime watcher", "Exit"];
    let mut state = TestState::new();

    let exit = state.handle_key(Key::Char('q'), &menu_items);
    assert!(exit.is_some());

    state.set_screen_overview();
    let exit = state.handle_key(Key::Char('q'), &menu_items);
    assert!(exit.is_some());

    state.set_screen_watcher();
    let exit = state.handle_key(Key::Char('q'), &menu_items);
    assert!(exit.is_some());

    state.set_screen_error("boom");
    let exit = state.handle_key(Key::Char('q'), &menu_items);
    assert!(exit.is_some());
}

#[test]
fn tick_app_updates_animated_state() {
    let mut state = TestState::new();
    let tick_rate = 1;
    let refresh_rate = 1;

    state.set_screen_overview();
    state.set_overview_view(basket::ui::testing::OverviewView::Charts);
    state.set_watcher_started(true);
    state.set_last_refresh_offset(10);
    state.set_last_tick_offset(10);
    state.tick(tick_rate, refresh_rate).expect("tick");
    assert!(state.chart_progress() > 0);

    state.set_screen_watcher();
    let before = state.watcher_spinner();
    state.set_last_tick_offset(10);
    state.tick(tick_rate, refresh_rate).expect("tick");
    assert!(state.watcher_spinner() != before);
}

#[test]
fn filter_typing_applies_trimmed_text() {
    let menu_items = ["View overview", "Start realtime watcher", "Exit"];
    let mut state = TestState::new();
    state.handle_key(Key::Enter, &menu_items);
    state.handle_key(Key::Char('/'), &menu_items);
    for c in [' ', 'g', 'i', 't', ' ', 'p', 'q'] {
        state.handle_key(Key::Char(c), &menu_items);
    }
    assert_eq!(state.filter_buffer(), " git pq");
    state.handle_key(Key::Backspace, &menu_items);
    state.handle_key(Key::Backspace, &menu_items);
    state.handle_key(Key::Enter, &menu_items);
    assert_eq!(state.filter_query(), "git");
    assert_eq!(state.table_selection(), [0, 0, 0]);
    state.handle_key(Key::Char('x'), &menu_items);
    assert_eq!(state.filter_query(), "");
}

#[test]
fn theme_key_cycles_through_all_themes() {
    let menu_items = ["View overview", "Start realtime watcher", "Exit"];
    let mut state = TestState::new();
    for i in 1..=15 {
        assert!(state.handle_key(Key::Char('p'), &menu_items).is_none());
        assert_eq!(state.theme_index(), i % 15);
    }
}

#[test]
fn selections_wrap_in_the_stand_in_tables() {
    let menu_items = ["View overview", "Start realtime watcher", "Exit"];
    let mut state = TestState::new();
    state.handle_key(Key::Enter, &menu_items);
    assert_eq!(state.screen(), "overview");
    state.handle_key(Key::Down, &menu_items);
    assert_eq!(state.table_selection(), [0, 0, 0]);
    state.handle_key(Key::Right, &menu_items);
    assert_eq!(state.table_index(), 1);
    state.handle_key(Key::Left, &menu_items);
    state.handle_key(Key::Left, &menu_items);
    assert_eq!(state.table_index(), 2);
    state.handle_key(Key::Char('c'), &menu_items);
    assert_eq!(state.chart_index(), 0);
    assert_eq!(state.chart_progress(), 0);
    state.handle_key(Key::Left, &menu_items);
    assert_eq!(state.chart_index(), 2);
    assert_eq!(state.chart_selection(), [0, 0, 0]);
}

#[test]
fn chart_animation_stops_when_fully_drawn() {
    let mut state = TestState::new();
    state.set_screen_overview();
    state.set_overview_view(basket::ui::testing::OverviewView::Charts);
    for _ in 0..20 {
        state.set_last_tick_offset(200);
        state.tick(120, 1000).expect("tick");
    }
    assert_eq!(state.chart_progress(), 100);
    state.set_last_tick_offset(50);
    let before = state.watcher_spinner();
    state.tick(120, 1000).expect("tick");
    assert_eq!(state.watcher_spinner(), before);
}
