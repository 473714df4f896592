//! A handle on the interface's state and its helpers for exercising them
//! without a terminal.  The reload of the overview is replaced by a fixed
//! set of tables (or by a fixed error), and the clocks by elapsed times that
//! the caller sets.
use vstd::prelude::*;

pub use super::state::OverviewView;

use super::state::{
    app_wf, apply_refresh, handle_key_event, initial_view, menu_key_ok, failed,
    tick_app, tick_step, key_step, ActionView, AppState, AppView, Key, KeyAction, RefreshData,
    Screen, ScreenView, TuiExit,
};
use super::{
    build_intrusion_rows, build_recent_rows, chart_len, filter_key, filter_sort_rows,
    intrusion_rows, leading_count, parse_leading_count, recent_rows, refresh_data, sorted_rows,
    spinner_frames, spinner_frames_are, table_at, table_len_filtered, visible_rows, RefreshSource, THEME_COUNT,
};
use super::state::SPINNER_FRAMES;
use crate::analysis::{rows_view, OverviewTables};
use crate::ids::{entries_view, findings_view, intrusions, IntrusionFinding};
use crate::storage::db::Entry;
use crate::text::{strings_view, trim};
use crate::timefmt::unix_now;

verus! {

/// The interface's state, with the time elapsed since the last tick and the
/// last reload, in milliseconds.
pub struct TestState {
    app: AppState,
    tick_elapsed_ms: u64,
    refresh_elapsed_ms: u64,
}

/// The name of a screen: `menu`, `overview`, `watcher` or `error`.
pub open spec fn screen_name(s: ScreenView) -> Seq<char> {
    match s {
        ScreenView::Menu => "menu"@,
        ScreenView::Overview => "overview"@,
        ScreenView::Watcher => "watcher"@,
        ScreenView::Error(_) => "error"@,
    }
}

/// The tables that stand in for a reload of the overview.
pub open spec fn stub_tables(t: OverviewTables) -> bool {
    &&& rows_view(t.top_commands@) == seq![seq!["ls"@, "2"@]]
    &&& rows_view(t.top_unsuccessful@) == seq![seq!["rm"@, "1"@]]
    &&& rows_view(t.mistyped_commands@) == seq![seq!["git"@, "1 (gti)"@]]
}

/// The error that stands in for a failed reload.
pub open spec fn stub_error() -> Seq<char> {
    "refresh failed"@
}

/// A copy of rows.
fn copy_rows(rows: &Vec<Vec<String>>) -> (out: Vec<Vec<String>>)
    ensures
        rows_view(out@) == rows_view(rows@),
{
    let mut out: Vec<Vec<String>> = Vec::new();
    let mut i: usize = 0;
    while i < rows.len()
        invariant
            i <= rows.len(),
            rows_view(out@) == rows_view(rows@.take(i as int)),
        decreases rows.len() - i,
    {
        let mut row: Vec<String> = Vec::new();
        let mut j: usize = 0;
        while j < rows[i].len()
            invariant
                i < rows.len(),
                j <= rows@[i as int].len(),
                strings_view(row@) == strings_view(rows@[i as int]@.take(j as int)),
            decreases rows@[i as int].len() - j,
        {
            let c = rows[i][j].clone();
            let ghost before = row@;
            row.push(c);
            assert(strings_view(row@) =~= strings_view(before).push(c@));
            assert(strings_view(rows@[i as int]@.take(j + 1)) =~= strings_view(
                rows@[i as int]@.take(j as int),
            ).push(rows@[i as int]@[j as int]@));
            j += 1;
        }
        assert(rows@[i as int]@.take(j as int) =~= rows@[i as int]@);
        let ghost before = out@;
        out.push(row);
        assert(rows_view(out@) =~= rows_view(before).push(strings_view(row@)));
        assert(rows_view(rows@.take(i + 1)) =~= rows_view(rows@.take(i as int)).push(
            strings_view(rows@[i as int]@),
        ));
        i += 1;
    }
    assert(rows@.take(rows.len() as int) =~= rows@);
    out
}

/// A table of one row of two cells.
fn one_row_table(a: &str, b: &str) -> (t: Vec<Vec<String>>)
    ensures
        rows_view(t@) == seq![seq![a@, b@]],
{
    let mut row: Vec<String> = Vec::new();
    row.push(a.to_string());
    row.push(b.to_string());
    assert(strings_view(row@) =~= seq![a@, b@]);
    let mut t: Vec<Vec<String>> = Vec::new();
    t.push(row);
    assert(rows_view(t@) =~= seq![seq![a@, b@]]);
    t
}

/// The tables that stand in for a reload of the overview.
fn stub_overview() -> (t: OverviewTables)
    ensures
        stub_tables(t),
{
    OverviewTables {
        top_commands: one_row_table("ls", "2"),
        top_unsuccessful: one_row_table("rm", "1"),
        mistyped_commands: one_row_table("git", "1 (gti)"),
    }
}

impl View for TestState {
    type V = AppView;

    closed spec fn view(&self) -> AppView {
        self.app@
    }
}

impl TestState {
    #[verifier::type_invariant]
    spec fn inv(self) -> bool {
        app_wf(self.app@)
    }

    /// The time elapsed since the last tick, in milliseconds.
    pub closed spec fn tick_elapsed(self) -> u64 {
        self.tick_elapsed_ms
    }

    /// The time elapsed since the last reload, in milliseconds.
    pub closed spec fn refresh_elapsed(self) -> u64 {
        self.refresh_elapsed_ms
    }

    /// The state in which the interface starts, with the first theme.
    pub fn new() -> (s: TestState)
        ensures
            s@ == initial_view(0),
            s.tick_elapsed() == 0,
            s.refresh_elapsed() == 0,
    {
        TestState { app: AppState::new(0), tick_elapsed_ms: 0, refresh_elapsed_ms: 0 }
    }

    /// Takes the state out, leaving a fresh one in its place.
    fn take_app(&mut self) -> (a: AppState)
        ensures
            a@ == old(self)@,
            app_wf(a@),
            final(self).tick_elapsed() == old(self).tick_elapsed(),
            final(self).refresh_elapsed() == old(self).refresh_elapsed(),
    {
        proof {
            use_type_invariant(&*self);
        }
        let mut a = AppState::new(0);
        std::mem::swap(&mut a, &mut self.app);
        a
    }

    /// Shows the menu.
    pub fn set_screen_menu(&mut self)
        ensures
            final(self)@ == (AppView { screen: ScreenView::Menu, ..old(self)@ }),
    {
        let mut a = self.take_app();
        a.screen = Screen::Menu;
        self.app = a;
    }

    /// Shows the overview.
    pub fn set_screen_overview(&mut self)
        ensures
            final(self)@ == (AppView { screen: ScreenView::Overview, ..old(self)@ }),
    {
        let mut a = self.take_app();
        a.screen = Screen::Overview;
        self.app = a;
    }

    /// Shows the watcher screen.
    pub fn set_screen_watcher(&mut self)
        ensures
            final(self)@ == (AppView { screen: ScreenView::Watcher, ..old(self)@ }),
    {
        let mut a = self.take_app();
        a.screen = Screen::Watcher;
        self.app = a;
    }

    /// Shows the error screen with `message`.
    pub fn set_screen_error(&mut self, message: &str)
        ensures
            final(self)@ == (AppView { screen: ScreenView::Error(message@), ..old(self)@ }),
    {
        let mut a = self.take_app();
        a.screen = Screen::Error(message.to_string());
        self.app = a;
    }

    /// Sets the overview's tables.
    pub fn set_overview(&mut self, tables: OverviewTables)
        ensures
            final(self)@ == (AppView { overview: Some(tables), ..old(self)@ }),
    {
        let mut a = self.take_app();
        a.overview = Some(tables);
        self.app = a;
    }

    /// Sets the overview's presentation.
    pub fn set_overview_view(&mut self, view: OverviewView)
        ensures
            final(self)@ == (AppView { overview_view: view, ..old(self)@ }),
    {
        let mut a = self.take_app();
        a.overview_view = view;
        self.app = a;
    }

    /// Sets the applied filter.
    pub fn set_filter_query(&mut self, query: &str)
        ensures
            final(self)@ == (AppView { filter_query: query@, ..old(self)@ }),
    {
        let mut a = self.take_app();
        a.filter_query = query.to_string();
        self.app = a;
    }

    /// Starts or stops typing the filter.
    pub fn set_filter_input(&mut self, enabled: bool)
        ensures
            final(self)@ == (AppView { filter_input: enabled, ..old(self)@ }),
    {
        let mut a = self.take_app();
        a.filter_input = enabled;
        self.app = a;
    }

    /// Sets the filter being typed.
    pub fn set_filter_buffer(&mut self, buffer: &str)
        ensures
            final(self)@ == (AppView { filter_buffer: buffer@, ..old(self)@ }),
    {
        let mut a = self.take_app();
        a.filter_buffer = buffer.to_string();
        self.app = a;
    }

    /// Records whether the watcher runs.
    pub fn set_watcher_started(&mut self, started: bool)
        ensures
            final(self)@ == (AppView { watcher_started: started, ..old(self)@ }),
    {
        let mut a = self.take_app();
        a.watcher_started = started;
        self.app = a;
    }

    /// Sets the time elapsed since the last tick, in milliseconds.
    pub fn set_last_tick_offset(&mut self, offset_ms: u64)
        ensures
            final(self)@ == old(self)@,
            final(self).tick_elapsed() == offset_ms,
            final(self).refresh_elapsed() == old(self).refresh_elapsed(),
    {
        proof {
            use_type_invariant(&*self);
        }
        self.tick_elapsed_ms = offset_ms;
    }

    /// Sets the time elapsed since the last reload, in milliseconds.
    pub fn set_last_refresh_offset(&mut self, offset_ms: u64)
        ensures
            final(self)@ == old(self)@,
            final(self).tick_elapsed() == old(self).tick_elapsed(),
            final(self).refresh_elapsed() == offset_ms,
    {
        proof {
            use_type_invariant(&*self);
        }
        self.refresh_elapsed_ms = offset_ms;
    }

    /// The name of the screen on display.
    pub fn screen(&self) -> (name: &'static str)
        ensures
            name@ == screen_name(self@.screen),
    {
        match &self.app.screen {
            Screen::Menu => "menu",
            Screen::Overview => "overview",
            Screen::Watcher => "watcher",
            Screen::Error(_) => "error",
        }
    }

    /// The selected menu item.
    pub fn menu_index(&self) -> (i: usize)
        ensures
            i == self@.menu_index,
    {
        self.app.menu_index
    }

    /// The theme in use.
    pub fn theme_index(&self) -> (i: usize)
        ensures
            i == self@.theme_index,
    {
        self.app.theme_index
    }

    /// Selects a menu item.
    pub fn set_menu_index(&mut self, idx: usize)
        ensures
            final(self)@ == (AppView { menu_index: idx, ..old(self)@ }),
    {
        let mut a = self.take_app();
        a.menu_index = idx;
        self.app = a;
    }

    /// The overview's presentation.
    pub fn overview_view(&self) -> (v: OverviewView)
        ensures
            v == self@.overview_view,
    {
        self.app.overview_view
    }

    /// The chart in focus.
    pub fn chart_index(&self) -> (i: usize)
        ensures
            i == self@.chart_index,
    {
        self.app.chart_index
    }

    /// The table in focus.
    pub fn table_index(&self) -> (i: usize)
        ensures
            i == self@.table_index,
    {
        self.app.table_index
    }

    /// Whether the filter is being typed.
    pub fn filter_input(&self) -> (b: bool)
        ensures
            b == self@.filter_input,
    {
        self.app.filter_input
    }

    /// The applied filter.
    pub fn filter_query(&self) -> (q: &str)
        ensures
            q@ == self@.filter_query,
    {
        self.app.filter_query.as_str()
    }

    /// The filter being typed.
    pub fn filter_buffer(&self) -> (b: &str)
        ensures
            b@ == self@.filter_buffer,
    {
        self.app.filter_buffer.as_str()
    }

    /// The selected row of each chart.
    pub fn chart_selection(&self) -> (s: [usize; 3])
        ensures
            s@ == self@.chart_selection,
    {
        self.app.chart_selection
    }

    /// The selected row of each table.
    pub fn table_selection(&self) -> (s: [usize; 3])
        ensures
            s@ == self@.table_selection,
    {
        self.app.table_selection
    }

    /// The spinner's frame.
    pub fn watcher_spinner(&self) -> (i: usize)
        ensures
            i == self@.watcher_spinner,
    {
        self.app.watcher_spinner
    }

    /// How much of the charts is drawn, in hundredths.
    pub fn chart_progress(&self) -> (p: u32)
        ensures
            p == self@.chart_progress,
    {
        self.app.chart_progress
    }

    /// A tick of the clock, given the tick and reload intervals in
    /// milliseconds: a tick happens when the tick interval has elapsed, and
    /// a due reload puts the stand-in tables in place.
    pub fn tick(&mut self, tick_rate_ms: u64, refresh_rate_ms: u64) -> (r: Result<(), String>)
        ensures
            r is Ok,
            ({
                let tick_due = old(self).tick_elapsed() >= tick_rate_ms;
                let (a, reload) = tick_step(old(self)@, old(self).refresh_elapsed() >= refresh_rate_ms);
                if !tick_due {
                    final(self)@ == old(self)@ && final(self).tick_elapsed() == old(self).tick_elapsed()
                } else if reload {
                    &&& final(self)@ == (AppView { overview: final(self)@.overview, ..a })
                    &&& final(self)@.overview matches Some(t) && stub_tables(t)
                    &&& final(self).tick_elapsed() == 0
                } else {
                    final(self)@ == a && final(self).tick_elapsed() == 0
                }
            }),
            final(self).refresh_elapsed() == old(self).refresh_elapsed(),
    {
        let tick_due = self.tick_elapsed_ms >= tick_rate_ms;
        let refresh_due = self.refresh_elapsed_ms >= refresh_rate_ms;
        let mut a = self.take_app();
        let reload = tick_app(&mut a, tick_due, refresh_due);
        if reload {
            let recent = copy_rows(&a.recent_rows);
            let intrusion = copy_rows(&a.intrusion_rows);
            let data = RefreshData { tables: stub_overview(), recent_rows: recent, intrusion_rows: intrusion };
            apply_refresh(&mut a, Ok(data), false);
        }
        self.app = a;
        if tick_due {
            self.tick_elapsed_ms = 0;
        }
        Ok(())
    }

    /// A key press on a menu of `menu_items`, with reloads that succeed with
    /// the stand-in tables (or fail, when `fail_reload`).  Saving the theme,
    /// starting the watcher and looking up a command's details are left
    /// undone.
    fn press(&mut self, key: Key, menu_items: &[&str], fail_reload: bool) -> (r: Option<TuiExit>)
        requires
            menu_key_ok(old(self)@, key, menu_items@.len() as int),
        ensures
            ({
                let (a, act) = key_step(old(self)@, key, menu_items@.len() as int);
                &&& (r is Some <==> act == ActionView::Exit)
                &&& if act == ActionView::RefreshOverview {
                    if fail_reload {
                        final(self)@ == failed(a, stub_error())
                    } else {
                        &&& final(self)@ == (AppView {
                            overview: final(self)@.overview,
                            screen: ScreenView::Overview,
                            ..a
                        })
                        &&& final(self)@.overview matches Some(t) && stub_tables(t)
                    }
                } else {
                    final(self)@ == a
                }
            }),
            final(self).tick_elapsed() == old(self).tick_elapsed(),
            final(self).refresh_elapsed() == old(self).refresh_elapsed(),
    {
        let mut a = self.take_app();
        let action = handle_key_event(&mut a, key, menu_items.len());
        let r = match action {
            KeyAction::Exit => Some(TuiExit::Exit),
            KeyAction::RefreshOverview => {
                if fail_reload {
                    apply_refresh(&mut a, Err("refresh failed".to_string()), true);
                } else {
                    let recent = copy_rows(&a.recent_rows);
                    let intrusion = copy_rows(&a.intrusion_rows);
                    let data = RefreshData { tables: stub_overview(), recent_rows: recent, intrusion_rows: intrusion };
                    apply_refresh(&mut a, Ok(data), true);
                }
                None
            },
            _ => None,
        };
        self.app = a;
        r
    }

    /// A key press on a menu of `menu_items`; a reload of the overview puts
    /// the stand-in tables in place.  Enter on a table row opens no detail
    /// dialog here (no history is looked up), so `b` then goes straight back
    /// to the menu.
    pub fn handle_key(&mut self, key: Key, menu_items: &[&str]) -> (r: Option<TuiExit>)
        requires
            menu_key_ok(old(self)@, key, menu_items@.len() as int),
        ensures
            ({
                let (a, act) = key_step(old(self)@, key, menu_items@.len() as int);
                &&& (r is Some <==> act == ActionView::Exit)
                &&& if act == ActionView::RefreshOverview {
                    &&& final(self)@ == (AppView {
                        overview: final(self)@.overview,
                        screen: ScreenView::Overview,
                        ..a
                    })
                    &&& final(self)@.overview matches Some(t) && stub_tables(t)
                } else {
                    final(self)@ == a
                }
            }),
    {
        self.press(key, menu_items, false)
    }

    /// A key press on a menu of `menu_items`; a reload of the overview fails.
    pub fn handle_key_with_error(&mut self, key: Key, menu_items: &[&str]) -> (r: Option<TuiExit>)
        requires
            menu_key_ok(old(self)@, key, menu_items@.len() as int),
        ensures
            ({
                let (a, act) = key_step(old(self)@, key, menu_items@.len() as int);
                &&& (r is Some <==> act == ActionView::Exit)
                &&& if act == ActionView::RefreshOverview {
                    final(self)@ == failed(a, stub_error())
                } else {
                    final(self)@ == a
                }
            }),
    {
        self.press(key, menu_items, true)
    }
}

/// The number at the start of a table cell.
pub fn parse_leading_count_for_test(value: &str) -> (r: Option<u64>)
    ensures
        r == leading_count(value@),
{
    parse_leading_count(value)
}

/// The number of rows of chart `chart_index`.
pub fn chart_len_for_test(tables: Option<&OverviewTables>, chart_index: usize) -> (n: usize)
    ensures
        n == match tables {
            Some(t) => table_at(*t, chart_index as int).len(),
            None => 0,
        },
{
    chart_len(tables, chart_index)
}

/// The number of rows of table `table_index` that pass `filter` (all of
/// them when the filter is blank).
pub fn table_len_filtered_for_test(tables: Option<&OverviewTables>, table_index: usize, filter: &str) -> (n: usize)
    ensures
        n == match tables {
            Some(t) => visible_rows(table_at(*t, table_index as int), filter_key(filter@)).len(),
            None => 0,
        },
        trim(filter@).len() == 0 ==> n == match tables {
            Some(t) => table_at(*t, table_index as int).len(),
            None => 0,
        },
{
    table_len_filtered(tables, table_index, filter)
}

/// The rows of `data` that pass `filter`, sorted by command.
pub fn filter_sort_rows_for_test(data: &[Vec<String>], filter: &str, asc: bool) -> (out: Vec<Vec<String>>)
    ensures
        rows_view(out@) == sorted_rows(rows_view(data@), filter_key(filter@), asc),
{
    filter_sort_rows(data, filter, asc)
}

/// The rows of the recent-commands table for `entries`, as of the clock's
/// current time, together with the clock reading (a UNIX timestamp) that the
/// times were measured against.
pub fn build_recent_rows_for_test(entries: &[Entry]) -> (r: (Vec<Vec<String>>, i64))
    ensures
        rows_view(r.0@) == recent_rows(entries_view(entries@), r.1),
{
    let now = unix_now();
    (build_recent_rows(entries, now), now)
}

/// The rows of the intrusion table for `findings`, as of the clock's current
/// time, together with the clock reading (a UNIX timestamp) that the times
/// were measured against.
pub fn build_intrusion_rows_for_test(findings: &[IntrusionFinding]) -> (r: (Vec<Vec<String>>, i64))
    ensures
        rows_view(r.0@) == intrusion_rows(findings_view(findings@), r.1),
{
    let now = unix_now();
    (build_intrusion_rows(findings, now), now)
}

/// The frames of the watcher's spinner.
pub fn spinner_frames_for_test() -> (frames: [&'static str; 10])
    ensures
        frames@.len() == SPINNER_FRAMES,
        spinner_frames_are(frames@),
{
    spinner_frames()
}

/// The number of colour themes.
pub fn theme_count_for_test() -> (n: usize)
    ensures
        n == THEME_COUNT,
{
    THEME_COUNT
}

/// Reloads a fresh state's overview from what was read, as of the clock's
/// current time, and gives the numbers of recent-command rows and of
/// intrusion rows; an error in the reading is passed on.
pub fn refresh_overview_for_test(loaded: Result<RefreshSource, String>) -> (r: Result<(usize, usize), String>)
    requires
        loaded matches Ok(src) ==> src.entries@.len() <= i64::MAX,
    ensures
        match loaded {
            Ok(src) => r matches Ok((a, b)) && a == src.recent@.len() && b == intrusion_rows(
                intrusions(entries_view(src.recent_for_ids@), src.ids_config@, src.current_user@),
                0,
            ).len(),
            Err(e) => r matches Err(m) && m@ == e@,
        },
{
    match loaded {
        Err(e) => Err(e),
        Ok(src) => {
            let mut app = AppState::new(0);
            let now = unix_now();
            let data = refresh_data(&src, now);
            apply_refresh(&mut app, Ok(data), false);
            let ghost fs = intrusions(entries_view(src.recent_for_ids@), src.ids_config@, src.current_user@);
            assert(rows_view(app.intrusion_rows@).len() == app.intrusion_rows@.len());
            assert(intrusion_rows(fs, now).len() == intrusion_rows(fs, 0).len());
            assert(rows_view(app.recent_rows@).len() == app.recent_rows@.len());
            assert(recent_rows(entries_view(src.recent@), now).len() == src.recent@.len());
            Ok((app.recent_rows.len(), app.intrusion_rows.len()))
        },
    }
}

} // verus!
