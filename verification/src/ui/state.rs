//! The interface's state machine: which screen is shown, what is selected,
//! what the filter holds, and how a key or a timer tick changes that.
//!
//! Work outside the library (reading the database, saving the chosen theme,
//! starting the watcher, looking up a command's latest run) is requested by
//! the action that a step returns; its outcome is handed back through
//! [`apply_refresh`] and [`show_command_detail`].
use vstd::prelude::*;

use super::{
    filter_sort_rows, format_relative_time_at, relative_time, sorted_rows, status_label,
    table_at, visible_rows, filter_key, chart_len, table_len_filtered, THEME_COUNT,
};
use crate::analysis::{rows_view, OverviewTables};
use crate::storage::db::{status_text, Entry, EntryView};
use crate::text::{
    concat_str, is_control, is_control_char, string_pop, string_push, trim, trim_str,
};

verus! {

/// How the interface was left.
#[derive(Debug, Clone, Copy, PartialEq, Eq, Structural)]
pub enum TuiExit {
    Exit,
}

/// The two presentations of the overview.
#[derive(Debug, Clone, Copy, PartialEq, Eq, Structural)]
pub enum OverviewView {
    Tables,
    Charts,
}

/// The screen on display.
pub enum Screen {
    Menu,
    Overview,
    Watcher,
    Error(String),
}

/// A key press, as the interface distinguishes keys.
#[derive(Debug, Clone, Copy, PartialEq, Eq, Structural)]
pub enum Key {
    Up,
    Down,
    Left,
    Right,
    Enter,
    Esc,
    Backspace,
    Char(char),
    Other,
}

/// What the detail dialog shows of a command's latest run.
pub struct CommandDetail {
    pub command: String,
    pub status: String,
    pub user: String,
    pub time: String,
}

/// The dialog over the overview.
pub enum DetailDialog {
    Command(CommandDetail),
    Message(String),
}

/// What a key asks of the world outside the library.
pub enum KeyAction {
    /// Nothing more to do.
    Continue,
    /// Leave the interface.
    Exit,
    /// Reload the overview, then hand the outcome to [`apply_refresh`]
    /// (opening the overview).
    RefreshOverview,
    /// Start the realtime watcher in the background.
    StartWatcher,
    /// Save this theme index in the configuration.
    SaveTheme(usize),
    /// Look up the latest run of this command and hand the outcome to
    /// [`show_command_detail`].
    ShowDetail(String),
}

/// The overview's data as it is reloaded.
pub struct RefreshData {
    pub tables: OverviewTables,
    pub recent_rows: Vec<Vec<String>>,
    pub intrusion_rows: Vec<Vec<String>>,
}

/// The number of phases of the logo's colour cycle.
pub const LOGO_PHASES: usize = 6;

/// The number of frames of the watcher's spinner.
pub const SPINNER_FRAMES: usize = 10;

/// How far the chart animation advances per tick, in hundredths.
pub const CHART_STEP: u32 = 8;

/// The chart animation's end, in hundredths (fully drawn).
pub const CHART_FULL: u32 = 100;

/// The whole state of the interface.
pub struct AppState {
    pub screen: Screen,
    pub menu_index: usize,
    pub overview: Option<OverviewTables>,
    pub logo_phase: usize,
    pub overview_view: OverviewView,
    /// How much of the charts is drawn, in hundredths.
    pub chart_progress: u32,
    pub chart_index: usize,
    pub chart_selection: [usize; 3],
    pub table_index: usize,
    pub table_selection: [usize; 3],
    pub sort_asc: bool,
    pub filter_query: String,
    pub filter_input: bool,
    pub filter_buffer: String,
    pub watcher_started: bool,
    pub watcher_spinner: usize,
    pub recent_rows: Vec<Vec<String>>,
    pub intrusion_rows: Vec<Vec<String>>,
    pub theme_index: usize,
    pub detail_dialog: Option<DetailDialog>,
}

// ---------------------------------------------------------------------------
// Views
// ---------------------------------------------------------------------------

/// The mathematical value of a [`Screen`].
pub enum ScreenView {
    Menu,
    Overview,
    Watcher,
    Error(Seq<char>),
}

/// The mathematical value of a [`DetailDialog`].
pub enum DialogView {
    Command { command: Seq<char>, status: Seq<char>, user: Seq<char>, time: Seq<char> },
    Message(Seq<char>),
}

/// The mathematical value of a [`KeyAction`].
pub enum ActionView {
    Continue,
    Exit,
    RefreshOverview,
    StartWatcher,
    SaveTheme(usize),
    ShowDetail(Seq<char>),
}

/// The mathematical value of an [`AppState`].
pub struct AppView {
    pub screen: ScreenView,
    pub menu_index: usize,
    pub overview: Option<OverviewTables>,
    pub logo_phase: usize,
    pub overview_view: OverviewView,
    pub chart_progress: u32,
    pub chart_index: usize,
    pub chart_selection: Seq<usize>,
    pub table_index: usize,
    pub table_selection: Seq<usize>,
    pub sort_asc: bool,
    pub filter_query: Seq<char>,
    pub filter_input: bool,
    pub filter_buffer: Seq<char>,
    pub watcher_started: bool,
    pub watcher_spinner: usize,
    pub recent_rows: Seq<Seq<Seq<char>>>,
    pub intrusion_rows: Seq<Seq<Seq<char>>>,
    pub theme_index: usize,
    pub dialog: Option<DialogView>,
}

impl View for Screen {
    type V = ScreenView;

    open spec fn view(&self) -> ScreenView {
        match self {
            Screen::Menu => ScreenView::Menu,
            Screen::Overview => ScreenView::Overview,
            Screen::Watcher => ScreenView::Watcher,
            Screen::Error(m) => ScreenView::Error(m@),
        }
    }
}

impl View for DetailDialog {
    type V = DialogView;

    open spec fn view(&self) -> DialogView {
        match self {
            DetailDialog::Command(d) => DialogView::Command {
                command: d.command@,
                status: d.status@,
                user: d.user@,
                time: d.time@,
            },
            DetailDialog::Message(m) => DialogView::Message(m@),
        }
    }
}

impl View for KeyAction {
    type V = ActionView;

    open spec fn view(&self) -> ActionView {
        match self {
            KeyAction::Continue => ActionView::Continue,
            KeyAction::Exit => ActionView::Exit,
            KeyAction::RefreshOverview => ActionView::RefreshOverview,
            KeyAction::StartWatcher => ActionView::StartWatcher,
            KeyAction::SaveTheme(t) => ActionView::SaveTheme(*t),
            KeyAction::ShowDetail(c) => ActionView::ShowDetail(c@),
        }
    }
}

/// The value of an optional dialog.
pub open spec fn dialog_view(d: Option<DetailDialog>) -> Option<DialogView> {
    match d {
        Some(x) => Some(x@),
        None => None,
    }
}

impl View for AppState {
    type V = AppView;

    open spec fn view(&self) -> AppView {
        AppView {
            screen: self.screen@,
            menu_index: self.menu_index,
            overview: self.overview,
            logo_phase: self.logo_phase,
            overview_view: self.overview_view,
            chart_progress: self.chart_progress,
            chart_index: self.chart_index,
            chart_selection: self.chart_selection@,
            table_index: self.table_index,
            table_selection: self.table_selection@,
            sort_asc: self.sort_asc,
            filter_query: self.filter_query@,
            filter_input: self.filter_input,
            filter_buffer: self.filter_buffer@,
            watcher_started: self.watcher_started,
            watcher_spinner: self.watcher_spinner,
            recent_rows: rows_view(self.recent_rows@),
            intrusion_rows: rows_view(self.intrusion_rows@),
            theme_index: self.theme_index,
            dialog: dialog_view(self.detail_dialog),
        }
    }
}

/// The bounds that every reachable state keeps: the chart and the table in
/// focus are one of three, the theme is one of [`THEME_COUNT`], the logo and
/// spinner phases are in range, and the charts are at most fully drawn.
pub open spec fn app_wf(a: AppView) -> bool {
    &&& a.chart_index < 3
    &&& a.table_index < 3
    &&& a.chart_selection.len() == 3
    &&& a.table_selection.len() == 3
    &&& a.theme_index < THEME_COUNT
    &&& a.logo_phase < LOGO_PHASES
    &&& a.watcher_spinner < SPINNER_FRAMES
    &&& a.chart_progress <= CHART_FULL
}

/// The state in which the interface starts, with the theme `theme_index`.
pub open spec fn initial_view(theme_index: usize) -> AppView {
    AppView {
        screen: ScreenView::Menu,
        menu_index: 0,
        overview: None,
        logo_phase: 0,
        overview_view: OverviewView::Tables,
        chart_progress: 0,
        chart_index: 0,
        chart_selection: seq![0usize, 0usize, 0usize],
        table_index: 0,
        table_selection: seq![0usize, 0usize, 0usize],
        sort_asc: true,
        filter_query: Seq::empty(),
        filter_input: false,
        filter_buffer: Seq::empty(),
        watcher_started: false,
        watcher_spinner: 0,
        recent_rows: Seq::empty(),
        intrusion_rows: Seq::empty(),
        theme_index: theme_index,
        dialog: None,
    }
}

// ---------------------------------------------------------------------------
// The transitions, as mathematics
// ---------------------------------------------------------------------------

/// The number of rows of the chart in focus.
pub open spec fn chart_rows(a: AppView) -> int {
    match a.overview {
        Some(t) => table_at(t, a.chart_index as int).len() as int,
        None => 0,
    }
}

/// The number of rows of the table in focus that pass the filter.
pub open spec fn table_rows(a: AppView) -> int {
    match a.overview {
        Some(t) => visible_rows(table_at(t, a.table_index as int), filter_key(a.filter_query)).len() as int,
        None => 0,
    }
}

/// The selection one row up in a list of `len` rows, wrapping to the end.
pub open spec fn select_up(sel: usize, len: int) -> usize {
    if len <= 0 {
        sel
    } else if sel == 0 {
        (len - 1) as usize
    } else {
        (sel - 1) as usize
    }
}

/// The selection one row down in a list of `len` rows, wrapping to the top.
pub open spec fn select_down(sel: usize, len: int) -> usize {
    if len <= 0 {
        sel
    } else {
        ((sel + 1) % len) as usize
    }
}

/// The command that the table in focus has selected: the first cell of the
/// selected row among the filtered and sorted rows (the last row when the
/// selection is past the end).
pub open spec fn pick_command(rows: Seq<Seq<Seq<char>>>, sel: int) -> Option<Seq<char>> {
    if rows.len() == 0 {
        None
    } else {
        let i = if sel < rows.len() - 1 { sel } else { rows.len() - 1 };
        if rows[i].len() > 0 {
            Some(rows[i][0])
        } else {
            None
        }
    }
}

/// The command selected in the table in focus, if any.
pub open spec fn selected_command(a: AppView) -> Option<Seq<char>> {
    match a.overview {
        None => None,
        Some(t) => pick_command(
            sorted_rows(table_at(t, a.table_index as int), filter_key(a.filter_query), a.sort_asc),
            a.table_selection[if a.table_index < 2 { a.table_index as int } else { 2 }] as int,
        ),
    }
}

/// A key while the detail dialog is open: Esc, Enter and `b` close it, `q`
/// leaves, anything else is ignored.
pub open spec fn dialog_step(a: AppView, key: Key) -> (AppView, ActionView) {
    match key {
        Key::Esc | Key::Enter | Key::Char('b') => (AppView { dialog: None, ..a }, ActionView::Continue),
        Key::Char('q') => (a, ActionView::Exit),
        _ => (a, ActionView::Continue),
    }
}

/// A key while the filter is being typed: Enter applies the trimmed text,
/// Esc clears the filter, Backspace deletes the last character, and a
/// character that is not a control character is appended.
pub open spec fn filter_step(a: AppView, key: Key) -> AppView {
    match key {
        Key::Enter => AppView {
            filter_query: trim(a.filter_buffer),
            filter_input: false,
            table_selection: seq![0usize, 0usize, 0usize],
            ..a
        },
        Key::Esc => AppView {
            filter_query: Seq::empty(),
            filter_buffer: Seq::empty(),
            filter_input: false,
            table_selection: seq![0usize, 0usize, 0usize],
            ..a
        },
        Key::Backspace => AppView {
            filter_buffer: if a.filter_buffer.len() > 0 {
                a.filter_buffer.drop_last()
            } else {
                a.filter_buffer
            },
            ..a
        },
        Key::Char(c) => if is_control_char(c) {
            a
        } else {
            AppView { filter_buffer: a.filter_buffer.push(c), ..a }
        },
        _ => a,
    }
}

/// A key on the menu of `menu_len` items: Up and Down move (wrapping), Enter
/// opens the overview (after a reload), the watcher (starting it the first
/// time) or leaves, and `q` leaves.
pub open spec fn menu_step(a: AppView, key: Key, menu_len: int) -> (AppView, ActionView) {
    match key {
        Key::Up => (AppView { menu_index: select_up(a.menu_index, menu_len), ..a }, ActionView::Continue),
        Key::Down => (AppView { menu_index: select_down(a.menu_index, menu_len), ..a }, ActionView::Continue),
        Key::Enter => if a.menu_index == 0 {
            (a, ActionView::RefreshOverview)
        } else if a.menu_index == 1 {
            (
                AppView { screen: ScreenView::Watcher, watcher_started: true, ..a },
                if a.watcher_started { ActionView::Continue } else { ActionView::StartWatcher },
            )
        } else {
            (a, ActionView::Exit)
        },
        Key::Char('q') => (a, ActionView::Exit),
        _ => (a, ActionView::Continue),
    }
}

/// A key on the overview: `c` and `t` switch to charts and tables; in the
/// tables Enter asks for the selected command's details, `s` flips the sort
/// order, `/` starts typing the filter and `x` clears it; Left and Right
/// move the focus between the three charts or tables (wrapping), Up and Down
/// move the selection within the one in focus (wrapping); `b` goes back to
/// the menu and `q` leaves.
pub open spec fn overview_step(a: AppView, key: Key) -> (AppView, ActionView) {
    let tables = a.overview_view == OverviewView::Tables;
    let charts = a.overview_view == OverviewView::Charts;
    match key {
        Key::Char('c') => (
            AppView { overview_view: OverviewView::Charts, chart_progress: 0, chart_index: 0, ..a },
            ActionView::Continue,
        ),
        Key::Char('t') => (AppView { overview_view: OverviewView::Tables, table_index: 0, ..a }, ActionView::Continue),
        Key::Enter => (
            a,
            if tables {
                match selected_command(a) {
                    Some(c) => ActionView::ShowDetail(c),
                    None => ActionView::Continue,
                }
            } else {
                ActionView::Continue
            },
        ),
        Key::Char('s') => (
            if tables {
                AppView { sort_asc: !a.sort_asc, table_selection: seq![0usize, 0usize, 0usize], ..a }
            } else {
                a
            },
            ActionView::Continue,
        ),
        Key::Char('/') => (
            if tables {
                AppView { filter_input: true, filter_buffer: a.filter_query, ..a }
            } else {
                a
            },
            ActionView::Continue,
        ),
        Key::Char('x') => (
            if tables {
                AppView {
                    filter_query: Seq::empty(),
                    filter_buffer: Seq::empty(),
                    table_selection: seq![0usize, 0usize, 0usize],
                    ..a
                }
            } else {
                a
            },
            ActionView::Continue,
        ),
        Key::Left => (
            if charts {
                AppView { chart_index: if a.chart_index == 0 { 2 } else { (a.chart_index - 1) as usize }, ..a }
            } else {
                AppView { table_index: if a.table_index == 0 { 2 } else { (a.table_index - 1) as usize }, ..a }
            },
            ActionView::Continue,
        ),
        Key::Right => (
            if charts {
                AppView { chart_index: ((a.chart_index + 1) % 3) as usize, ..a }
            } else {
                AppView { table_index: ((a.table_index + 1) % 3) as usize, ..a }
            },
            ActionView::Continue,
        ),
        Key::Up => (
            if charts {
                AppView {
                    chart_selection: a.chart_selection.update(
                        a.chart_index as int,
                        select_up(a.chart_selection[a.chart_index as int], chart_rows(a)),
                    ),
                    ..a
                }
            } else {
                AppView {
                    table_selection: a.table_selection.update(
                        a.table_index as int,
                        select_up(a.table_selection[a.table_index as int], table_rows(a)),
                    ),
                    ..a
                }
            },
            ActionView::Continue,
        ),
        Key::Down => (
            if charts {
                AppView {
                    chart_selection: a.chart_selection.update(
                        a.chart_index as int,
                        select_down(a.chart_selection[a.chart_index as int], chart_rows(a)),
                    ),
                    ..a
                }
            } else {
                AppView {
                    table_selection: a.table_selection.update(
                        a.table_index as int,
                        select_down(a.table_selection[a.table_index as int], table_rows(a)),
                    ),
                    ..a
                }
            },
            ActionView::Continue,
        ),
        Key::Char('b') => (AppView { screen: ScreenView::Menu, ..a }, ActionView::Continue),
        Key::Char('q') => (a, ActionView::Exit),
        _ => (a, ActionView::Continue),
    }
}

/// A key on the watcher or error screen: `b` goes back to the menu, `q`
/// leaves.
pub open spec fn back_step(a: AppView, key: Key) -> (AppView, ActionView) {
    match key {
        Key::Char('b') => (AppView { screen: ScreenView::Menu, ..a }, ActionView::Continue),
        Key::Char('q') => (a, ActionView::Exit),
        _ => (a, ActionView::Continue),
    }
}

/// The effect of `key` on the state `a`, with a menu of `menu_len` items: the
/// open dialog takes keys first, then the filter being typed; otherwise `p`
/// cycles the theme (and asks to save it), and the screen on display decides.
pub open spec fn key_step(a: AppView, key: Key, menu_len: int) -> (AppView, ActionView) {
    if a.dialog is Some {
        dialog_step(a, key)
    } else if a.filter_input {
        (filter_step(a, key), ActionView::Continue)
    } else if key == Key::Char('p') {
        let t = ((a.theme_index + 1) % (THEME_COUNT as int)) as usize;
        (AppView { theme_index: t, ..a }, ActionView::SaveTheme(t))
    } else {
        match a.screen {
            ScreenView::Menu => menu_step(a, key, menu_len),
            ScreenView::Overview => overview_step(a, key),
            _ => back_step(a, key),
        }
    }
}

/// One tick of the animation clock: the logo moves to its next phase, the
/// charts on display grow by a step (up to fully drawn), and the spinner of
/// the watcher screen turns.  The second component says whether the
/// overview is due for a reload: it is on display, the watcher runs, and
/// the reload interval (`refresh_due`) has passed.
pub open spec fn tick_step(a: AppView, refresh_due: bool) -> (AppView, bool) {
    let on_overview = a.screen is Overview;
    (
        AppView {
            logo_phase: ((a.logo_phase + 1) % (LOGO_PHASES as int)) as usize,
            chart_progress: if on_overview && a.overview_view == OverviewView::Charts && a.chart_progress < CHART_FULL {
                if a.chart_progress + CHART_STEP < CHART_FULL {
                    (a.chart_progress + CHART_STEP) as u32
                } else {
                    CHART_FULL
                }
            } else {
                a.chart_progress
            },
            watcher_spinner: if a.screen is Watcher {
                ((a.watcher_spinner + 1) % (SPINNER_FRAMES as int)) as usize
            } else {
                a.watcher_spinner
            },
            ..a
        },
        on_overview && a.watcher_started && refresh_due,
    )
}

/// The state after a reload of the overview: the new tables and rows, and
/// the overview on display when `open`.
pub open spec fn refreshed(a: AppView, d: RefreshData, open: bool) -> AppView {
    AppView {
        overview: Some(d.tables),
        recent_rows: rows_view(d.recent_rows@),
        intrusion_rows: rows_view(d.intrusion_rows@),
        screen: if open { ScreenView::Overview } else { a.screen },
        ..a
    }
}

/// The state after a failed reload: the error screen with its message.
pub open spec fn failed(a: AppView, message: Seq<char>) -> AppView {
    AppView { screen: ScreenView::Error(message), ..a }
}

/// The dialog that answers a request for the details of `command`, given
/// what the lookup of its latest run gave, as of `now`.
pub open spec fn detail_for(command: Seq<char>, found: Result<Option<EntryView>, Seq<char>>, now: i64) -> DialogView {
    match found {
        Ok(Some(e)) => DialogView::Command {
            command: e.command,
            status: status_text(e.status),
            user: e.user,
            time: relative_time(e.timestamp, now),
        },
        Ok(None) => DialogView::Message("No recent entry found for \""@ + command + "\"."@),
        Err(err) => DialogView::Message("Failed to load command details: "@ + err),
    }
}

/// The key leaves a menu of `menu_len` items well defined: moving on the
/// menu needs at least one item.
pub open spec fn menu_key_ok(a: AppView, key: Key, menu_len: int) -> bool {
    (a.dialog is None && !a.filter_input && key != Key::Char('p') && a.screen is Menu && (key == Key::Up || key == Key::Down)) ==> menu_len > 0
}

// ---------------------------------------------------------------------------
// The transitions, as code
// ---------------------------------------------------------------------------

/// `x + 1` modulo `n`, from `x` modulo `n`.
proof fn lemma_next_mod(x: int, n: int)
    requires
        x >= 0,
        n > 0,
    ensures
        x % n + 1 == n ==> (x + 1) % n == 0,
        x % n + 1 < n ==> (x + 1) % n == x % n + 1,
{
    vstd::arithmetic::div_mod::lemma_fundamental_div_mod(x, n);
    let q = x / n;
    let r = x % n;
    assert(0 <= r < n);
    if r + 1 == n {
        assert(x + 1 == (q + 1) * n + 0) by (nonlinear_arith)
            requires
                x == n * q + r,
                r + 1 == n,
        ;
        vstd::arithmetic::div_mod::lemma_fundamental_div_mod_converse_mod(x + 1, n, q + 1, 0);
    } else {
        assert(x + 1 == q * n + (r + 1)) by (nonlinear_arith)
            requires
                x == n * q + r,
        ;
        vstd::arithmetic::div_mod::lemma_fundamental_div_mod_converse_mod(x + 1, n, q, r + 1);
    }
}

/// The selection one row up in a list of `len` rows.
fn step_up(sel: usize, len: usize) -> (r: usize)
    ensures
        r == select_up(sel, len as int),
{
    if len == 0 {
        sel
    } else if sel == 0 {
        len - 1
    } else {
        sel - 1
    }
}

/// The selection one row down in a list of `len` rows.
fn step_down(sel: usize, len: usize) -> (r: usize)
    ensures
        r == select_down(sel, len as int),
{
    if len == 0 {
        return sel;
    }
    let m = sel % len;
    proof {
        lemma_next_mod(sel as int, len as int);
    }
    if m + 1 == len {
        0
    } else {
        m + 1
    }
}

/// `a` with slot `i` set to `v`.
fn with_slot(a: [usize; 3], i: usize, v: usize) -> (r: [usize; 3])
    requires
        i < 3,
    ensures
        r@ == a@.update(i as int, v),
{
    let r = if i == 0 {
        [v, a[1], a[2]]
    } else if i == 1 {
        [a[0], v, a[2]]
    } else {
        [a[0], a[1], v]
    };
    assert(r@ =~= a@.update(i as int, v));
    r
}

impl AppState {
    /// The state in which the interface starts, with the theme
    /// `theme_index` (taken modulo [`THEME_COUNT`]).
    pub fn new(theme_index: usize) -> (s: AppState)
        ensures
            s@ == initial_view((theme_index % THEME_COUNT) as usize),
            app_wf(s@),
    {
        let s = AppState {
            screen: Screen::Menu,
            menu_index: 0,
            overview: None,
            logo_phase: 0,
            overview_view: OverviewView::Tables,
            chart_progress: 0,
            chart_index: 0,
            chart_selection: [0, 0, 0],
            table_index: 0,
            table_selection: [0, 0, 0],
            sort_asc: true,
            filter_query: String::new(),
            filter_input: false,
            filter_buffer: String::new(),
            watcher_started: false,
            watcher_spinner: 0,
            recent_rows: Vec::new(),
            intrusion_rows: Vec::new(),
            theme_index: theme_index % THEME_COUNT,
            detail_dialog: None,
        };
        assert(s@.chart_selection =~= seq![0usize, 0usize, 0usize]);
        assert(s@.table_selection =~= seq![0usize, 0usize, 0usize]);
        assert(s@.recent_rows =~= Seq::<Seq<Seq<char>>>::empty());
        assert(s@.intrusion_rows =~= Seq::<Seq<Seq<char>>>::empty());
        s
    }
}

/// A key while the detail dialog is open.
fn dialog_key(app: &mut AppState, key: Key) -> (r: KeyAction)
    requires
        old(app).detail_dialog is Some,
    ensures
        (final(app)@, r@) == dialog_step(old(app)@, key),
{
    match key {
        Key::Esc | Key::Enter | Key::Char('b') => {
            app.detail_dialog = None;
            KeyAction::Continue
        },
        Key::Char('q') => KeyAction::Exit,
        _ => KeyAction::Continue,
    }
}

/// A key while the filter is being typed.
fn filter_input_key(app: &mut AppState, key: Key)
    ensures
        final(app)@ == filter_step(old(app)@, key),
{
    match key {
        Key::Enter => {
            app.filter_query = trim_str(app.filter_buffer.as_str());
            app.filter_input = false;
            app.table_selection = [0, 0, 0];
            assert(app.table_selection@ =~= seq![0usize, 0usize, 0usize]);
        },
        Key::Esc => {
            app.filter_query = String::new();
            app.filter_buffer = String::new();
            app.filter_input = false;
            app.table_selection = [0, 0, 0];
            assert(app.table_selection@ =~= seq![0usize, 0usize, 0usize]);
        },
        Key::Backspace => {
            string_pop(&mut app.filter_buffer);
        },
        Key::Char(c) => {
            if !is_control(c) {
                string_push(&mut app.filter_buffer, c);
            }
        },
        _ => {},
    }
}

/// A key on the menu.
fn menu_key(app: &mut AppState, key: Key, menu_len: usize) -> (r: KeyAction)
    requires
        old(app).screen is Menu,
        (key == Key::Up || key == Key::Down) ==> menu_len > 0,
    ensures
        (final(app)@, r@) == menu_step(old(app)@, key, menu_len as int),
{
    match key {
        Key::Up => {
            app.menu_index = step_up(app.menu_index, menu_len);
            KeyAction::Continue
        },
        Key::Down => {
            app.menu_index = step_down(app.menu_index, menu_len);
            KeyAction::Continue
        },
        Key::Enter => {
            if app.menu_index == 0 {
                KeyAction::RefreshOverview
            } else if app.menu_index == 1 {
                app.screen = Screen::Watcher;
                if app.watcher_started {
                    KeyAction::Continue
                } else {
                    app.watcher_started = true;
                    KeyAction::StartWatcher
                }
            } else {
                KeyAction::Exit
            }
        },
        Key::Char('q') => KeyAction::Exit,
        _ => KeyAction::Continue,
    }
}

/// A key on the watcher or error screen.
fn back_key(app: &mut AppState, key: Key) -> (r: KeyAction)
    ensures
        (final(app)@, r@) == back_step(old(app)@, key),
{
    match key {
        Key::Char('b') => {
            app.screen = Screen::Menu;
            KeyAction::Continue
        },
        Key::Char('q') => KeyAction::Exit,
        _ => KeyAction::Continue,
    }
}

/// The command selected in the table in focus, if any: the first cell of
/// the selected row among the rows that pass the filter, in the current sort
/// order (the last row when the selection is past the end).
pub fn selected_command_from_table(app: &AppState) -> (r: Option<String>)
    ensures
        match r {
            Some(c) => selected_command(app@) == Some(c@),
            None => selected_command(app@) is None,
        },
{
    let tables = match &app.overview {
        Some(t) => t,
        None => return None,
    };
    let (data, selection) = if app.table_index == 0 {
        (&tables.top_commands, app.table_selection[0])
    } else if app.table_index == 1 {
        (&tables.top_unsuccessful, app.table_selection[1])
    } else {
        (&tables.mistyped_commands, app.table_selection[2])
    };
    assert(rows_view(data@) == table_at(*tables, app.table_index as int));
    let rows = filter_sort_rows(data.as_slice(), app.filter_query.as_str(), app.sort_asc);
    if rows.len() == 0 {
        return None;
    }
    let last = rows.len() - 1;
    let selected = if selection < last {
        selection
    } else {
        last
    };
    if rows[selected].len() > 0 {
        Some(rows[selected][0].clone())
    } else {
        None
    }
}

/// Moves the focus between the three charts or tables.
fn move_focus(app: &mut AppState, right: bool)
    requires
        app_wf(old(app)@),
    ensures
        final(app)@ == overview_step(old(app)@, if right { Key::Right } else { Key::Left }).0,
        app_wf(final(app)@),
{
    if app.overview_view == OverviewView::Charts {
        app.chart_index = if right {
            (app.chart_index + 1) % 3
        } else if app.chart_index == 0 {
            2
        } else {
            app.chart_index - 1
        };
    } else {
        app.table_index = if right {
            (app.table_index + 1) % 3
        } else if app.table_index == 0 {
            2
        } else {
            app.table_index - 1
        };
    }
}

/// Moves the selection within the chart or table in focus.
fn move_selection(app: &mut AppState, up: bool)
    requires
        app_wf(old(app)@),
    ensures
        final(app)@ == overview_step(old(app)@, if up { Key::Up } else { Key::Down }).0,
        app_wf(final(app)@),
{
    if app.overview_view == OverviewView::Charts {
        let len = chart_len(app.overview.as_ref(), app.chart_index);
        let i = app.chart_index;
        let cur = app.chart_selection[i];
        let next = if up {
            step_up(cur, len)
        } else {
            step_down(cur, len)
        };
        app.chart_selection = with_slot(app.chart_selection, i, next);
    } else {
        let len = table_len_filtered(app.overview.as_ref(), app.table_index, app.filter_query.as_str());
        let i = app.table_index;
        let cur = app.table_selection[i];
        let next = if up {
            step_up(cur, len)
        } else {
            step_down(cur, len)
        };
        app.table_selection = with_slot(app.table_selection, i, next);
    }
}

/// A key on the overview.
fn overview_key(app: &mut AppState, key: Key) -> (r: KeyAction)
    requires
        app_wf(old(app)@),
    ensures
        (final(app)@, r@) == overview_step(old(app)@, key),
        app_wf(final(app)@),
{
    let tables = app.overview_view == OverviewView::Tables;
    match key {
        Key::Char('c') => {
            app.overview_view = OverviewView::Charts;
            app.chart_progress = 0;
            app.chart_index = 0;
            KeyAction::Continue
        },
        Key::Char('t') => {
            app.overview_view = OverviewView::Tables;
            app.table_index = 0;
            KeyAction::Continue
        },
        Key::Enter => {
            if tables {
                match selected_command_from_table(app) {
                    Some(c) => KeyAction::ShowDetail(c),
                    None => KeyAction::Continue,
                }
            } else {
                KeyAction::Continue
            }
        },
        Key::Char('s') => {
            if tables {
                app.sort_asc = !app.sort_asc;
                app.table_selection = [0, 0, 0];
                assert(app.table_selection@ =~= seq![0usize, 0usize, 0usize]);
            }
            KeyAction::Continue
        },
        Key::Char('/') => {
            if tables {
                app.filter_input = true;
                app.filter_buffer = app.filter_query.clone();
            }
            KeyAction::Continue
        },
        Key::Char('x') => {
            if tables {
                app.filter_query = String::new();
                app.filter_buffer = String::new();
                app.table_selection = [0, 0, 0];
                assert(app.table_selection@ =~= seq![0usize, 0usize, 0usize]);
            }
            KeyAction::Continue
        },
        Key::Left => {
            move_focus(app, false);
            KeyAction::Continue
        },
        Key::Right => {
            move_focus(app, true);
            KeyAction::Continue
        },
        Key::Up => {
            move_selection(app, true);
            KeyAction::Continue
        },
        Key::Down => {
            move_selection(app, false);
            KeyAction::Continue
        },
        Key::Char('b') => {
            app.screen = Screen::Menu;
            KeyAction::Continue
        },
        Key::Char('q') => KeyAction::Exit,
        _ => KeyAction::Continue,
    }
}

/// The effect of `key` on the interface, with a menu of `menu_len` items
/// (see [`key_step`]); the action says what is left to do outside.
pub fn handle_key_event(app: &mut AppState, key: Key, menu_len: usize) -> (action: KeyAction)
    requires
        app_wf(old(app)@),
        menu_key_ok(old(app)@, key, menu_len as int),
    ensures
        (final(app)@, action@) == key_step(old(app)@, key, menu_len as int),
        app_wf(final(app)@),
{
    if app.detail_dialog.is_some() {
        return dialog_key(app, key);
    }
    if app.filter_input {
        filter_input_key(app, key);
        return KeyAction::Continue;
    }
    if key == Key::Char('p') {
        app.theme_index = (app.theme_index + 1) % THEME_COUNT;
        return KeyAction::SaveTheme(app.theme_index);
    }
    let which: u8 = match &app.screen {
        Screen::Menu => 0,
        Screen::Overview => 1,
        _ => 2,
    };
    if which == 0 {
        menu_key(app, key, menu_len)
    } else if which == 1 {
        overview_key(app, key)
    } else {
        back_key(app, key)
    }
}

/// One tick of the animation clock when `tick_due` (see [`tick_step`]);
/// nothing otherwise.  The result says whether the overview is to be
/// reloaded (hand the outcome to [`apply_refresh`], not opening it).
pub fn tick_app(app: &mut AppState, tick_due: bool, refresh_due: bool) -> (needs_refresh: bool)
    requires
        app_wf(old(app)@),
    ensures
        tick_due ==> (final(app)@, needs_refresh) == tick_step(old(app)@, refresh_due),
        !tick_due ==> final(app)@ == old(app)@ && !needs_refresh,
        app_wf(final(app)@),
{
    if !tick_due {
        return false;
    }
    let on_overview = match &app.screen {
        Screen::Overview => true,
        _ => false,
    };
    let on_watcher = match &app.screen {
        Screen::Watcher => true,
        _ => false,
    };
    app.logo_phase = (app.logo_phase + 1) % LOGO_PHASES;
    if on_overview && app.overview_view == OverviewView::Charts && app.chart_progress < CHART_FULL {
        app.chart_progress = if app.chart_progress + CHART_STEP < CHART_FULL {
            app.chart_progress + CHART_STEP
        } else {
            CHART_FULL
        };
    }
    if on_watcher {
        app.watcher_spinner = (app.watcher_spinner + 1) % SPINNER_FRAMES;
    }
    on_overview && app.watcher_started && refresh_due
}

/// Hands the outcome of a reload of the overview to the interface: the new
/// data (opening the overview when `open`), or the error screen.
pub fn apply_refresh(app: &mut AppState, outcome: Result<RefreshData, String>, open: bool)
    requires
        app_wf(old(app)@),
    ensures
        match outcome {
            Ok(d) => final(app)@ == refreshed(old(app)@, d, open),
            Err(e) => final(app)@ == failed(old(app)@, e@),
        },
        app_wf(final(app)@),
{
    match outcome {
        Ok(d) => {
            app.overview = Some(d.tables);
            app.recent_rows = d.recent_rows;
            app.intrusion_rows = d.intrusion_rows;
            if open {
                app.screen = Screen::Overview;
            }
        },
        Err(e) => {
            app.screen = Screen::Error(e);
        },
    }
}

/// The value of what the lookup of a command's latest run gave.
pub open spec fn found_view(found: Result<Option<Entry>, String>) -> Result<Option<EntryView>, Seq<char>> {
    match found {
        Ok(Some(e)) => Ok(Some(e@)),
        Ok(None) => Ok(None),
        Err(err) => Err(err@),
    }
}

/// Opens the detail dialog for `command`, given what the lookup of its
/// latest run gave, as of `now` (see [`detail_for`]).
pub fn show_command_detail(app: &mut AppState, command: &str, found: Result<Option<Entry>, String>, now: i64)
    requires
        app_wf(old(app)@),
    ensures
        final(app)@ == (AppView { dialog: Some(detail_for(command@, found_view(found), now)), ..old(app)@ }),
        app_wf(final(app)@),
{
    let dialog = match found {
        Ok(Some(entry)) => {
            let status = status_label(&entry.status);
            let time = format_relative_time_at(entry.timestamp, now);
            DetailDialog::Command(CommandDetail { command: entry.command, status, user: entry.user, time })
        },
        Ok(None) => {
            let head = concat_str("No recent entry found for \"", command);
            DetailDialog::Message(concat_str(head.as_str(), "\"."))
        },
        Err(err) => DetailDialog::Message(concat_str("Failed to load command details: ", err.as_str())),
    };
    app.detail_dialog = Some(dialog);
}

// ---------------------------------------------------------------------------
// Laws
// ---------------------------------------------------------------------------

/// On the menu, moving down and then up returns to the item one started
/// from.
pub proof fn lemma_menu_down_then_up(a: AppView, menu_len: int)
    requires
        a.dialog is None,
        !a.filter_input,
        a.screen is Menu,
        a.menu_index < menu_len <= usize::MAX,
    ensures
        key_step(key_step(a, Key::Down, menu_len).0, Key::Up, menu_len).0 == a,
{
    lemma_next_mod(a.menu_index as int, menu_len);
    vstd::arithmetic::div_mod::lemma_small_mod(a.menu_index as nat, menu_len as nat);
    let b = key_step(a, Key::Down, menu_len).0;
    assert(b == AppView { menu_index: select_down(a.menu_index, menu_len), ..a });
    assert(select_up(select_down(a.menu_index, menu_len), menu_len) == a.menu_index);
    assert(key_step(b, Key::Up, menu_len).0 == AppView { menu_index: a.menu_index, ..a });
}

/// On the menu, moving up and then down returns to the item one started
/// from.
pub proof fn lemma_menu_up_then_down(a: AppView, menu_len: int)
    requires
        a.dialog is None,
        !a.filter_input,
        a.screen is Menu,
        a.menu_index < menu_len <= usize::MAX,
    ensures
        key_step(key_step(a, Key::Up, menu_len).0, Key::Down, menu_len).0 == a,
{
    let up = select_up(a.menu_index, menu_len);
    lemma_next_mod(up as int, menu_len);
    vstd::arithmetic::div_mod::lemma_small_mod(up as nat, menu_len as nat);
    vstd::arithmetic::div_mod::lemma_small_mod(a.menu_index as nat, menu_len as nat);
    let b = key_step(a, Key::Up, menu_len).0;
    assert(b == AppView { menu_index: up, ..a });
    assert(select_down(up, menu_len) == a.menu_index);
    assert(key_step(b, Key::Down, menu_len).0 == AppView { menu_index: a.menu_index, ..a });
}

/// On the overview, moving the focus right and then left (or left and then
/// right) returns it to the chart or table one started from.
pub proof fn lemma_focus_right_left(a: AppView, menu_len: int)
    requires
        app_wf(a),
        a.dialog is None,
        !a.filter_input,
        a.screen is Overview,
    ensures
        key_step(key_step(a, Key::Right, menu_len).0, Key::Left, menu_len).0 == a,
        key_step(key_step(a, Key::Left, menu_len).0, Key::Right, menu_len).0 == a,
{
}

/// In the tables of the overview, Enter asks for the details of the command
/// on the row shown as selected: among the rows of the table in focus that
/// pass the applied filter, sorted by command in the chosen order (the rows
/// that `filter_sort_rows` lists and the screen shows), the one at the
/// selection, or the last one when the selection is past the end.  With no
/// row shown, or a selected row without cells, nothing is asked.  The state
/// stays as it is.
pub proof fn lemma_enter_opens_shown_row(a: AppView, menu_len: int)
    requires
        a.dialog is None,
        !a.filter_input,
        a.screen is Overview,
        a.overview_view == OverviewView::Tables,
        a.overview is Some,
        a.table_index < 3,
    ensures
        ({
            let shown = sorted_rows(
                table_at(a.overview->0, a.table_index as int),
                filter_key(a.filter_query),
                a.sort_asc,
            );
            let sel = a.table_selection[a.table_index as int];
            let row = if sel < shown.len() {
                shown[sel as int]
            } else {
                shown.last()
            };
            key_step(a, Key::Enter, menu_len) == (a, if shown.len() > 0 && row.len() > 0 {
                ActionView::ShowDetail(row[0])
            } else {
                ActionView::Continue
            })
        }),
{
}

/// Outside the filter prompt, `q` always leaves the interface, whatever is
/// on display.
pub proof fn lemma_q_leaves(a: AppView, menu_len: int)
    requires
        !a.filter_input || a.dialog is Some,
    ensures
        key_step(a, Key::Char('q'), menu_len).1 == ActionView::Exit,
{
}

/// The state after `n` presses of `p`.
pub open spec fn press_theme_key(a: AppView, n: nat, menu_len: int) -> AppView
    decreases n,
{
    if n == 0 {
        a
    } else {
        key_step(press_theme_key(a, (n - 1) as nat, menu_len), Key::Char('p'), menu_len).0
    }
}

/// Outside the dialog and the filter prompt, `p` moves to the next theme
/// and changes nothing else: after `n` presses the theme is `n` further on,
/// cyclically, so that [`THEME_COUNT`] presses come back to the theme one
/// started from.
pub proof fn lemma_theme_cycle(a: AppView, n: nat, menu_len: int)
    requires
        app_wf(a),
        a.dialog is None,
        !a.filter_input,
    ensures
        press_theme_key(a, n, menu_len) == (AppView {
            theme_index: ((a.theme_index + n) % (THEME_COUNT as int)) as usize,
            ..a
        }),
        press_theme_key(a, THEME_COUNT as nat, menu_len) == a,
{
    lemma_theme_steps(a, n, menu_len);
    lemma_theme_back(a, menu_len);
}

/// [`THEME_COUNT`] presses of `p` come back to the theme one started from.
proof fn lemma_theme_back(a: AppView, menu_len: int)
    requires
        app_wf(a),
        a.dialog is None,
        !a.filter_input,
    ensures
        press_theme_key(a, THEME_COUNT as nat, menu_len) == a,
{
    lemma_theme_steps(a, THEME_COUNT as nat, menu_len);
    vstd::arithmetic::div_mod::lemma_mod_add_multiples_vanish(a.theme_index as int, THEME_COUNT as int);
    vstd::arithmetic::div_mod::lemma_small_mod(a.theme_index as nat, THEME_COUNT as nat);
}

/// After `n` presses of `p` the theme is `n` further on, cyclically.
proof fn lemma_theme_steps(a: AppView, n: nat, menu_len: int)
    requires
        app_wf(a),
        a.dialog is None,
        !a.filter_input,
    ensures
        press_theme_key(a, n, menu_len) == (AppView {
            theme_index: ((a.theme_index + n) % (THEME_COUNT as int)) as usize,
            ..a
        }),
    decreases n,
{
    if n > 0 {
        lemma_theme_steps(a, (n - 1) as nat, menu_len);
        let x = a.theme_index + n - 1;
        vstd::arithmetic::div_mod::lemma_add_mod_noop(x, 1, THEME_COUNT as int);
        vstd::arithmetic::div_mod::lemma_small_mod(1, THEME_COUNT as nat);
    }
}

/// The state after `n` ticks of the animation clock with no reload due.
pub open spec fn ticks(a: AppView, n: nat) -> AppView
    decreases n,
{
    if n == 0 {
        a
    } else {
        tick_step(ticks(a, (n - 1) as nat), false).0
    }
}

/// On the charts of the overview, each tick draws a further step of the
/// charts until they are fully drawn: after `n` ticks, `n` steps more, up to
/// the whole.
pub proof fn lemma_charts_grow(a: AppView, n: nat)
    requires
        a.screen is Overview,
        a.overview_view == OverviewView::Charts,
        a.chart_progress <= CHART_FULL,
    ensures
        ticks(a, n).screen is Overview,
        ticks(a, n).overview_view == OverviewView::Charts,
        ticks(a, n).chart_progress == if a.chart_progress + CHART_STEP * n < CHART_FULL {
            a.chart_progress + CHART_STEP * n
        } else {
            CHART_FULL as int
        },
    decreases n,
{
    if n > 0 {
        lemma_charts_grow(a, (n - 1) as nat);
    }
}

} // verus!
