//! What the screens show, short of drawing it: the texts of table rows,
//! footers and dialogs, which legend entries fit, the sizes and places of
//! pop-ups, and the shading of chart slices.  The terminal library draws
//! these outside.
use vstd::prelude::*;

use super::parse_leading_count;
use super::leading_count;
use super::state::OverviewView;
use crate::analysis::rows_view;
use crate::decimal::{int_text, parse_i32, parse_i32_chars, usize_to_string};
use crate::text::{chars_of, concat_str, string_from_chars, strings_view};

verus! {

// ---------------------------------------------------------------------------
// Cells
// ---------------------------------------------------------------------------

/// Cell `i` of `row`, or the empty text when the row is shorter.
pub open spec fn cell(row: Seq<Seq<char>>, i: int) -> Seq<char> {
    if 0 <= i < row.len() {
        row[i]
    } else {
        Seq::empty()
    }
}

/// Cell `i` of `row`, or the empty text when the row is shorter.
pub fn cell_text(row: &Vec<String>, i: usize) -> (c: String)
    ensures
        c@ == cell(strings_view(row@), i as int),
{
    if i < row.len() {
        row[i].clone()
    } else {
        String::new()
    }
}

// ---------------------------------------------------------------------------
// Overview tables
// ---------------------------------------------------------------------------

/// The row that a table highlights: the selection, or the last row when the
/// selection is past the end (0 for an empty table).
pub open spec fn selected_row(selected: usize, len: usize) -> usize {
    let last = if len == 0 { 0 } else { (len - 1) as usize };
    if selected < last {
        selected
    } else {
        last
    }
}

/// The row that a table highlights.
pub fn table_selected(selected: usize, len: usize) -> (r: usize)
    ensures
        r == selected_row(selected, len),
{
    let last = if len == 0 {
        0
    } else {
        len - 1
    };
    if selected < last {
        selected
    } else {
        last
    }
}

/// The two texts that an overview table shows for its rows: the command,
/// marked with an arrow on the highlighted row of the table in focus, and
/// the count; `(no data)` for an empty table.
pub open spec fn table_texts(rows: Seq<Seq<Seq<char>>>, selected: usize, focused: bool) -> Seq<Seq<Seq<char>>> {
    if rows.len() == 0 {
        seq![seq!["(no data)"@, Seq::empty()]]
    } else {
        Seq::new(
            rows.len(),
            |i: int|
                seq![
                    (if focused && i == selected_row(selected, rows.len() as usize) {
                        "➤ "@
                    } else {
                        "  "@
                    }) + cell(rows[i], 0),
                    cell(rows[i], 1),
                ],
        )
    }
}

/// The texts that an overview table shows (see [`table_texts`]).
pub fn table_row_texts(data: &[Vec<String>], selected: usize, focused: bool) -> (out: Vec<Vec<String>>)
    ensures
        rows_view(out@) == table_texts(rows_view(data@), selected, focused),
{
    let ghost rows = rows_view(data@);
    let mut out: Vec<Vec<String>> = Vec::new();
    if data.len() == 0 {
        let mut row: Vec<String> = Vec::new();
        row.push("(no data)".to_string());
        row.push(String::new());
        out.push(row);
        assert(rows_view(out@) =~= table_texts(rows, selected, focused)) by {
            assert(strings_view(out@[0]@) =~= seq!["(no data)"@, Seq::<char>::empty()]);
        }
        return out;
    }
    let sel = table_selected(selected, data.len());
    let mut i: usize = 0;
    while i < data.len()
        invariant
            rows == rows_view(data@),
            data@.len() > 0,
            sel == selected_row(selected, data@.len() as usize),
            i <= data@.len(),
            rows_view(out@) == table_texts(rows, selected, focused).take(i as int),
        decreases data@.len() - i,
    {
        let prefix = if focused && i == sel {
            "➤ "
        } else {
            "  "
        };
        let left = concat_str(prefix, cell_text(&data[i], 0).as_str());
        let right = cell_text(&data[i], 1);
        let mut row: Vec<String> = Vec::new();
        row.push(left);
        row.push(right);
        assert(strings_view(row@) =~= table_texts(rows, selected, focused)[i as int]);
        let ghost before = out@;
        out.push(row);
        assert(rows_view(out@) =~= rows_view(before).push(strings_view(row@)));
        assert(table_texts(rows, selected, focused).take(i + 1) =~= table_texts(rows, selected, focused).take(
            i as int,
        ).push(table_texts(rows, selected, focused)[i as int]));
        i += 1;
    }
    assert(table_texts(rows, selected, focused).take(data@.len() as int) =~= table_texts(
        rows,
        selected,
        focused,
    ));
    out
}

/// The cells that the recent-commands table shows: command, status and time
/// of each row, or one row saying that there are none.
pub open spec fn recent_cells(rows: Seq<Seq<Seq<char>>>) -> Seq<Seq<Seq<char>>> {
    if rows.len() == 0 {
        seq![seq!["No recent commands"@, Seq::empty(), Seq::empty()]]
    } else {
        rows.map_values(|r: Seq<Seq<char>>| seq![cell(r, 0), cell(r, 1), cell(r, 2)])
    }
}

/// The cells that the recent-commands table shows.
pub fn recent_table_cells(data: &[Vec<String>]) -> (out: Vec<Vec<String>>)
    ensures
        rows_view(out@) == recent_cells(rows_view(data@)),
{
    let ghost rows = rows_view(data@);
    let mut out: Vec<Vec<String>> = Vec::new();
    if data.len() == 0 {
        let mut row: Vec<String> = Vec::new();
        row.push("No recent commands".to_string());
        row.push(String::new());
        row.push(String::new());
        out.push(row);
        assert(rows_view(out@) =~= recent_cells(rows)) by {
            assert(strings_view(out@[0]@) =~= seq![
                "No recent commands"@,
                Seq::<char>::empty(),
                Seq::<char>::empty(),
            ]);
        }
        return out;
    }
    let mut i: usize = 0;
    while i < data.len()
        invariant
            rows == rows_view(data@),
            data@.len() > 0,
            i <= data@.len(),
            rows_view(out@) == rows.take(i as int).map_values(
                |r: Seq<Seq<char>>| seq![cell(r, 0), cell(r, 1), cell(r, 2)],
            ),
        decreases data@.len() - i,
    {
        let mut row: Vec<String> = Vec::new();
        row.push(cell_text(&data[i], 0));
        row.push(cell_text(&data[i], 1));
        row.push(cell_text(&data[i], 2));
        let ghost r = rows[i as int];
        assert(strings_view(row@) =~= seq![cell(r, 0), cell(r, 1), cell(r, 2)]);
        let ghost before = out@;
        out.push(row);
        assert(rows_view(out@) =~= rows_view(before).push(strings_view(row@)));
        assert(rows.take(i + 1).map_values(|r: Seq<Seq<char>>| seq![cell(r, 0), cell(r, 1), cell(r, 2)])
            =~= rows.take(i as int).map_values(
            |r: Seq<Seq<char>>| seq![cell(r, 0), cell(r, 1), cell(r, 2)],
        ).push(seq![cell(r, 0), cell(r, 1), cell(r, 2)]));
        i += 1;
    }
    assert(rows.take(data@.len() as int) =~= rows);
    out
}

/// The score that an intrusion row's second cell gives (0 when it is not an
/// `i32`), by which its indicator is coloured.
pub open spec fn row_score(r: Seq<Seq<char>>) -> i32 {
    match parse_i32(cell(r, 1)) {
        Some(s) => s,
        None => 0,
    }
}

/// The score of each intrusion row (see [`row_score`]).
pub fn intrusion_scores(data: &[Vec<String>]) -> (scores: Vec<i32>)
    ensures
        scores@ == rows_view(data@).map_values(|r: Seq<Seq<char>>| row_score(r)),
{
    let ghost rows = rows_view(data@);
    let mut scores: Vec<i32> = Vec::new();
    let mut i: usize = 0;
    while i < data.len()
        invariant
            rows == rows_view(data@),
            i <= data@.len(),
            scores@ == rows.take(i as int).map_values(|r: Seq<Seq<char>>| row_score(r)),
        decreases data@.len() - i,
    {
        let text = cell_text(&data[i], 1);
        let s = match parse_i32_chars(&chars_of(text.as_str())) {
            Some(v) => v,
            None => 0,
        };
        assert(s == row_score(rows[i as int]));
        scores.push(s);
        assert(rows.take(i + 1).map_values(|r: Seq<Seq<char>>| row_score(r)) =~= rows.take(
            i as int,
        ).map_values(|r: Seq<Seq<char>>| row_score(r)).push(row_score(rows[i as int])));
        i += 1;
    }
    assert(rows.take(data@.len() as int) =~= rows);
    scores
}

// ---------------------------------------------------------------------------
// Charts
// ---------------------------------------------------------------------------

/// The count that a chart row gives its slice: the number at the start of
/// its second cell, or 0.
pub open spec fn row_count(r: Seq<Seq<char>>) -> u64 {
    match leading_count(cell(r, 1)) {
        Some(n) => n,
        None => 0,
    }
}

/// The count of each chart row (see [`row_count`]).
pub fn chart_counts(data: &[Vec<String>]) -> (counts: Vec<u64>)
    ensures
        counts@ == rows_view(data@).map_values(|r: Seq<Seq<char>>| row_count(r)),
{
    let ghost rows = rows_view(data@);
    let mut counts: Vec<u64> = Vec::new();
    let mut i: usize = 0;
    while i < data.len()
        invariant
            rows == rows_view(data@),
            i <= data@.len(),
            counts@ == rows.take(i as int).map_values(|r: Seq<Seq<char>>| row_count(r)),
        decreases data@.len() - i,
    {
        let n = if data[i].len() > 1 {
            match parse_leading_count(data[i][1].as_str()) {
                Some(v) => v,
                None => 0,
            }
        } else {
            0
        };
        assert(n == row_count(rows[i as int]));
        counts.push(n);
        assert(rows.take(i + 1).map_values(|r: Seq<Seq<char>>| row_count(r)) =~= rows.take(
            i as int,
        ).map_values(|r: Seq<Seq<char>>| row_count(r)).push(row_count(rows[i as int])));
        i += 1;
    }
    assert(rows.take(data@.len() as int) =~= rows);
    counts
}

/// The height of a chart's legend in an area `height` rows high showing
/// `rows` entries: none when at most six rows are left for the pie,
/// otherwise room for the entries and a border line, capped by what is
/// left but at least three.
pub open spec fn legend_height_spec(height: u16, rows: int) -> u16 {
    let room = if height > 6 { (height - 6) as u16 } else { 0u16 };
    if room == 0 {
        0
    } else {
        let want = rows + 1;
        let capped = if want < room { want } else { room as int };
        if capped < 3 { 3 } else { capped as u16 }
    }
}

/// The height of a chart's legend (see [`legend_height_spec`]).
pub fn legend_height(height: u16, rows: usize) -> (h: u16)
    requires
        rows < 65535,
    ensures
        h == legend_height_spec(height, rows as int),
{
    let room: u16 = if height > 6 {
        height - 6
    } else {
        0
    };
    if room == 0 {
        return 0;
    }
    let want = rows as u16 + 1;
    let capped = if want < room {
        want
    } else {
        room
    };
    if capped < 3 {
        3
    } else {
        capped
    }
}

/// How many legend entries fit in an area `height` rows high: all but the
/// two border lines, and at least one.
pub open spec fn legend_visible(height: u16) -> int {
    if height > 3 {
        height - 2
    } else {
        1
    }
}

/// The first legend entry shown, with `total` entries of which `visible`
/// fit and `selected` selected: the window scrolls just far enough to show
/// the selection, and no further than the last full window.
pub open spec fn legend_start(total: int, visible: int, selected: int) -> int {
    if total <= visible {
        0
    } else {
        let start = if selected >= visible { selected + 1 - visible } else { 0 };
        if start > total - visible {
            total - visible
        } else {
            start
        }
    }
}

/// One past the last legend entry shown.
pub open spec fn legend_end(total: int, visible: int, selected: int) -> int {
    let e = legend_start(total, visible, selected) + visible;
    if e < total { e } else { total }
}

/// The legend's title: the range shown and the total when not all entries
/// fit, else just `Legend`.
pub open spec fn legend_title_text(total: int, visible: int, selected: int) -> Seq<char> {
    if total > visible {
        "Legend "@ + int_text(legend_start(total, visible, selected) + 1) + "-"@ + int_text(
            legend_end(total, visible, selected),
        ) + " / "@ + int_text(total)
    } else {
        "Legend"@
    }
}

/// Which legend entries a legend `height` rows high shows, for `total`
/// entries with `selected` selected: the first one, one past the last one,
/// and the title.
pub fn legend_window(total: usize, height: u16, selected: usize) -> (r: (usize, usize, String))
    ensures
        r.0 == legend_start(total as int, legend_visible(height), selected as int),
        r.1 == legend_end(total as int, legend_visible(height), selected as int),
        r.2@ == legend_title_text(total as int, legend_visible(height), selected as int),
{
    let visible: usize = if height > 3 {
        (height - 2) as usize
    } else {
        1
    };
    let mut start: usize = 0;
    if total > visible {
        if selected >= visible {
            start = selected - visible + 1;
        }
        let max_start = total - visible;
        if start > max_start {
            start = max_start;
        }
    }
    let end = if total > visible {
        start + visible
    } else {
        total
    };
    let title = if total > visible {
        let a = concat_str("Legend ", usize_to_string(start + 1).as_str());
        let b = concat_str(a.as_str(), "-");
        let c = concat_str(b.as_str(), usize_to_string(end).as_str());
        let d = concat_str(c.as_str(), " / ");
        concat_str(d.as_str(), usize_to_string(total).as_str())
    } else {
        "Legend".to_string()
    };
    (start, end, title)
}

/// The first `max` characters of `label` (all of it when it is shorter).
pub fn truncate_chars(label: &str, max: usize) -> (t: String)
    ensures
        t@ == if label@.len() <= max { label@ } else { label@.take(max as int) },
{
    let v = chars_of(label);
    if v.len() <= max {
        return label.to_string();
    }
    let mut out: Vec<char> = Vec::new();
    let mut i: usize = 0;
    while i < max
        invariant
            v@ == label@,
            max < v@.len(),
            i <= max,
            out@ == v@.take(i as int),
        decreases max - i,
    {
        out.push(v[i]);
        i += 1;
        assert(out@ =~= v@.take(i as int));
    }
    string_from_chars(&out)
}

/// An RGB colour.
#[derive(Debug, Clone, Copy, PartialEq, Eq, Structural)]
pub struct Rgb {
    pub r: u8,
    pub g: u8,
    pub b: u8,
}

/// `x + amount`, saturating at 255.
pub open spec fn sat_add(x: u8, amount: u8) -> u8 {
    if x + amount > 255 { 255 } else { (x + amount) as u8 }
}

/// `x - amount`, saturating at 0.
pub open spec fn sat_sub(x: u8, amount: u8) -> u8 {
    if x < amount { 0 } else { (x - amount) as u8 }
}

/// The colour `amount` lighter in each channel (saturating).
pub fn brighten_rgb(c: Rgb, amount: u8) -> (d: Rgb)
    ensures
        d == (Rgb { r: sat_add(c.r, amount), g: sat_add(c.g, amount), b: sat_add(c.b, amount) }),
{
    Rgb {
        r: c.r.saturating_add(amount),
        g: c.g.saturating_add(amount),
        b: c.b.saturating_add(amount),
    }
}

/// The colour `amount` darker in each channel (saturating).
pub fn dim_rgb(c: Rgb, amount: u8) -> (d: Rgb)
    ensures
        d == (Rgb { r: sat_sub(c.r, amount), g: sat_sub(c.g, amount), b: sat_sub(c.b, amount) }),
{
    Rgb {
        r: c.r.saturating_sub(amount),
        g: c.g.saturating_sub(amount),
        b: c.b.saturating_sub(amount),
    }
}

/// How a chart slice or legend entry is shaded.
#[derive(Debug, Clone, Copy, PartialEq, Eq, Structural)]
pub enum Shade {
    /// Its own colour.
    Plain,
    /// Lighter by [`HIGHLIGHT_AMOUNT`]: the selected slice of the chart in
    /// focus.
    Highlighted,
    /// Darker by [`DIM_AMOUNT`]: the other slices of the chart in focus.
    Dimmed,
}

/// How much lighter the selected slice is drawn.
pub const HIGHLIGHT_AMOUNT: u8 = 40;

/// How much darker the other slices of the chart in focus are drawn.
pub const DIM_AMOUNT: u8 = 20;

/// How slice `idx` is shaded, with `selected` selected.
pub open spec fn shade_spec(idx: usize, selected: usize, focused: bool) -> Shade {
    if focused && idx == selected {
        Shade::Highlighted
    } else if focused {
        Shade::Dimmed
    } else {
        Shade::Plain
    }
}

/// How slice `idx` of a chart is shaded.
pub fn slice_shade(idx: usize, selected: usize, focused: bool) -> (s: Shade)
    ensures
        s == shade_spec(idx, selected, focused),
{
    if focused && idx == selected {
        Shade::Highlighted
    } else if focused {
        Shade::Dimmed
    } else {
        Shade::Plain
    }
}

/// How a legend entry is shaded: highlighted when it is the selected entry
/// of the chart in focus, else in its own colour.
pub fn legend_shade(idx: usize, selected: usize, focused: bool) -> (s: Shade)
    ensures
        s == if focused && idx == selected { Shade::Highlighted } else { Shade::Plain },
{
    if focused && idx == selected {
        Shade::Highlighted
    } else {
        Shade::Plain
    }
}

// ---------------------------------------------------------------------------
// Pop-ups
// ---------------------------------------------------------------------------

/// A rectangle of the screen.
#[derive(Debug, Clone, Copy, PartialEq, Eq, Structural)]
pub struct Area {
    pub x: u16,
    pub y: u16,
    pub width: u16,
    pub height: u16,
}

/// `a - b`, saturating at 0.
pub open spec fn sub_or_zero(a: u16, b: u16) -> u16 {
    if a < b { 0 } else { (a - b) as u16 }
}

/// A box `width` by `height` centred in `area`.
pub open spec fn centred(area: Area, width: u16, height: u16) -> Area {
    Area {
        x: (area.x + sub_or_zero(area.width, width) / 2) as u16,
        y: (area.y + sub_or_zero(area.height, height) / 2) as u16,
        width,
        height,
    }
}

/// A box `width` by `height` centred in `area` (whose far edges lie on the
/// screen).
pub fn centre_box(area: Area, width: u16, height: u16) -> (b: Area)
    requires
        area.x + area.width <= u16::MAX,
        area.y + area.height <= u16::MAX,
    ensures
        b == centred(area, width, height),
{
    let dx = area.width.saturating_sub(width) / 2;
    let dy = area.height.saturating_sub(height) / 2;
    Area { x: area.x + dx, y: area.y + dy, width, height }
}

/// The filter prompt in `area`: three rows high, as wide as the area less
/// four columns but at most sixty, centred.
pub open spec fn prompt_area(area: Area) -> Area {
    let w = sub_or_zero(area.width, 4);
    centred(area, if w < 60 { w } else { 60 }, 3)
}

/// Where the filter prompt goes in `area`.
pub fn filter_prompt_area(area: Area) -> (b: Area)
    requires
        area.x + area.width <= u16::MAX,
        area.y + area.height <= u16::MAX,
    ensures
        b == prompt_area(area),
{
    let w = area.width.saturating_sub(4);
    let width = if w < 60 {
        w
    } else {
        60
    };
    centre_box(area, width, 3)
}

/// The detail dialog on a screen `size`: as wide as the screen less six
/// columns, at most 76 and at least 30; nine rows high for a command's
/// details and seven for a message; centred.
pub open spec fn dialog_area(size: Area, is_command: bool) -> Area {
    let w = sub_or_zero(size.width, 6);
    let w1 = if w < 76 { w } else { 76 };
    centred(size, if w1 > 30 { w1 } else { 30 }, if is_command { 9 } else { 7 })
}

/// Where the detail dialog goes on a screen `size`.
pub fn detail_dialog_area(size: Area, is_command: bool) -> (b: Area)
    requires
        size.x + size.width <= u16::MAX,
        size.y + size.height <= u16::MAX,
    ensures
        b == dialog_area(size, is_command),
{
    let w = size.width.saturating_sub(6);
    let w1 = if w < 76 {
        w
    } else {
        76
    };
    let width = if w1 > 30 {
        w1
    } else {
        30
    };
    let height: u16 = if is_command {
        9
    } else {
        7
    };
    centre_box(size, width, height)
}

// ---------------------------------------------------------------------------
// Footers and captions
// ---------------------------------------------------------------------------

/// The overview's footer: the keys of the presentation on display, with
/// the sort order (`A->Z` or `Z->A`), the filter (`none` when empty) and the
/// theme's name.
pub open spec fn overview_footer_text(view: OverviewView, asc: bool, filter: Seq<char>, theme: Seq<char>) -> Seq<char> {
    match view {
        OverviewView::Tables => "t: tables  c: charts  ←/→: table  ↑/↓: row  enter: details  s: sort("@
            + (if asc { "A->Z"@ } else { "Z->A"@ }) + ")  /: filter("@ + (if filter.len() == 0 {
            "none"@
        } else {
            filter
        }) + ")  x: clear  p: theme("@ + theme + ")  b: back  q: quit"@,
        OverviewView::Charts => "t: tables  c: charts  ←/→: chart  ↑/↓: slice  p: theme("@ + theme
            + ")  b: back  q: quit"@,
    }
}

/// The overview's footer (see [`overview_footer_text`]).
pub fn overview_footer(view: OverviewView, asc: bool, filter: &str, theme: &str) -> (s: String)
    ensures
        s@ == overview_footer_text(view, asc, filter@, theme@),
{
    match view {
        OverviewView::Tables => {
            let sort = if asc {
                "A->Z"
            } else {
                "Z->A"
            };
            let shown = if chars_of(filter).len() == 0 {
                "none"
            } else {
                filter
            };
            let a = concat_str(
                "t: tables  c: charts  ←/→: table  ↑/↓: row  enter: details  s: sort(",
                sort,
            );
            let b = concat_str(a.as_str(), ")  /: filter(");
            let c = concat_str(b.as_str(), shown);
            let d = concat_str(c.as_str(), ")  x: clear  p: theme(");
            let e = concat_str(d.as_str(), theme);
            concat_str(e.as_str(), ")  b: back  q: quit")
        },
        OverviewView::Charts => {
            let a = concat_str("t: tables  c: charts  ←/→: chart  ↑/↓: slice  p: theme(", theme);
            concat_str(a.as_str(), ")  b: back  q: quit")
        },
    }
}

/// The menu's footer, with the theme's name.
pub fn menu_footer(theme: &str) -> (s: String)
    ensures
        s@ == "Use Up/Down + Enter. p: theme ("@ + theme@ + ").  q: quit."@,
{
    let a = concat_str("Use Up/Down + Enter. p: theme (", theme);
    concat_str(a.as_str(), ").  q: quit.")
}

/// The watcher screen's footer, with the theme's name.
pub fn watcher_footer(theme: &str) -> (s: String)
    ensures
        s@ == "p: theme("@ + theme@ + ")  b: back  q: quit"@,
{
    let a = concat_str("p: theme(", theme);
    concat_str(a.as_str(), ")  b: back  q: quit")
}

/// The watcher screen's text, headed by the spinner's frame `frame`.
pub fn watcher_text(frame: &str) -> (s: String)
    ensures
        s@ == frame@ + "  Realtime watcher is running\nListening for new commands..."@,
{
    concat_str(frame, "  Realtime watcher is running\nListening for new commands...")
}

/// The mark before menu item `idx`: an arrow for the selected one.
pub fn menu_prefix(idx: usize, selected: usize) -> (p: &'static str)
    ensures
        p@ == if idx == selected { "> "@ } else { "  "@ },
{
    if idx == selected {
        "> "
    } else {
        "  "
    }
}

/// The filter prompt's text for the filter being typed.
pub fn filter_prompt_text(buffer: &str) -> (s: String)
    ensures
        s@ == "/ filter: "@ + buffer@,
{
    concat_str("/ filter: ", buffer)
}

} // verus!
