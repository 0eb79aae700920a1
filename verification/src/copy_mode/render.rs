//! What copy mode shows: rows of styled runs.

use crate::copy_mode::model;
use crate::copy_mode::position;
use crate::copy_mode::yank;
use crate::text;
use crate::copy_mode::model::{CopyModeState, CopyStateV, RowV, SearchMatch, SelectionMode, WrappedRow};
use vstd::prelude::*;

verus! {

/// Characters of one style, next to each other on a row.
#[derive(Debug)]
pub struct CopyRenderRun {
    pub text: String,
    pub fg: String,
    pub bg: String,
    pub flags: u8,
    pub width: u16,
}

/// The runs of one row on screen.
#[derive(Debug)]
pub struct CopyRenderRow {
    pub runs: Vec<CopyRenderRun>,
}

/// The rows on screen, the cursor among them, and how far the view is scrolled: rows above it out
/// of the most there can be.
#[derive(Debug)]
pub struct CopyRenderView {
    pub rows: Vec<CopyRenderRow>,
    pub cursor_row: u16,
    pub cursor_col: u16,
    pub scroll_ratio: Option<(usize, usize)>,
}

#[derive(Clone, Copy, Debug, PartialEq, Eq, Structural)]
pub enum StyleKind {
    Plain,
    Search,
    ActiveSearch,
    Selected,
}

#[verifier::ext_equal]
pub struct RunV {
    pub text: Seq<char>,
    pub fg: Seq<char>,
    pub bg: Seq<char>,
    pub flags: u8,
    pub width: u16,
}

#[verifier::ext_equal]
pub struct ViewV {
    pub rows: Seq<Seq<RunV>>,
    pub cursor_row: u16,
    pub cursor_col: u16,
    pub scroll_ratio: Option<(usize, usize)>,
}

impl View for CopyRenderRun {
    type V = RunV;

    open spec fn view(&self) -> RunV {
        RunV {
            text: self.text@,
            fg: self.fg@,
            bg: self.bg@,
            flags: self.flags,
            width: self.width,
        }
    }
}

impl View for CopyRenderRow {
    type V = Seq<RunV>;

    open spec fn view(&self) -> Seq<RunV> {
        Seq::new(self.runs@.len(), |i: int| self.runs@[i]@)
    }
}

impl View for CopyRenderView {
    type V = ViewV;

    open spec fn view(&self) -> ViewV {
        ViewV {
            rows: Seq::new(self.rows@.len(), |i: int| self.rows@[i]@),
            cursor_row: self.cursor_row,
            cursor_col: self.cursor_col,
            scroll_ratio: self.scroll_ratio,
        }
    }
}

/// Foreground, background and attribute flags of a style.
pub open spec fn style_colors(style: StyleKind) -> (Seq<char>, Seq<char>, u8) {
    match style {
        StyleKind::Plain => ("default"@, "default"@, 0),
        StyleKind::Search => ("black"@, "yellow"@, 0),
        StyleKind::ActiveSearch => ("white"@, "blue"@, 2),
        StyleKind::Selected => ("black"@, "cyan"@, 2),
    }
}

pub open spec fn styled_run(style: StyleKind, text: Seq<char>) -> RunV {
    RunV {
        text,
        fg: style_colors(style).0,
        bg: style_colors(style).1,
        flags: style_colors(style).2,
        width: text::min_int(text::columns(text) as int, 65535) as u16,
    }
}

/// The columns of a line that the selection covers, if it reaches the line.
pub open spec fn selected_columns(s: CopyStateV, line: int) -> Option<(usize, usize)> {
    match s.anchor {
        None => None,
        Some(anchor) => {
            let whole = (0usize, model::line_len(s.snapshot, line) as usize);
            let first = text::min_int(anchor.line as int, s.cursor.line as int);
            let last = text::max_int(anchor.line as int, s.cursor.line as int);
            if line < first || line > last {
                None
            } else {
                match s.selection_mode {
                    SelectionMode::Char => {
                        let start = yank::earlier(anchor, s.cursor);
                        let end = yank::later(anchor, s.cursor);
                        if start == end {
                            None
                        } else {
                            Some(
                                (
                                    if line == start.line {
                                        start.col
                                    } else {
                                        0
                                    },
                                    if line == end.line {
                                        end.col
                                    } else {
                                        whole.1
                                    },
                                ),
                            )
                        }
                    },
                    SelectionMode::Line => Some(whole),
                    SelectionMode::Rect => Some(
                        (
                            text::min_int(anchor.col as int, s.cursor.col as int) as usize,
                            text::max_int(anchor.col as int, s.cursor.col as int) as usize,
                        ),
                    ),
                }
            }
        },
    }
}

pub open spec fn covers(range: (usize, usize), col: int) -> bool {
    range.0 <= col < range.1
}

/// How a character is shown: the selection before the match jumped to, that before other matches.
pub open spec fn style_at(s: CopyStateV, line: int, col: int) -> StyleKind {
    if selected_columns(s, line) matches Some(range) && covers(range, col) {
        StyleKind::Selected
    } else if s.search_idx < s.search_matches.len() && match_covers(
        s.search_matches[s.search_idx as int],
        line,
        col,
    ) {
        StyleKind::ActiveSearch
    } else if exists|i: int|
        #![trigger s.search_matches[i]]
        0 <= i < s.search_matches.len() && match_covers(s.search_matches[i], line, col) {
        StyleKind::Search
    } else {
        StyleKind::Plain
    }
}

pub open spec fn match_covers(m: SearchMatch, line: int, col: int) -> bool {
    m.line == line && m.start <= col < m.end
}

/// Where the run of equally shown characters that holds `at` ends.
pub open spec fn run_stop(s: CopyStateV, row: RowV, at: int, next: int) -> int
    decreases row.text.len() - next,
{
    if next >= row.text.len() || style_at(s, row.line as int, row.start_col + next) != style_at(
        s,
        row.line as int,
        row.start_col + at,
    ) {
        next
    } else {
        run_stop(s, row, at, next + 1)
    }
}

pub proof fn lemma_run_stop(s: CopyStateV, row: RowV, at: int, next: int)
    requires
        at < next <= row.text.len(),
    ensures
        next <= run_stop(s, row, at, next) <= row.text.len(),
    decreases row.text.len() - next,
{
    if next < row.text.len() && style_at(s, row.line as int, row.start_col + next) == style_at(
        s,
        row.line as int,
        row.start_col + at,
    ) {
        lemma_run_stop(s, row, at, next + 1);
    }
}

/// The row's characters from `at` on, in runs as long as the style stays the same.
pub open spec fn runs_from(s: CopyStateV, row: RowV, at: int) -> Seq<RunV>
    decreases row.text.len() - at,
{
    if at >= row.text.len() {
        Seq::empty()
    } else {
        proof {
            lemma_run_stop(s, row, at, at + 1);
        }
        let stop = run_stop(s, row, at, at + 1);
        seq![
            styled_run(
                style_at(s, row.line as int, row.start_col + at),
                row.text.subrange(at, stop),
            ),
        ] + runs_from(s, row, stop)
    }
}

/// What one screen row shows: nothing where there is no row.
pub open spec fn row_shown(s: CopyStateV, index: int) -> Seq<RunV> {
    if 0 <= index < s.wrapped.rows.len() {
        runs_from(s, s.wrapped.rows[index], 0)
    } else {
        Seq::empty()
    }
}

/// Rows above the view out of the most there can be, where not all rows fit.
pub open spec fn ratio_of(s: CopyStateV, height: int) -> Option<(usize, usize)> {
    if s.wrapped.rows.len() > height {
        Some((s.scroll_top, (s.wrapped.rows.len() - height) as usize))
    } else {
        None
    }
}

/// What is shown of a state on `height` rows.
pub open spec fn view_of(s: CopyStateV, height: int) -> ViewV {
    let (row, col) = position::display_position(s.snapshot, s.wrapped, s.cursor);
    ViewV {
        rows: Seq::new(height as nat, |i: int| row_shown(s, s.scroll_top + i)),
        cursor_row: (text::max_int(row - s.scroll_top, 0) as usize) as u16,
        cursor_col: col as u16,
        scroll_ratio: ratio_of(s, height),
    }
}

fn style_run(style: StyleKind, text: String) -> (r: CopyRenderRun)
    ensures
        r@ == styled_run(style, text@),
{
    let (fg, bg, flags): (&str, &str, u8) = match style {
        StyleKind::Plain => ("default", "default", 0),
        StyleKind::Search => ("black", "yellow", 0),
        StyleKind::ActiveSearch => ("white", "blue", 2),
        StyleKind::Selected => ("black", "cyan", 2),
    };
    let chars = text::chars_of(text.as_str());
    let width: usize = text::text_width(chars.as_slice());
    let shown: u16 = if width < 65535 {
        width as u16
    } else {
        65535
    };
    CopyRenderRun { text, fg: fg.to_string(), bg: bg.to_string(), flags, width: shown }
}

/// The columns of a line that the selection covers, if it reaches the line.
pub fn selection_range_for_line(state: &CopyModeState, line: usize) -> (r: Option<(usize, usize)>)
    ensures
        r == selected_columns(state@, line as int),
{
    let anchor = match state.anchor {
        None => {
            return None;
        },
        Some(a) => a,
    };
    let cursor = state.cursor;
    let (start, end) = yank::ordered_points(anchor, cursor);
    if line < start.line || line > end.line {
        return None;
    }
    let len: usize = position::line_char_len(&state.snapshot, line);
    match state.selection_mode {
        SelectionMode::Char => {
            if start == end {
                None
            } else {
                let from: usize = if line == start.line {
                    start.col
                } else {
                    0
                };
                let to: usize = if line == end.line {
                    end.col
                } else {
                    len
                };
                Some((from, to))
            }
        },
        SelectionMode::Line => Some((0, len)),
        SelectionMode::Rect => {
            let left: usize = if anchor.col <= cursor.col {
                anchor.col
            } else {
                cursor.col
            };
            let right: usize = if anchor.col >= cursor.col {
                anchor.col
            } else {
                cursor.col
            };
            Some((left, right))
        },
    }
}

fn any_match_covers(matches: &Vec<SearchMatch>, line: usize, col: usize) -> (r: bool)
    ensures
        r == exists|i: int|
            #![trigger matches@[i]]
            0 <= i < matches@.len() && match_covers(matches@[i], line as int, col as int),
{
    let mut i: usize = 0;
    while i < matches.len()
        invariant
            i <= matches@.len(),
            forall|k: int|
                #![trigger matches@[k]]
                0 <= k < i ==> !match_covers(matches@[k], line as int, col as int),
        decreases matches@.len() - i,
    {
        let m = matches[i];
        if m.line == line && m.start <= col && col < m.end {
            proof {
                assert(match_covers(matches@[i as int], line as int, col as int));
            }
            return true;
        }
        i = i + 1;
    }
    false
}

/// How a character is shown.
pub fn style_for_col(
    state: &CopyModeState,
    selected: Option<(usize, usize)>,
    line: usize,
    col: usize,
) -> (r: StyleKind)
    requires
        selected == selected_columns(state@, line as int),
    ensures
        r == style_at(state@, line as int, col as int),
{
    if let Some((from, to)) = selected {
        if from <= col && col < to {
            return StyleKind::Selected;
        }
    }
    if state.search_idx < state.search_matches.len() {
        let m = state.search_matches[state.search_idx];
        if m.line == line && m.start <= col && col < m.end {
            return StyleKind::ActiveSearch;
        }
    }
    if any_match_covers(&state.search_matches, line, col) {
        StyleKind::Search
    } else {
        StyleKind::Plain
    }
}

/// The runs of one row.
pub fn render_row(state: &CopyModeState, row: &WrappedRow) -> (r: CopyRenderRow)
    requires
        row.start_col + row.text@.len() <= usize::MAX,
    ensures
        r@ == runs_from(state@, row@, 0),
{
    let chars = text::chars_of(row.text.as_str());
    let n: usize = chars.len();
    let selected = selection_range_for_line(state, row.line);
    let ghost s = state@;
    let ghost all = runs_from(s, row@, 0);
    let mut runs: Vec<CopyRenderRun> = Vec::new();
    let mut at: usize = 0;
    proof {
        assert(run_views(runs) + all =~= all);
    }
    while at < n
        invariant
            n == chars@.len(),
            chars@ == row@.text,
            s == state@,
            selected == selected_columns(s, row.line as int),
            row.start_col + n <= usize::MAX,
            at <= n,
            run_views(runs) + runs_from(s, row@, at as int) == all,
        decreases n - at,
    {
        let style = style_for_col(state, selected, row.line, row.start_col + at);
        let mut stop: usize = at + 1;
        while stop < n && style_for_col(state, selected, row.line, row.start_col + stop) == style
            invariant
                n == chars@.len(),
                chars@ == row@.text,
                s == state@,
                selected == selected_columns(s, row.line as int),
                row.start_col + n <= usize::MAX,
                at < stop <= n,
                style == style_at(s, row.line as int, row.start_col + at),
                run_stop(s, row@, at as int, stop as int) == run_stop(
                    s,
                    row@,
                    at as int,
                    at + 1,
                ),
            decreases n - stop,
        {
            stop = stop + 1;
        }
        let ghost before = run_views(runs);
        let text = text::slice_of(chars.as_slice(), at, stop);
        let run = style_run(style, text);
        let ghost run_v = run@;
        runs.push(run);
        proof {
            assert(run_views(runs) =~= before.push(run_v));
            let rest = runs_from(s, row@, stop as int);
            assert(before.push(run_v) + rest =~= before + (seq![run_v] + rest));
        }
        at = stop;
    }
    let r = CopyRenderRow { runs };
    proof {
        assert(runs_from(s, row@, at as int) =~= Seq::empty());
        assert(r@ =~= all);
    }
    r
}

spec fn run_views(runs: Vec<CopyRenderRun>) -> Seq<RunV> {
    Seq::new(runs@.len(), |i: int| runs@[i]@)
}

/// How far the view of a state is scrolled: rows above it out of the most there can be.
pub fn state_scroll_ratio(state: &CopyModeState, height: usize) -> (r: Option<(usize, usize)>)
    ensures
        r == ratio_of(state@, height as int),
{
    let total: usize = state.wrapped.rows.len();
    if total > height {
        Some((state.scroll_top, total - height))
    } else {
        None
    }
}

#[verifier::truncate]
fn low_u16(n: usize) -> (r: u16)
    ensures
        r == n as u16,
{
    n as u16
}

/// The rows, cursor and scroll position of a state on `height` rows.
pub fn render_state(state: &CopyModeState, height: usize) -> (r: CopyRenderView)
    requires
        position::state_ok(state@),
        state@.wrapped.rows.len() > 0,
        state@.cursor.line < state@.snapshot.lines.len(),
    ensures
        r@ == view_of(state@, height as int),
{
    let (cursor_row, cursor_col) = position::current_display_position(state);
    let ghost s = state@;
    let total: usize = state.wrapped.rows.len();
    let mut rows: Vec<CopyRenderRow> = Vec::new();
    let mut i: usize = 0;
    while i < height
        invariant
            s == state@,
            total == s.wrapped.rows.len(),
            position::rows_placed(s.wrapped),
            i <= height,
            rows@.len() == i,
            forall|k: int| 0 <= k < i ==> (#[trigger] rows@[k])@ == row_shown(s, s.scroll_top + k),
        decreases height - i,
    {
        let index: usize = state.scroll_top.saturating_add(i);
        if index < total {
            let row = &state.wrapped.rows[index];
            proof {
                assert(s.wrapped.rows[index as int] == row@);
            }
            rows.push(render_row(state, row));
        } else {
            let blank = CopyRenderRow { runs: Vec::new() };
            proof {
                assert(blank@ =~= Seq::empty());
            }
            rows.push(blank);
        }
        i = i + 1;
    }
    let up: usize = if cursor_row > state.scroll_top {
        cursor_row - state.scroll_top
    } else {
        0
    };
    let r = CopyRenderView {
        rows,
        cursor_row: low_u16(up),
        cursor_col: low_u16(cursor_col),
        scroll_ratio: state_scroll_ratio(state, height),
    };
    proof {
        assert(r@ =~= view_of(s, height as int));
    }
    r
}

} // verus!
