//! Selecting text with the mouse.

use crate::commands;
use crate::copy_mode::position;
use crate::frame;
use crate::geometry;
use crate::navigation;
use crate::text;
use crate::frame::{ContentRowV, FrameData, LayoutJson, PaneContentRow};
use crate::geometry::Rect;
use crate::keys::MouseEvent;
use vstd::prelude::*;

verus! {

/// Milliseconds within which a second click on a cell makes a double click.
pub const DOUBLE_CLICK_INTERVAL: u64 = 400;

/// A click, with the time in milliseconds at which it came.
#[derive(Clone, Copy, Debug, PartialEq, Eq, Structural)]
pub struct LastMouseClick {
    pub row: u16,
    pub col: u16,
    pub at: u64,
}

/// Where a drag began.
#[derive(Clone, Copy, Debug, PartialEq, Eq, Structural)]
pub struct MouseDragOrigin {
    pub row: u16,
    pub col: u16,
}

/// A selection on screen. The end column is one past the last column selected.
#[derive(Clone, Copy, Debug, PartialEq, Eq, Structural)]
pub struct MouseSelection {
    pub start_col: u16,
    pub start_row: u16,
    pub end_col: u16,
    pub end_row: u16,
}

/// Rows and columns of a selection in reading order.
#[derive(Clone, Copy, Debug, PartialEq, Eq, Structural)]
pub struct Bounds {
    pub start_row: u16,
    pub start_col: u16,
    pub end_row: u16,
    pub end_col: u16,
}

/// A selection in reading order, whichever end was dragged. Turning it round keeps the cell at
/// either end selected.
pub open spec fn normalized(sel: MouseSelection) -> Bounds {
    let last = text::max_int(sel.end_col - 1, 0);
    if sel.start_row < sel.end_row || (sel.start_row == sel.end_row && sel.start_col <= last) {
        Bounds {
            start_row: sel.start_row,
            start_col: sel.start_col,
            end_row: sel.end_row,
            end_col: sel.end_col,
        }
    } else {
        Bounds {
            start_row: sel.end_row,
            start_col: last as u16,
            end_row: sel.start_row,
            end_col: navigation::sat16(sel.start_col + 1) as u16,
        }
    }
}

/// A selection in reading order.
pub fn normalized_mouse_selection(sel: &MouseSelection) -> (r: (u16, u16, u16, u16))
    ensures
        ({
            let b = normalized(*sel);
            r == (b.start_row, b.start_col, b.end_row, b.end_col)
        }),
{
    let last: u16 = sel.end_col.saturating_sub(1);
    if sel.start_row < sel.end_row || (sel.start_row == sel.end_row && sel.start_col <= last) {
        (sel.start_row, sel.start_col, sel.end_row, sel.end_col)
    } else {
        (sel.end_row, last, sel.start_row, sel.start_col.saturating_add(1))
    }
}

/// A selection in reading order never ends on a row above its first, and its bounds, taken as a
/// selection again, are in reading order already unless it covers no cell.
pub proof fn law_normalized_is_ordered(sel: MouseSelection)
    ensures
        ({
            let b = normalized(sel);
            &&& b.start_row <= b.end_row
            &&& b.start_row == b.end_row && b.start_col >= b.end_col ==> caret(sel)
                || sel.start_col == u16::MAX
            &&& b.start_row < b.end_row || b.start_col < b.end_col ==> normalized(
                MouseSelection {
                    start_col: b.start_col,
                    start_row: b.start_row,
                    end_col: b.end_col,
                    end_row: b.end_row,
                },
            ) == b
        }),
{
}

/// Dragging the other way selects the same cells.
pub proof fn law_selection_reversed(sel: MouseSelection)
    requires
        sel.end_col > 0,
        sel.start_col < u16::MAX,
        sel.start_row < sel.end_row || (sel.start_row == sel.end_row && sel.start_col + 1
            < sel.end_col),
    ensures
        normalized(sel) == normalized(
            MouseSelection {
                start_col: (sel.end_col - 1) as u16,
                start_row: sel.end_row,
                end_col: (sel.start_col + 1) as u16,
                end_row: sel.start_row,
            },
        ),
{
}

impl MouseSelection {
    /// First row and column, last row, and the column one past the last.
    pub fn normalized_bounds(self) -> (r: (u16, u16, u16, u16))
        ensures
            ({
                let b = normalized(self);
                r == (b.start_row, b.start_col, b.end_row, b.end_col)
            }),
    {
        normalized_mouse_selection(&self)
    }
}

/// Whether two selections cover the same cells.
pub fn mouse_selection_bounds_eq(a: &MouseSelection, b: &MouseSelection) -> (r: bool)
    ensures
        r == (normalized(*a) == normalized(*b)),
{
    let x = a.normalized_bounds();
    let y = b.normalized_bounds();
    x.0 == y.0 && x.1 == y.1 && x.2 == y.2 && x.3 == y.3
}

/// Whether a selection is only a place between two cells.
pub open spec fn caret(sel: MouseSelection) -> bool {
    sel.start_row == sel.end_row && sel.start_col == sel.end_col
}

/// Whether a selection is only a place between two cells.
pub fn selection_is_caret(sel: &MouseSelection) -> (r: bool)
    ensures
        r == caret(*sel),
{
    sel.start_row == sel.end_row && sel.start_col == sel.end_col
}

/// Whether a selection covers no cell.
pub open spec fn covers_nothing(sel: MouseSelection) -> bool {
    let b = normalized(sel);
    caret(sel) || (b.start_row == b.end_row && b.start_col >= b.end_col)
}

/// Whether a selection covers no cell.
pub fn selection_is_empty(sel: &MouseSelection) -> (r: bool)
    ensures
        r == covers_nothing(*sel),
{
    if selection_is_caret(sel) {
        return true;
    }
    let (start_row, start_col, end_row, end_col) = normalized_mouse_selection(sel);
    start_row == end_row && start_col >= end_col
}

/// The empty selection at a cell.
pub fn caret_selection(row: u16, col: u16) -> (r: MouseSelection)
    ensures
        r == (MouseSelection { start_col: col, start_row: row, end_col: col, end_row: row }),
{
    MouseSelection { start_col: col, start_row: row, end_col: col, end_row: row }
}

/// Whether a cell lies in a rectangle whose far edges are cut off at the last column and row.
pub open spec fn cell_in(area: Rect, col: int, row: int) -> bool {
    &&& area.x <= col < navigation::sat16(area.x + area.width)
    &&& area.y <= row < navigation::sat16(area.y + area.height)
}

/// Whether a cell lies in a rectangle.
pub fn is_cell_in(area: Rect, col: u16, row: u16) -> (r: bool)
    ensures
        r == cell_in(area, col as int, row as int),
{
    col >= area.x && col < area.x.saturating_add(area.width) && row >= area.y && row
        < area.y.saturating_add(area.height)
}

/// A mouse event in the active pane's own columns and rows; none outside its content.
pub fn mouse_for_pane(mouse: MouseEvent, fd: &FrameData, layout_area: Rect, hide_borders: bool) -> (r:
    Option<MouseEvent>)
    ensures
        ({
            let area = frame::active_content(fd.layout, layout_area, hide_borders, true).1;
            r == (if cell_in(area, mouse.column as int, mouse.row as int) {
                Some(
                    MouseEvent {
                        column: (mouse.column - area.x) as u16,
                        row: (mouse.row - area.y) as u16,
                        ..mouse
                    },
                )
            } else {
                None
            })
        }),
{
    let area = frame::find_active(&fd.layout, layout_area, hide_borders, true).1;
    if !is_cell_in(area, mouse.column, mouse.row) {
        return None;
    }
    let mut local = mouse;
    local.column = mouse.column - area.x;
    local.row = mouse.row - area.y;
    Some(local)
}

/// Index of the character, from `from` on, that covers a column.
pub open spec fn char_covering(line: Seq<char>, col: int, from: int) -> Option<int>
    decreases line.len() - from,
{
    if from < 0 || from >= line.len() {
        None
    } else if text::clip(text::columns(line.take(from))) <= col < text::clip(text::columns(line.take(from + 1))) {
        Some(from)
    } else {
        char_covering(line, col, from + 1)
    }
}

/// Where a stretch of characters that are all white space, or all not, begins.
pub open spec fn stretch_start(line: Seq<char>, i: int) -> int
    decreases i,
{
    if 0 < i < line.len() && text::white_space(line[i - 1]) == text::white_space(line[i]) {
        stretch_start(line, i - 1)
    } else {
        i
    }
}

/// Where such a stretch ends: its last character.
pub open spec fn stretch_end(line: Seq<char>, i: int) -> int
    decreases line.len() - i,
{
    if 0 <= i && i + 1 < line.len() && text::white_space(line[i + 1]) == text::white_space(line[i]) {
        stretch_end(line, i + 1)
    } else {
        i
    }
}

/// Columns of the word under a column, or of the white space there: the first, and one past the
/// last.
pub open spec fn word_range(line: Seq<char>, col: int) -> Option<(usize, usize)> {
    match char_covering(line, col, 0) {
        Some(i) => Some(
            (
                text::clip(text::columns(line.take(stretch_start(line, i)))),
                text::clip(text::columns(line.take(stretch_end(line, i) + 1))),
            ),
        ),
        None => None,
    }
}

/// Columns of the word under a column, or of the white space there.
pub fn word_display_range_in_line(line: &str, pane_col: usize) -> (r: Option<(usize, usize)>)
    ensures
        r == word_range(line@, pane_col as int),
{
    let chars = text::chars_of(line);
    let ghost s = line@;
    let mut ends: Vec<usize> = Vec::new();
    let mut used: usize = 0;
    let mut i: usize = 0;
    let mut at: Option<usize> = None;
    proof {
        assert(s.take(0) =~= Seq::empty());
    }
    while i < chars.len()
        invariant
            chars@ == s,
            i <= s.len(),
            ends@.len() == i,
            used == text::clip(text::columns(s.take(i as int))),
            forall|k: int| 0 <= k < i ==> #[trigger] ends@[k] == text::clip(text::columns(s.take(k + 1))),
            match at {
                Some(a) => a < i && char_covering(s, pane_col as int, 0) == Some(a as int),
                None => char_covering(s, pane_col as int, i as int) == char_covering(
                    s,
                    pane_col as int,
                    0,
                ),
            },
        decreases s.len() - i,
    {
        proof {
            text::lemma_columns_take(s, i as int);
        }
        let start: usize = used;
        used = used.saturating_add(text::char_width(chars[i]));
        ends.push(used);
        if at.is_none() && pane_col >= start && pane_col < used {
            at = Some(i);
        }
        i = i + 1;
    }
    let idx: usize = match at {
        Some(a) => a,
        None => {
            return None;
        },
    };
    let space: bool = text::is_whitespace(chars[idx]);
    let mut first: usize = idx;
    while first > 0 && text::is_whitespace(chars[first - 1]) == space
        invariant
            chars@ == s,
            first <= idx < s.len(),
            space == text::white_space(s[first as int]),
            stretch_start(s, first as int) == stretch_start(s, idx as int),
        decreases first,
    {
        first = first - 1;
    }
    let mut last: usize = idx;
    while last + 1 < chars.len() && text::is_whitespace(chars[last + 1]) == space
        invariant
            chars@ == s,
            last < s.len(),
            idx < s.len(),
            s.len() <= usize::MAX,
            space == text::white_space(s[last as int]),
            stretch_end(s, last as int) == stretch_end(s, idx as int),
        decreases s.len() - last,
    {
        last = last + 1;
    }
    let begin: usize = if first == 0 {
        0
    } else {
        ends[first - 1]
    };
    Some((begin, ends[last]))
}

/// A word's columns hold the column asked for.
pub proof fn law_word_holds_its_column(line: Seq<char>, col: int)
    ensures
        word_range(line, col) matches Some(r) ==> r.0 <= col < r.1,
{
    lemma_char_covering(line, col, 0);
    if let Some(i) = char_covering(line, col, 0) {
        lemma_stretch(line, i);
        text::lemma_columns_monotone(line, stretch_start(line, i), i);
        text::lemma_columns_monotone(line, i + 1, stretch_end(line, i) + 1);
    }
}

proof fn lemma_char_covering(line: Seq<char>, col: int, from: int)
    ensures
        char_covering(line, col, from) matches Some(i) ==> 0 <= i < line.len() && text::clip(
            text::columns(line.take(i)),
        ) <= col < text::clip(text::columns(line.take(i + 1))),
    decreases line.len() - from,
{
    if 0 <= from < line.len() {
        lemma_char_covering(line, col, from + 1);
    }
}

proof fn lemma_stretch(line: Seq<char>, i: int)
    requires
        0 <= i < line.len(),
    ensures
        0 <= stretch_start(line, i) <= i <= stretch_end(line, i) < line.len(),
{
    lemma_stretch_start(line, i);
    lemma_stretch_end(line, i);
}

proof fn lemma_stretch_start(line: Seq<char>, i: int)
    requires
        0 <= i < line.len(),
    ensures
        0 <= stretch_start(line, i) <= i,
    decreases i,
{
    if i > 0 {
        lemma_stretch_start(line, i - 1);
    }
}

proof fn lemma_stretch_end(line: Seq<char>, i: int)
    requires
        0 <= i < line.len(),
    ensures
        i <= stretch_end(line, i) < line.len(),
    decreases line.len() - i,
{
    if i + 1 < line.len() {
        lemma_stretch_end(line, i + 1);
    }
}

/// A cell of the active pane: its rows, the cells of its content, and the row and column there.
pub fn pane_coords_at_screen(
    fd: &FrameData,
    screen_row: u16,
    screen_col: u16,
    hide_borders: bool,
    cols: u16,
    rows: u16,
    sidebar_visible: bool,
) -> (r: Option<(Vec<PaneContentRow>, Rect, usize, usize)>)
    ensures
        ({
            let f = frame::active_content(
                fd.layout,
                geometry::areas_of(cols, rows, sidebar_visible).layout,
                hide_borders,
                true,
            );
            if cell_in(f.1, screen_col as int, screen_row as int) {
                r matches Some(x) && frame::content_views(x.0@) == frame::found_rows(f.0) && x.1 == f.1 && x.2
                    == screen_row - f.1.y && x.3 == screen_col - f.1.x
            } else {
                r is None
            }
        }),
{
    let layout_area = geometry::server_layout_area(cols, rows, sidebar_visible);
    let (texts, area) = frame::find_active_pane_content(&fd.layout, layout_area, hide_borders);
    if !is_cell_in(area, screen_col, screen_row) {
        return None;
    }
    Some((texts, area, (screen_row - area.y) as usize, (screen_col - area.x) as usize))
}

fn to_column(x: u16, col: usize) -> (r: u16)
    ensures
        r == navigation::sat16(x + col),
{
    if col > u16::MAX as usize {
        u16::MAX
    } else {
        x.saturating_add(col as u16)
    }
}

/// Columns of one row of a pane, as a selection on screen.
pub open spec fn row_selection(area: Rect, row: u16, start: int, end: int) -> MouseSelection {
    MouseSelection {
        start_col: navigation::sat16(area.x + start) as u16,
        start_row: row,
        end_col: navigation::sat16(area.x + end) as u16,
        end_row: row,
    }
}

/// Columns of one row of a pane, as a selection on screen.
pub fn selection_for_pane_range(
    content_area: Rect,
    screen_row: u16,
    pane_start_col: usize,
    pane_end_col: usize,
) -> (r: MouseSelection)
    ensures
        r == row_selection(content_area, screen_row, pane_start_col as int, pane_end_col as int),
{
    MouseSelection {
        start_col: to_column(content_area.x, pane_start_col),
        start_row: screen_row,
        end_col: to_column(content_area.x, pane_end_col),
        end_row: screen_row,
    }
}

/// The word that a click on a cell selects.
pub open spec fn word_at(
    layout: LayoutJson,
    row: u16,
    col: u16,
    hide: bool,
    area: Rect,
) -> Option<MouseSelection> {
    let f = frame::active_content(layout, area, hide, true);
    let texts = frame::found_rows(f.0);
    let line = row - f.1.y;
    if !cell_in(f.1, col as int, row as int) || line >= texts.len() {
        None
    } else {
        match word_range(texts[line].text, col - f.1.x) {
            Some(w) => Some(row_selection(f.1, row, w.0 as int, w.1 as int)),
            None => None,
        }
    }
}

/// The word that a click on a cell selects.
pub fn word_selection_at_click(
    fd: &FrameData,
    screen_row: u16,
    screen_col: u16,
    hide_borders: bool,
    cols: u16,
    rows: u16,
    sidebar_visible: bool,
) -> (r: Option<MouseSelection>)
    ensures
        r == word_at(
            fd.layout,
            screen_row,
            screen_col,
            hide_borders,
            geometry::areas_of(cols, rows, sidebar_visible).layout,
        ),
{
    match pane_coords_at_screen(
        fd,
        screen_row,
        screen_col,
        hide_borders,
        cols,
        rows,
        sidebar_visible,
    ) {
        None => None,
        Some((texts, area, pane_row, pane_col)) => {
            if pane_row >= texts.len() {
                return None;
            }
            proof {
                assert(frame::content_views(texts@)[pane_row as int] == texts@[pane_row as int]@);
            }
            match word_display_range_in_line(texts[pane_row].text.as_str(), pane_col) {
                Some((start, end)) => Some(selection_for_pane_range(area, screen_row, start, end)),
                None => None,
            }
        },
    }
}

/// Whether a click is the second of a double click.
pub open spec fn double_click(last: Option<LastMouseClick>, row: u16, col: u16, now: u64) -> bool {
    match last {
        Some(prev) => prev.row == row && prev.col == col && text::max_int(now - prev.at, 0)
            <= DOUBLE_CLICK_INTERVAL,
        None => false,
    }
}

/// The word that a double click selects. A double click uses up the click before it, so that a
/// third one begins anew.
pub fn try_word_select_on_double_click(
    last: &mut Option<LastMouseClick>,
    now: u64,
    fd: &FrameData,
    row: u16,
    col: u16,
    hide_borders: bool,
    cols: u16,
    rows: u16,
    sidebar_visible: bool,
) -> (r: Option<MouseSelection>)
    ensures
        if double_click(*old(last), row, col, now) {
            *final(last) is None && r == word_at(
                fd.layout,
                row,
                col,
                hide_borders,
                geometry::areas_of(cols, rows, sidebar_visible).layout,
            )
        } else {
            *final(last) == *old(last) && r is None
        },
{
    let is_double: bool = match last {
        Some(prev) => prev.row == row && prev.col == col && now.saturating_sub(prev.at)
            <= DOUBLE_CLICK_INTERVAL,
        None => false,
    };
    if is_double {
        *last = None;
        word_selection_at_click(fd, row, col, hide_borders, cols, rows, sidebar_visible)
    } else {
        None
    }
}

/// A row cut back to an area.
pub open spec fn row_within(area: Rect, row: int) -> int {
    text::min_int(text::max_int(row, area.y as int), navigation::sat16(area.y + text::max_int(area.height - 1, 0)) as int)
}

/// A column cut back to an area, or to one past its last column.
pub open spec fn col_within(area: Rect, col: int) -> int {
    text::min_int(text::max_int(col, area.x as int), navigation::sat16(area.x + area.width) as int)
}

/// A row cut back to an area.
pub fn clamp_row(area: Rect, row: u16) -> (r: u16)
    ensures
        r == row_within(area, row as int),
{
    let last: u16 = area.y.saturating_add(area.height.saturating_sub(1));
    let at_least: u16 = if row < area.y {
        area.y
    } else {
        row
    };
    if at_least > last {
        last
    } else {
        at_least
    }
}

/// A column cut back to an area, or to one past its last column.
pub fn clamp_col(area: Rect, col: u16) -> (r: u16)
    ensures
        r == col_within(area, col as int),
{
    let end: u16 = area.x.saturating_add(area.width);
    let at_least: u16 = if col < area.x {
        area.x
    } else {
        col
    };
    if at_least > end {
        end
    } else {
        at_least
    }
}

/// The selection of a drag, its end kept in the active pane.
pub fn mouse_selection_from_drag(
    origin: MouseDragOrigin,
    mouse: MouseEvent,
    fd: &FrameData,
    hide_borders: bool,
    cols: u16,
    rows: u16,
    sidebar_visible: bool,
) -> (r: MouseSelection)
    ensures
        ({
            let frame = geometry::areas_of(cols, rows, sidebar_visible).frame;
            let area = frame::active_content(
                fd.layout,
                frame::without_last_row(frame),
                hide_borders,
                true,
            ).1;
            r == MouseSelection {
                start_col: origin.col,
                start_row: origin.row,
                end_col: col_within(area, navigation::sat16(mouse.column + 1) as int) as u16,
                end_row: row_within(area, mouse.row as int) as u16,
            }
        }),
{
    let frame = geometry::server_frame_area(cols, rows, sidebar_visible);
    let area = frame::active_pane_content_rect(fd, frame, hide_borders);
    MouseSelection {
        start_col: origin.col,
        start_row: origin.row,
        end_col: clamp_col(area, mouse.column.saturating_add(1)),
        end_row: clamp_row(area, mouse.row),
    }
}

/// What a selection is when the button comes up: as it stands without a drag or without motion,
/// else stretched to where the button came up, also where no motion was reported in between.
pub open spec fn finalized(
    current: Option<MouseSelection>,
    origin: Option<MouseDragOrigin>,
    mouse: MouseEvent,
    pane_area: Option<Rect>,
) -> Option<MouseSelection> {
    match origin {
        None => current,
        Some(o) => {
            let still = o.row == mouse.row && o.col == mouse.column && (match current {
                None => true,
                Some(c) => caret(c),
            });
            if still {
                current
            } else {
                let from = match current {
                    Some(c) => c,
                    None => MouseSelection {
                        start_col: o.col,
                        start_row: o.row,
                        end_col: o.col,
                        end_row: o.row,
                    },
                };
                Some(
                    match pane_area {
                        Some(area) => MouseSelection {
                            end_col: col_within(area, navigation::sat16(mouse.column + 1) as int) as u16,
                            end_row: row_within(area, mouse.row as int) as u16,
                            ..from
                        },
                        None => MouseSelection {
                            end_col: navigation::sat16(mouse.column + 1) as u16,
                            end_row: mouse.row,
                            ..from
                        },
                    },
                )
            }
        },
    }
}

/// What a selection is when the button comes up.
pub fn finalize_mouse_selection(
    current: Option<MouseSelection>,
    origin: Option<MouseDragOrigin>,
    mouse: MouseEvent,
    pane_area: Option<Rect>,
) -> (r: Option<MouseSelection>)
    ensures
        r == finalized(current, origin, mouse, pane_area),
{
    let o: MouseDragOrigin = match origin {
        Some(o) => o,
        None => {
            return current;
        },
    };
    let at_rest: bool = match &current {
        None => true,
        Some(c) => selection_is_caret(c),
    };
    if o.row == mouse.row && o.col == mouse.column && at_rest {
        return current;
    }
    let mut selection: MouseSelection = match current {
        Some(c) => c,
        None => caret_selection(o.row, o.col),
    };
    match pane_area {
        Some(area) => {
            selection.end_col = clamp_col(area, mouse.column.saturating_add(1));
            selection.end_row = clamp_row(area, mouse.row);
        },
        None => {
            selection.end_col = mouse.column.saturating_add(1);
            selection.end_row = mouse.row;
        },
    }
    Some(selection)
}

/// Index of the first character, from `from` on, that begins at a column or behind it.
pub open spec fn char_from(text: Seq<char>, col: int, from: int) -> int
    decreases text.len() - from,
{
    if from >= 0 && from < text.len() && text::columns(text.take(from)) < col {
        char_from(text, col, from + 1)
    } else {
        from
    }
}

/// The characters that begin at column `start` or behind it and end by column `end`.
pub open spec fn columns_cut(text: Seq<char>, start: int, end: int) -> Seq<char> {
    text::cut(text, char_from(text, start, 0), position::fitting(text, 0, end))
}

/// The characters that begin at column `start` or behind it and end by column `end`.
pub fn slice_by_display_col(s: &str, col_start: usize, col_end: usize) -> (r: String)
    ensures
        r@ == columns_cut(s@, col_start as int, col_end as int),
{
    let chars = text::chars_of(s);
    let ghost t = s@;
    let stop: usize = position::char_index_for_display_col(chars.as_slice(), col_end);
    let mut used: usize = 0;
    let mut from: usize = 0;
    proof {
        assert(t.take(0) =~= Seq::empty());
    }
    while from < chars.len() && used < col_start
        invariant
            chars@ == t,
            from <= t.len(),
            used == text::clip(text::columns(t.take(from as int))),
            char_from(t, col_start as int, from as int) == char_from(t, col_start as int, 0),
        decreases t.len() - from,
    {
        proof {
            text::lemma_columns_take(t, from as int);
        }
        used = used.saturating_add(text::char_width(chars[from]));
        from = from + 1;
    }
    text::slice_of(chars.as_slice(), from, stop)
}

/// Lines under way: those done, and the one that rows are still added to.
#[verifier::ext_equal]
pub struct Gathering {
    pub done: Seq<Seq<char>>,
    pub current: Seq<char>,
    pub line: Option<usize>,
    pub open: bool,
}

/// The lines with the one under way, without the white space at its end.
pub open spec fn all_lines(g: Gathering) -> Seq<Seq<char>> {
    if g.open {
        g.done.push(text::trimmed_end(g.current))
    } else {
        g.done
    }
}

/// One more row: it goes on with the line under way where it shows a part of the same line.
pub open spec fn with_row(g: Gathering, part: Seq<char>, line: Option<usize>) -> Gathering {
    if g.open && line is Some && g.line == line {
        Gathering { current: g.current + part, ..g }
    } else {
        Gathering { done: all_lines(g), current: part, line, open: true }
    }
}

/// The part of a row that is selected: from the first column on the first row, and up to the last
/// column on the last.
pub open spec fn row_part(
    rows: Seq<ContentRowV>,
    row: int,
    first: (int, int),
    last: (int, int),
) -> Seq<char> {
    columns_cut(
        rows[row].text,
        if row == first.0 {
            first.1
        } else {
            0
        },
        if row == last.0 {
            last.1
        } else {
            usize::MAX as int
        },
    )
}

/// What is gathered from the first `n` rows of a selection.
pub open spec fn gathered(
    rows: Seq<ContentRowV>,
    first: (int, int),
    last: (int, int),
    n: int,
) -> Gathering
    decreases n,
{
    if n <= 0 {
        Gathering { done: Seq::empty(), current: Seq::empty(), line: None, open: false }
    } else {
        let row = first.0 + n - 1;
        with_row(
            gathered(rows, first, last, n - 1),
            row_part(rows, row, first, last),
            rows[row].line,
        )
    }
}

/// Lines without the blank ones at the end.
pub open spec fn without_blank_end(lines: Seq<Seq<char>>) -> Seq<Seq<char>>
    decreases lines.len(),
{
    if lines.len() > 0 && text::trimmed(lines.last()).len() == 0 {
        without_blank_end(lines.drop_last())
    } else {
        lines
    }
}

/// The first `n` lines with a line break between each two.
pub open spec fn with_breaks(lines: Seq<Seq<char>>, n: int) -> Seq<char>
    decreases n,
{
    if n <= 0 {
        Seq::empty()
    } else if n == 1 {
        lines[0]
    } else {
        with_breaks(lines, n - 1) + seq!['\n'] + lines[n - 1]
    }
}

/// The text that a selection covers, of rows shown in an area.
pub open spec fn text_under(rows: Seq<ContentRowV>, area: Rect, sel: MouseSelection) -> Seq<char> {
    let b = normalized(sel);
    let top = row_within(area, b.start_row as int);
    let bottom = row_within(area, b.end_row as int);
    let left = col_within(area, b.start_col as int);
    let right = col_within(area, b.end_col as int);
    if covers_nothing(sel) || rows.len() == 0 || (top == bottom && left >= right) {
        Seq::empty()
    } else {
        let first = (text::min_int(top - area.y, rows.len() - 1), left - area.x);
        let last = (text::min_int(bottom - area.y, rows.len() - 1), right - area.x);
        let lines = without_blank_end(
            all_lines(gathered(rows, first, last, last.0 - first.0 + 1)),
        );
        with_breaks(lines, lines.len() as int)
    }
}

fn join_lines(lines: &Vec<String>) -> (r: String)
    ensures
        r@ == with_breaks(commands::texts(lines@), lines@.len() as int),
{
    let mut out = String::new();
    let mut i: usize = 0;
    while i < lines.len()
        invariant
            i <= lines@.len(),
            out@ == with_breaks(commands::texts(lines@), i as int),
        decreases lines@.len() - i,
    {
        proof {
            assert(commands::texts(lines@)[i as int] == lines@[i as int]@);
        }
        if i > 0 {
            out.push('\n');
        }
        out.append(lines[i].as_str());
        proof {
            let before = with_breaks(commands::texts(lines@), i as int);
            if i > 0 {
                assert(before.push('\n') =~= before + seq!['\n']);
            } else {
                assert(before + lines@[0]@ =~= lines@[0]@);
            }
        }
        i = i + 1;
    }
    out
}

fn trimmed_line(s: &String) -> (r: String)
    ensures
        r@ == text::trimmed_end(s@),
{
    let chars = text::chars_of(s.as_str());
    text::string_of(text::trim_end(chars.as_slice()).as_slice())
}

fn drop_blank_end(lines: &mut Vec<String>)
    ensures
        commands::texts(final(lines)@) == without_blank_end(commands::texts(old(lines)@)),
{
    let ghost all = commands::texts(lines@);
    while lines.len() > 0
        invariant_except_break
            without_blank_end(commands::texts(lines@)) == without_blank_end(all),
        ensures
            commands::texts(lines@) == without_blank_end(all),
        decreases lines@.len(),
    {
        let n: usize = lines.len();
        proof {
            assert(commands::texts(lines@).last() == lines@[n - 1]@);
        }
        let chars = text::chars_of(lines[n - 1].as_str());
        if text::trim(chars.as_slice()).len() > 0 {
            break;
        }
        let ghost before = lines@;
        lines.pop();
        proof {
            assert(commands::texts(lines@) =~= commands::texts(before).drop_last());
        }
    }
}

fn text_of_rows(
    rows: &Vec<PaneContentRow>,
    first_row: usize,
    first_col: usize,
    last_row: usize,
    last_col: usize,
) -> (r: String)
    requires
        first_row <= last_row < rows@.len(),
    ensures
        ({
            let lines = without_blank_end(
                all_lines(
                    gathered(
                        frame::content_views(rows@),
                        (first_row as int, first_col as int),
                        (last_row as int, last_col as int),
                        last_row - first_row + 1,
                    ),
                ),
            );
            r@ == with_breaks(lines, lines.len() as int)
        }),
{
    let ghost views = frame::content_views(rows@);
    let ghost first = (first_row as int, first_col as int);
    let ghost last = (last_row as int, last_col as int);
    let mut lines: Vec<String> = Vec::new();
    let mut current: String = String::new();
    let mut current_line: Option<usize> = None;
    let mut has_current: bool = false;
    let total: usize = rows.len();
    let mut row: usize = first_row;
    proof {
        assert(commands::texts(lines@) =~= Seq::empty());
    }
    while row <= last_row
        invariant
            first_row <= row <= last_row + 1,
            last_row < rows@.len(),
            total == rows@.len(),
            views == frame::content_views(rows@),
            first == (first_row as int, first_col as int),
            last == (last_row as int, last_col as int),
            gathered(views, first, last, row - first_row) == (Gathering {
                done: commands::texts(lines@),
                current: current@,
                line: current_line,
                open: has_current,
            }),
        decreases last_row + 1 - row,
    {
        proof {
            assert(views[row as int] == rows@[row as int]@);
        }
        let start: usize = if row == first_row {
            first_col
        } else {
            0
        };
        let end: usize = if row == last_row {
            last_col
        } else {
            usize::MAX
        };
        let part = slice_by_display_col(rows[row].text.as_str(), start, end);
        let same: bool = match (current_line, rows[row].line) {
            (Some(a), Some(b)) => a == b,
            _ => false,
        };
        if has_current && same {
            current.append(part.as_str());
        } else {
            if has_current {
                let ghost before = lines@;
                lines.push(trimmed_line(&current));
                proof {
                    assert(commands::texts(lines@) =~= commands::texts(before).push(text::trimmed_end(current@)));
                }
            }
            current = part;
            current_line = rows[row].line;
            has_current = true;
        }
        row = row + 1;
    }
    if has_current {
        let ghost before = lines@;
        lines.push(trimmed_line(&current));
        proof {
            assert(commands::texts(lines@) =~= commands::texts(before).push(text::trimmed_end(current@)));
        }
    }
    drop_blank_end(&mut lines);
    proof {
        assert(commands::texts(lines@).len() == lines@.len());
    }
    join_lines(&lines)
}

/// The text that a selection covers in the active pane. Rows that show parts of one line give one
/// line; white space at the end of a line and blank lines at the end are left out.
pub fn extract_text_from_frame_in_area(
    fd: &FrameData,
    sel: &MouseSelection,
    layout_area: Rect,
    hide_borders: bool,
) -> (r: String)
    ensures
        ({
            let f = frame::active_content(fd.layout, layout_area, hide_borders, true);
            r@ == text_under(frame::found_rows(f.0), f.1, *sel)
        }),
{
    let (start_row, start_col, end_row, end_col) = normalized_mouse_selection(sel);
    if selection_is_empty(sel) {
        return String::new();
    }
    let (rows, area) = frame::find_active_pane_content(&fd.layout, layout_area, hide_borders);
    proof {
        assert(frame::content_views(rows@).len() == rows@.len());
    }
    if rows.is_empty() {
        return String::new();
    }
    let top: u16 = clamp_row(area, start_row);
    let left: u16 = clamp_col(area, start_col);
    let bottom: u16 = clamp_row(area, end_row);
    let right: u16 = clamp_col(area, end_col);
    if top == bottom && left >= right {
        return String::new();
    }
    let max_row: usize = rows.len() - 1;
    let first_row: usize = if ((top - area.y) as usize) < max_row {
        (top - area.y) as usize
    } else {
        max_row
    };
    let last_row: usize = if ((bottom - area.y) as usize) < max_row {
        (bottom - area.y) as usize
    } else {
        max_row
    };
    text_of_rows(
        &rows,
        first_row,
        (left - area.x) as usize,
        last_row,
        (right - area.x) as usize,
    )
}

/// The same over a terminal's whole screen but its last row.
pub fn extract_text_from_frame(
    fd: &FrameData,
    sel: &MouseSelection,
    cols: u16,
    rows: u16,
    hide_borders: bool,
) -> (r: String)
    ensures
        ({
            let area = Rect { x: 0, y: 0, width: cols, height: text::max_int(rows - 1, 0) as u16 };
            let f = frame::active_content(fd.layout, area, hide_borders, true);
            r@ == text_under(frame::found_rows(f.0), f.1, *sel)
        }),
{
    extract_text_from_frame_in_area(
        fd,
        sel,
        Rect::new(0, 0, cols, rows.saturating_sub(1)),
        hide_borders,
    )
}

/// Whether a selection covers a cell of an area on screen.
pub open spec fn highlighted(area: Rect, sel: MouseSelection, col: int, row: int) -> bool {
    let b = normalized(sel);
    let top = row_within(area, b.start_row as int);
    let bottom = row_within(area, b.end_row as int);
    let left = col_within(area, b.start_col as int);
    let right = col_within(area, b.end_col as int);
    &&& !covers_nothing(sel)
    &&& !(top == bottom && left >= right)
    &&& top <= row <= bottom
    &&& (if row == top {
        left
    } else {
        area.x as int
    }) <= col < (if row == bottom {
        right
    } else {
        navigation::sat16(area.x + area.width) as int
    })
}

/// The columns of one row that a selection covers: the first, and one past the last.
#[derive(Clone, Copy, Debug, PartialEq, Eq, Structural)]
pub struct RowSpan {
    pub row: u16,
    pub start: u16,
    pub end: u16,
}

/// Whether a cell lies in one of the spans.
pub open spec fn in_spans(s: Seq<RowSpan>, col: int, row: int) -> bool {
    exists|i: int| 0 <= i < s.len() && #[trigger] s[i].row == row && s[i].start <= col < s[i].end
}

/// The cells that a selection highlights on a screen of the given width, row by row.
pub fn render_mouse_selection(
    sel: &MouseSelection,
    fd: &FrameData,
    frame_area: Rect,
    hide_borders: bool,
    sidebar_visible: bool,
) -> (r: Vec<RowSpan>)
    ensures
        ({
            let server = geometry::frame_inside(frame_area, sidebar_visible);
            let area = frame::active_content(
                fd.layout,
                frame::without_last_row(server),
                hide_borders,
                true,
            ).1;
            forall|col: int, row: int| #[trigger]
                in_spans(r@, col, row) <==> highlighted(area, *sel, col, row) && col
                    < frame_area.width
        }),
        forall|i: int, j: int| 0 <= i < j < r@.len() ==> r@[i].row < r@[j].row,
{
    let mut out: Vec<RowSpan> = Vec::new();
    if selection_is_empty(sel) {
        return out;
    }
    let (start_row, start_col, end_row, end_col) = normalized_mouse_selection(sel);
    let server = geometry::server_frame_area_from(frame_area, sidebar_visible);
    let area = frame::active_pane_content_rect(fd, server, hide_borders);
    let top: u16 = clamp_row(area, start_row);
    let left: u16 = clamp_col(area, start_col);
    let bottom: u16 = clamp_row(area, end_row);
    let right: u16 = clamp_col(area, end_col);
    if top == bottom && left >= right {
        return out;
    }
    let far: u16 = area.x.saturating_add(area.width);
    let mut row: u32 = top as u32;
    while row <= bottom as u32
        invariant
            top <= row <= bottom + 1,
            far == navigation::sat16(area.x + area.width),
            out@.len() == row - top,
            forall|i: int|
                0 <= i < out@.len() ==> (#[trigger] out@[i]).row == top + i && out@[i].start == (
                if i == 0 {
                    left
                } else {
                    area.x
                }) && out@[i].end == text::min_int(
                    (if top + i == bottom {
                        right
                    } else {
                        far
                    }) as int,
                    frame_area.width as int,
                ),
        decreases bottom + 1 - row,
    {
        let start: u16 = if row == top as u32 {
            left
        } else {
            area.x
        };
        let end: u16 = if row == bottom as u32 {
            right
        } else {
            far
        };
        let end: u16 = if end < frame_area.width {
            end
        } else {
            frame_area.width
        };
        out.push(RowSpan { row: row as u16, start, end });
        row = row + 1;
    }
    proof {
        assert forall|col: int, k: int| #[trigger] in_spans(out@, col, k) <==> highlighted(
            area,
            *sel,
            col,
            k,
        ) && col < frame_area.width by {
            if highlighted(area, *sel, col, k) && col < frame_area.width {
                assert(out@[k - top].row == k);
            }
        }
    }
    out
}

} // verus!
