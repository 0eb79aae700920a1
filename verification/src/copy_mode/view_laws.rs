//! What copy mode shows of what is selected and of what was found.

use crate::copy_mode::model;
use crate::copy_mode::render;
use crate::copy_mode::wrap;
use crate::text;
use crate::copy_mode::model::{CopyPoint, CopyStateV, RowV, SearchMatch, SelectionMode};
use crate::copy_mode::render::{RunV, StyleKind};
use vstd::prelude::*;

verus! {

/// The character at a place of a row and its colors, read from the row's runs.
pub open spec fn shown_at(runs: Seq<RunV>, k: int) -> (char, Seq<char>, Seq<char>, u8)
    decreases runs.len(),
{
    if runs.len() == 0 {
        arbitrary()
    } else if k < runs[0].text.len() {
        (runs[0].text[k], runs[0].fg, runs[0].bg, runs[0].flags)
    } else {
        shown_at(runs.skip(1), k - runs[0].text.len())
    }
}

/// Whether a match lies over a place.
pub open spec fn lies_over(m: SearchMatch, line: int, col: int) -> bool {
    m.line == line && m.start <= col && col < m.end
}

/// The number of characters that runs hold.
pub open spec fn held(runs: Seq<RunV>) -> nat
    decreases runs.len(),
{
    if runs.len() == 0 {
        0
    } else {
        runs[0].text.len() + held(runs.skip(1))
    }
}

proof fn lemma_same_style(s: CopyStateV, row: RowV, at: int, next: int, k: int)
    requires
        at < next <= row.text.len(),
        next <= k < render::run_stop(s, row, at, next),
    ensures
        render::style_at(s, row.line as int, row.start_col + k) == render::style_at(
            s,
            row.line as int,
            row.start_col + at,
        ),
    decreases row.text.len() - next,
{
    if k > next {
        lemma_same_style(s, row, at, next + 1, k);
    }
}

proof fn lemma_shown(s: CopyStateV, row: RowV, at: int, k: int)
    requires
        0 <= at <= k < row.text.len(),
    ensures
        shown_at(render::runs_from(s, row, at), k - at) == ({
            let style = render::style_at(s, row.line as int, row.start_col + k);
            (row.text[k], render::style_colors(style).0, render::style_colors(style).1, render::style_colors(style).2)
        }),
    decreases row.text.len() - at,
{
    render::lemma_run_stop(s, row, at, at + 1);
    let stop = render::run_stop(s, row, at, at + 1);
    let runs = render::runs_from(s, row, at);
    assert(runs.skip(1) =~= render::runs_from(s, row, stop));
    if k < stop {
        if k > at {
            lemma_same_style(s, row, at, at + 1, k);
        }
    } else {
        lemma_shown(s, row, stop, k);
    }
}

proof fn lemma_held(s: CopyStateV, row: RowV, at: int)
    requires
        0 <= at <= row.text.len(),
    ensures
        held(render::runs_from(s, row, at)) == row.text.len() - at,
    decreases row.text.len() - at,
{
    if at < row.text.len() {
        render::lemma_run_stop(s, row, at, at + 1);
        let stop = render::run_stop(s, row, at, at + 1);
        assert(render::runs_from(s, row, at).skip(1) =~= render::runs_from(s, row, stop));
        lemma_held(s, row, stop);
    }
}

/// The runs of a row hold every character of the row, in order and no others. What is selected is
/// bold and black on cyan; of the rest, the match jumped to is bold and white on blue, other
/// matches are black on yellow, and all else has the colors of the terminal.
pub proof fn law_rows_are_shown_in_their_colors(s: CopyStateV, row: RowV, k: int)
    requires
        0 <= k < row.text.len(),
    ensures
        held(render::runs_from(s, row, 0)) == row.text.len(),
        ({
            let col = row.start_col + k;
            let selected = render::selected_columns(s, row.line as int) matches Some(r) && r.0 <= col
                && col < r.1;
            let jumped = s.search_idx < s.search_matches.len() && lies_over(
                s.search_matches[s.search_idx as int],
                row.line as int,
                col,
            );
            let found = exists|i: int|
                0 <= i < s.search_matches.len() && lies_over(
                    #[trigger] s.search_matches[i],
                    row.line as int,
                    col,
                );
            shown_at(render::runs_from(s, row, 0), k) == (if selected {
                (row.text[k], "black"@, "cyan"@, 2u8)
            } else if jumped {
                (row.text[k], "white"@, "blue"@, 2u8)
            } else if found {
                (row.text[k], "black"@, "yellow"@, 0u8)
            } else {
                (row.text[k], "default"@, "default"@, 0u8)
            })
        }),
{
    let col = row.start_col + k;
    lemma_shown(s, row, 0, k);
    lemma_held(s, row, 0);
    assert(forall|m: SearchMatch| #[trigger]
        lies_over(m, row.line as int, col) == render::match_covers(m, row.line as int, col));
    let style = render::style_at(s, row.line as int, col);
    if style == StyleKind::Search {
        let i = choose|i: int|
            #![trigger s.search_matches[i]]
            0 <= i < s.search_matches.len() && render::match_covers(
                s.search_matches[i],
                row.line as int,
                col,
            );
        assert(lies_over(s.search_matches[i], row.line as int, col));
    }
}

/// A selection by characters covers a character exactly where it lies between the two ends,
/// whichever of them comes first: not before the first, and before the last.
pub proof fn law_characters_between_the_ends_are_selected(
    s: CopyStateV,
    a: CopyPoint,
    b: CopyPoint,
    line: int,
    col: int,
)
    requires
        s.selection_mode == SelectionMode::Char,
        (s.anchor == Some(a) && s.cursor == b) || (s.anchor == Some(b) && s.cursor == a),
        a.line < b.line || (a.line == b.line && a.col <= b.col),
        0 <= line,
        0 <= col < model::line_len(s.snapshot, line) <= usize::MAX,
    ensures
        (render::selected_columns(s, line) matches Some(r) && r.0 <= col && col < r.1) <==> {
            &&& a.line < line || (a.line == line && a.col <= col)
            &&& line < b.line || (line == b.line && col < b.col)
        },
{
}

/// A selection by lines covers every character of the lines from one end to the other; a block
/// covers, on those lines, the columns from one end up to the other.
pub proof fn law_lines_and_blocks_are_selected(
    s: CopyStateV,
    anchor: CopyPoint,
    line: int,
    col: int,
)
    requires
        s.anchor == Some(anchor),
        0 <= line,
        0 <= col < model::line_len(s.snapshot, line) <= usize::MAX,
    ensures
        ({
            let among = (anchor.line <= line && line <= s.cursor.line) || (s.cursor.line <= line
                && line <= anchor.line);
            let across = (anchor.col <= col && col < s.cursor.col) || (s.cursor.col <= col && col
                < anchor.col);
            let covered = render::selected_columns(s, line) matches Some(r) && r.0 <= col && col < r.1;
            &&& s.selection_mode == SelectionMode::Line ==> (covered <==> among)
            &&& s.selection_mode == SelectionMode::Rect ==> (covered <==> among && across)
        }),
{
}

/// Nothing is selected without a place where the selection began.
pub proof fn law_nothing_is_selected_without_an_anchor(s: CopyStateV, line: int)
    requires
        s.anchor is None,
    ensures
        render::selected_columns(s, line) is None,
{
}

/// The screen shows the rows from the first in view on, one after the other, and where the cursor
/// is among them; how far it is scrolled is told where not all rows fit.
pub proof fn law_view_shows_the_rows_in_order(s: CopyStateV, height: int, i: int)
    requires
        0 <= i < height,
    ensures
        render::view_of(s, height).rows.len() == height,
        s.scroll_top + i < s.wrapped.rows.len() ==> render::view_of(s, height).rows[i] == render::runs_from(
            s,
            s.wrapped.rows[s.scroll_top + i],
            0,
        ),
        s.scroll_top + i >= s.wrapped.rows.len() ==> render::view_of(s, height).rows[i].len() == 0,
        s.wrapped.rows.len() <= height ==> render::view_of(s, height).scroll_ratio is None,
        height < s.wrapped.rows.len() <= usize::MAX ==> (render::view_of(s, height).scroll_ratio matches Some(
            r,
        ) && r.0 == s.scroll_top && r.1 + height == s.wrapped.rows.len()),
{
}

proof fn lemma_row_is_full(line: Seq<char>, start: int, end: int, width: int)
    requires
        0 <= start <= end <= line.len(),
        wrap::row_end(line, start, end, width) < line.len(),
    ensures
        ({
            let stop = wrap::row_end(line, start, end, width);
            text::columns(line.subrange(start, stop)) + text::columns_of(line[stop]) > width || text::columns(
                line.subrange(start, stop),
            ) >= width
        }),
    decreases line.len() - end,
{
    if end < line.len() && (end == start || (text::columns(line.subrange(start, end)) + text::columns_of(
        line[end],
    ) <= width && text::columns(line.subrange(start, end)) < width)) {
        lemma_row_is_full(line, start, end + 1, width);
    }
}

/// A row of a line is as long as fits: the character that the next row begins with has no room on
/// it.
pub proof fn law_rows_are_as_long_as_fits(line: Seq<char>, index: int, width: int, k: int)
    requires
        0 < line.len() <= usize::MAX,
        0 <= k,
        k + 1 < wrap::line_rows(line, index, width).len(),
    ensures
        ({
            let rows = wrap::line_rows(line, index, width);
            &&& rows[k + 1].text.len() > 0
            &&& text::columns(rows[k].text) + text::columns_of(rows[k + 1].text[0]) > width || text::columns(
                rows[k].text,
            ) >= width
            &&& rows[k].start_col + rows[k].text.len() == rows[k + 1].start_col
        }),
{
    wrap::lemma_rows_from_chain(line, index, 0, width);
    let rows = wrap::line_rows(line, index, width);
    let row = rows[k];
    let next = rows[k + 1];
    assert(row.end_col == next.start_col);
    lemma_row_is_full(line, row.start_col as int, row.start_col as int, width);
}

} // verus!
