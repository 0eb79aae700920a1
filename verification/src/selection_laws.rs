//! Which cells and which text a selection with the mouse covers.

use crate::copy_mode::position;
use crate::copy_mode::yank_laws;
use crate::selection;
use crate::text;
use crate::text_laws;
use crate::frame::ContentRowV;
use crate::geometry::Rect;
use crate::selection::{LastMouseClick, MouseSelection};
use vstd::prelude::*;

verus! {

/// Whether a cell lies in a rectangle.
pub open spec fn in_area(area: Rect, col: int, row: int) -> bool {
    area.x <= col < area.x + area.width && area.y <= row < area.y + area.height
}

/// Whether a selection lies in an area and is drawn in reading order: it begins at a cell of it, and
/// ends behind a later one.
pub open spec fn drawn_on(sel: MouseSelection, area: Rect) -> bool {
    &&& area.x + area.width <= 65535
    &&& area.y + area.height <= 65535
    &&& in_area(area, sel.start_col as int, sel.start_row as int)
    &&& in_area(area, sel.end_col - 1, sel.end_row as int)
    &&& sel.start_row < sel.end_row || (sel.start_row == sel.end_row && sel.start_col < sel.end_col)
}

/// The cells of an area that a selection covers are those from its first up to its last in reading
/// order.
pub proof fn law_covered_cells(area: Rect, sel: MouseSelection, col: int, row: int)
    requires
        drawn_on(sel, area),
        !(sel.start_row == sel.end_row && sel.start_col == sel.end_col),
    ensures
        selection::highlighted(area, sel, col, row) <==> {
            &&& in_area(area, col, row)
            &&& row > sel.start_row || (row == sel.start_row && col >= sel.start_col)
            &&& row < sel.end_row || (row == sel.end_row && col < sel.end_col)
        },
{
}

proof fn lemma_char_from(t: Seq<char>, col: int, from: int)
    requires
        0 <= from <= t.len(),
        forall|k: int| 0 <= k < from ==> text::columns(#[trigger] t.take(k)) < col,
    ensures
        ({
            let i = selection::char_from(t, col, from);
            &&& from <= i <= t.len()
            &&& forall|k: int| 0 <= k < i ==> text::columns(#[trigger] t.take(k)) < col
            &&& i < t.len() ==> text::columns(t.take(i)) >= col
        }),
    decreases t.len() - from,
{
    if from < t.len() && text::columns(t.take(from)) < col {
        lemma_char_from(t, col, from + 1);
    }
}

proof fn lemma_fitting_end(t: Seq<char>, from: int, target: int)
    requires
        0 <= from <= t.len(),
    ensures
        ({
            let i = position::fitting(t, from, target);
            &&& from <= i <= t.len()
            &&& i > from ==> text::columns(t.take(i)) <= target
            &&& i < t.len() ==> text::columns(t.take(i + 1)) > target
        }),
    decreases t.len() - from,
{
    if from < t.len() && text::columns(t.take(from + 1)) <= target {
        lemma_fitting_end(t, from + 1, target);
    }
}

/// What is cut out between two columns is every character that begins at the first or behind it and
/// ends by the second, in order, and no other.
pub proof fn law_columns_are_cut_out(t: Seq<char>, start: int, end: int) -> (bounds: (int, int))
    requires
        0 <= start <= end,
    ensures
        0 <= bounds.0 <= bounds.1 <= t.len(),
        selection::columns_cut(t, start, end) == t.subrange(bounds.0, bounds.1),
        forall|k: int|
            0 <= k < t.len() ==> (bounds.0 <= k < bounds.1 <==> text::columns(#[trigger] t.take(k))
                >= start && text::columns(t.take(k + 1)) <= end),
{
    lemma_char_from(t, start, 0);
    lemma_fitting_end(t, 0, end);
    let a = selection::char_from(t, start, 0);
    let b = position::fitting(t, 0, end);
    let bounds = if a < b {
        (a, b)
    } else {
        (a, a)
    };
    if a < b {
        assert(selection::columns_cut(t, start, end) =~= t.subrange(a, b));
    } else {
        assert(selection::columns_cut(t, start, end) =~= t.subrange(a, a));
    }
    assert forall|k: int| 0 <= k < t.len() implies (bounds.0 <= k < bounds.1 <==> text::columns(
        #[trigger] t.take(k),
    ) >= start && text::columns(t.take(k + 1)) <= end) by {
        if k < a {
            assert(text::columns(t.take(k)) < start);
        } else {
            text::lemma_columns_monotone(t, a, k);
            if k < b {
                text::lemma_columns_monotone(t, k + 1, b);
            } else {
                text::lemma_columns_monotone(t, b + 1, k + 1);
            }
        }
    }
    bounds
}

proof fn lemma_last_piece(front: Seq<char>, last: Seq<char>)
    requires
        yank_laws::one_line(last),
    ensures
        yank_laws::pieces(front + seq!['\n'] + last) == yank_laws::pieces(front).push(last),
    decreases last.len(),
{
    let whole = front + seq!['\n'] + last;
    if last.len() == 0 {
        assert(whole.drop_last() =~= front);
        assert(last =~= Seq::empty());
        assert(yank_laws::pieces(whole) =~= yank_laws::pieces(front).push(last));
    } else {
        lemma_last_piece(front, last.drop_last());
        assert(whole.drop_last() =~= front + seq!['\n'] + last.drop_last());
        assert(whole.last() == last.last());
        assert(last.drop_last().push(last.last()) =~= last);
        assert(yank_laws::pieces(whole) =~= yank_laws::pieces(front).push(last));
    }
}

proof fn lemma_one_line_piece(text: Seq<char>)
    requires
        yank_laws::one_line(text),
    ensures
        yank_laws::pieces(text) == seq![text],
    decreases text.len(),
{
    if text.len() == 0 {
        assert(text =~= Seq::empty());
    } else {
        lemma_one_line_piece(text.drop_last());
        assert(text.drop_last().push(text.last()) =~= text);
        assert(yank_laws::pieces(text) =~= seq![text]);
    }
}

/// Lines joined by line breaks are taken apart again into the same lines.
pub proof fn law_joined_lines_come_apart(lines: Seq<Seq<char>>, n: int)
    requires
        1 <= n <= lines.len(),
        forall|k: int| 0 <= k < n ==> yank_laws::one_line(#[trigger] lines[k]),
    ensures
        yank_laws::pieces(selection::with_breaks(lines, n)) == lines.take(n),
    decreases n,
{
    if n == 1 {
        lemma_one_line_piece(lines[0]);
        assert(yank_laws::pieces(selection::with_breaks(lines, 1)) =~= lines.take(1));
    } else {
        law_joined_lines_come_apart(lines, n - 1);
        lemma_last_piece(selection::with_breaks(lines, n - 1), lines[n - 1]);
        assert(lines.take(n - 1).push(lines[n - 1]) =~= lines.take(n));
    }
}

proof fn lemma_gathered(rows: Seq<ContentRowV>, first: (int, int), last: (int, int), n: int)
    requires
        1 <= n,
        0 <= first.0,
        first.0 + n <= rows.len(),
        forall|k: int| first.0 <= k < first.0 + n ==> (#[trigger] rows[k]).line is None,
    ensures
        ({
            let g = selection::gathered(rows, first, last, n);
            &&& g.open
            &&& g.line is None
            &&& g.current == selection::row_part(rows, first.0 + n - 1, first, last)
            &&& g.done.len() == n - 1
            &&& forall|k: int|
                0 <= k < n - 1 ==> #[trigger] g.done[k] == text::trimmed_end(
                    selection::row_part(rows, first.0 + k, first, last),
                )
        }),
    decreases n,
{
    assert(rows[first.0 + n - 1].line is None);
    if n > 1 {
        lemma_gathered(rows, first, last, n - 1);
    } else {
        reveal_with_fuel(selection::gathered, 2);
    }
}

proof fn lemma_nothing_blank_at_the_end(lines: Seq<Seq<char>>)
    requires
        lines.len() > 0,
        text::trimmed(lines.last()).len() > 0,
    ensures
        selection::without_blank_end(lines) == lines,
{
}

proof fn lemma_part_is_one_line(t: Seq<char>, start: int, end: int)
    requires
        yank_laws::one_line(t),
        0 <= start <= end,
    ensures
        yank_laws::one_line(text::trimmed_end(selection::columns_cut(t, start, end))),
{
    let b = law_columns_are_cut_out(t, start, end);
    let c = selection::columns_cut(t, start, end);
    text_laws::law_end_is_cut_off(c);
    let e = text::trimmed_end(c);
    assert forall|i: int| 0 <= i < e.len() implies #[trigger] e[i] != '\n' by {
        assert(e[i] == c[i]);
        assert(c[i] == t[b.0 + i]);
    }
}

/// The columns of a row of a selection: from its first cell on the first row and from the start on
/// the others, up to its last cell on the last row and to the end on the others.
pub open spec fn columns_on_row(sel: MouseSelection, area: Rect, row: int) -> (int, int) {
    (
        if row == sel.start_row {
            sel.start_col - area.x
        } else {
            0
        },
        if row == sel.end_row {
            sel.end_col - area.x
        } else {
            usize::MAX as int
        },
    )
}

/// The text that a selection covers has one line for each of its rows, in order: the characters of
/// the row in the columns that are covered there, without the white space at the end.
pub proof fn law_covered_text(rows: Seq<ContentRowV>, area: Rect, sel: MouseSelection)
    requires
        drawn_on(sel, area),
        !(sel.start_row == sel.end_row && sel.start_col == sel.end_col),
        sel.end_row - area.y < rows.len(),
        forall|k: int| 0 <= k < rows.len() ==> (#[trigger] rows[k]).line is None,
        forall|k: int| 0 <= k < rows.len() ==> yank_laws::one_line((#[trigger] rows[k]).text),
        ({
            let on = columns_on_row(sel, area, sel.end_row as int);
            !text_laws::blank(selection::columns_cut(rows[sel.end_row - area.y].text, on.0, on.1))
        }),
    ensures
        ({
            let lines = yank_laws::pieces(selection::text_under(rows, area, sel));
            &&& lines.len() == sel.end_row - sel.start_row + 1
            &&& forall|k: int|
                0 <= k <= sel.end_row - sel.start_row ==> {
                    let on = columns_on_row(sel, area, sel.start_row + k);
                    #[trigger] lines[k] == text::trimmed_end(
                        selection::columns_cut(rows[sel.start_row - area.y + k].text, on.0, on.1),
                    )
                }
        }),
{
    let first = (sel.start_row - area.y, sel.start_col - area.x);
    let last = (sel.end_row - area.y, sel.end_col - area.x);
    let n = last.0 - first.0 + 1;
    lemma_gathered(rows, first, last, n);
    let g = selection::gathered(rows, first, last, n);
    let lines = selection::all_lines(g);
    assert forall|k: int| 0 <= k < n implies {
        let on = columns_on_row(sel, area, sel.start_row + k);
        #[trigger] lines[k] == text::trimmed_end(selection::columns_cut(rows[first.0 + k].text, on.0, on.1))
    } by {
        if k < n - 1 {
            assert(g.done[k] == text::trimmed_end(selection::row_part(rows, first.0 + k, first, last)));
        }
    }
    let on = columns_on_row(sel, area, sel.end_row as int);
    let tail = selection::columns_cut(rows[last.0].text, on.0, on.1);
    assert(lines[n - 1] == text::trimmed_end(tail));
    text_laws::law_blank_texts_are_cut_to_nothing(tail);
    lemma_nothing_blank_at_the_end(lines);
    assert forall|k: int| 0 <= k < n implies yank_laws::one_line(#[trigger] lines[k]) by {
        let on = columns_on_row(sel, area, sel.start_row + k);
        assert(yank_laws::one_line(rows[first.0 + k].text));
        lemma_part_is_one_line(rows[first.0 + k].text, on.0, on.1);
    }
    law_joined_lines_come_apart(lines, n);
    assert(lines.take(n) =~= lines);
}

proof fn lemma_stretch_back(line: Seq<char>, i: int)
    requires
        0 <= i < line.len(),
    ensures
        ({
            let a = selection::stretch_start(line, i);
            &&& 0 <= a <= i
            &&& forall|k: int|
                a <= k <= i ==> text::white_space(#[trigger] line[k]) == text::white_space(line[i])
            &&& a > 0 ==> text::white_space(line[a - 1]) != text::white_space(line[i])
        }),
    decreases i,
{
    if 0 < i && text::white_space(line[i - 1]) == text::white_space(line[i]) {
        lemma_stretch_back(line, i - 1);
    }
}

proof fn lemma_stretch_on(line: Seq<char>, i: int)
    requires
        0 <= i < line.len(),
    ensures
        ({
            let b = selection::stretch_end(line, i);
            &&& i <= b < line.len()
            &&& forall|k: int|
                i <= k <= b ==> text::white_space(#[trigger] line[k]) == text::white_space(line[i])
            &&& b + 1 < line.len() ==> text::white_space(line[b + 1]) != text::white_space(line[i])
        }),
    decreases line.len() - i,
{
    if i + 1 < line.len() && text::white_space(line[i + 1]) == text::white_space(line[i]) {
        lemma_stretch_on(line, i + 1);
    }
}

proof fn lemma_covering(line: Seq<char>, col: int, from: int)
    requires
        0 <= from,
    ensures
        selection::char_covering(line, col, from) matches Some(i) ==> from <= i < line.len() && text::clip(
            text::columns(line.take(i)),
        ) <= col < text::clip(text::columns(line.take(i + 1))),
    decreases line.len() - from,
{
    if from < line.len() {
        lemma_covering(line, col, from + 1);
    }
}

/// The word under a column is the whole stretch round the character there that is white space
/// throughout or has none: from the column where its first character begins to the one where its
/// last ends.
pub proof fn law_word_is_a_whole_stretch(line: Seq<char>, col: int) -> (at: (int, int, int))
    ensures
        selection::word_range(line, col) matches Some(r) ==> {
            let (a, i, b) = at;
            &&& 0 <= a <= i <= b < line.len()
            &&& text::clip(text::columns(line.take(i))) <= col < text::clip(text::columns(line.take(i + 1)))
            &&& r.0 == text::clip(text::columns(line.take(a)))
            &&& r.1 == text::clip(text::columns(line.take(b + 1)))
            &&& forall|k: int|
                a <= k <= b ==> text::white_space(#[trigger] line[k]) == text::white_space(line[i])
            &&& a > 0 ==> text::white_space(line[a - 1]) != text::white_space(line[i])
            &&& b + 1 < line.len() ==> text::white_space(line[b + 1]) != text::white_space(line[i])
        },
{
    lemma_covering(line, col, 0);
    match selection::char_covering(line, col, 0) {
        Some(i) => {
            lemma_stretch_back(line, i);
            lemma_stretch_on(line, i);
            (selection::stretch_start(line, i), i, selection::stretch_end(line, i))
        },
        None => (0, 0, 0),
    }
}

/// A click is the second of a double click where the first was at the same cell and no longer ago
/// than the interval.
pub proof fn law_double_clicks(last: LastMouseClick, row: u16, col: u16, now: u64)
    requires
        last.at <= now,
    ensures
        selection::double_click(Some(last), row, col, now) <==> last.row == row && last.col == col && now
            - last.at <= 400,
        !selection::double_click(None, row, col, now),
{
}

} // verus!
