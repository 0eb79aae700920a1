//! The cursor between text and screen: display positions, clamping and scrolling.

use crate::copy_mode::model;
use crate::copy_mode::wrap;
use crate::text;
use crate::copy_mode::model::{CopyModeState, CopyPoint, CopyStateV, LineV, PaneTextSnapshot, RowV, SnapshotLine, SnapshotV, WrappedV};
use vstd::prelude::*;

verus! {

pub open spec fn point_at(line: int, col: int) -> CopyPoint {
    CopyPoint { line: line as usize, col: col as usize }
}

/// The place in the snapshot nearest to `p`: its line cut back to the last one, its column to the
/// end of that line.
pub open spec fn clamped(snapshot: SnapshotV, p: CopyPoint) -> CopyPoint {
    if snapshot.lines.len() == 0 {
        point_at(0, 0)
    } else {
        let line = text::min_int(p.line as int, snapshot.lines.len() - 1);
        point_at(line, text::min_int(p.col as int, model::line_len(snapshot, line) as int))
    }
}

/// Whether a place lies in the snapshot: on one of its lines, at most at the line's end.
pub open spec fn in_snapshot(snapshot: SnapshotV, p: CopyPoint) -> bool {
    p.line < snapshot.lines.len() && p.col <= model::line_len(snapshot, p.line as int)
}

/// The end of the last line.
pub open spec fn end_point(snapshot: SnapshotV) -> CopyPoint {
    let line = if snapshot.lines.len() == 0 {
        0
    } else {
        snapshot.lines.len() - 1
    };
    point_at(line, model::line_len(snapshot, line) as int)
}

/// Each line's rows are there, and they show that line.
pub open spec fn rows_placed(w: WrappedV) -> bool {
    &&& w.line_ranges.len() > 0
    &&& forall|i: int|
        #![trigger w.line_ranges[i]]
        0 <= i < w.line_ranges.len() ==> w.line_ranges[i].0 < w.line_ranges[i].1 <= w.rows.len()
    &&& forall|i: int, k: int|
        #![trigger w.line_ranges[i], w.rows[k]]
        0 <= i < w.line_ranges.len() && w.line_ranges[i].0 <= k < w.line_ranges[i].1
            ==> w.rows[k].line == i
    &&& forall|k: int|
        #![trigger w.rows[k]]
        0 <= k < w.rows.len() ==> w.rows[k].start_col + w.rows[k].text.len() == w.rows[k].end_col
}

/// What every operation of copy mode keeps: there is a line to stand on, and the rows, once laid
/// out, belong to their lines.
pub open spec fn state_ok(s: CopyStateV) -> bool {
    &&& s.snapshot.lines.len() > 0
    &&& s.wrapped.rows.len() > 0 ==> rows_placed(s.wrapped)
}

/// The first of the rows `from..to` that reaches the column, or the last one.
pub open spec fn row_reaching(rows: Seq<RowV>, from: int, to: int, col: int) -> int
    decreases to - from,
{
    if from + 1 >= to || col <= rows[from].end_col {
        from
    } else {
        row_reaching(rows, from + 1, to, col)
    }
}

/// The row on which a place is shown.
pub open spec fn display_row(w: WrappedV, p: CopyPoint) -> int {
    let line = text::min_int(p.line as int, w.line_ranges.len() - 1);
    row_reaching(
        w.rows,
        w.line_ranges[line].0 as int,
        w.line_ranges[line].1 as int,
        p.col as int,
    )
}

/// The row and the screen column at which a place is shown.
pub open spec fn display_position(snapshot: SnapshotV, w: WrappedV, p: CopyPoint) -> (usize, usize) {
    let index = display_row(w, p);
    let row = w.rows[index];
    (
        index as usize,
        text::clip(
            text::columns(
                text::cut(
                    model::line_text(snapshot, row.line as int),
                    row.start_col as int,
                    text::min_int(p.col as int, row.end_col as int),
                ),
            ),
        ),
    )
}

/// How many characters at the front of a text fit into `target` columns, at least `from`.
pub open spec fn fitting(text: Seq<char>, from: int, target: int) -> int
    decreases text.len() - from,
{
    if from < text.len() && text::columns(text.take(from + 1)) <= target {
        fitting(text, from + 1, target)
    } else {
        from
    }
}

/// The place shown at a screen column of a row, or the last one before it.
pub open spec fn point_shown(
    snapshot: SnapshotV,
    w: WrappedV,
    index: int,
    target: int,
) -> CopyPoint {
    let row = w.rows[text::min_int(index, w.rows.len() - 1)];
    let shown = text::cut(
        model::line_text(snapshot, row.line as int),
        row.start_col as int,
        row.end_col as int,
    );
    point_at(row.line as int, row.start_col + fitting(shown, 0, target))
}

/// Rows laid out for the width, the cursor back inside the text, and no scrolling past the last
/// page.
pub open spec fn relaid(s: CopyStateV, width: int, height: int) -> CopyStateV {
    let w = text::max_int(width, 1) as usize;
    let laid = if s.wrapped.width != w || s.wrapped.rows.len() == 0 {
        wrap::wrapped(s.snapshot, w)
    } else {
        s.wrapped
    };
    CopyStateV {
        wrapped: laid,
        cursor: clamped(s.snapshot, s.cursor),
        scroll_top: text::min_int(
            s.scroll_top as int,
            text::max_int(laid.rows.len() - text::max_int(height, 1), 0),
        ) as usize,
        ..s
    }
}

/// Scrolled as little as needed for the cursor's row to be among the `height` rows shown.
pub open spec fn scrolled_to_cursor(s: CopyStateV, height: int) -> CopyStateV {
    let row = display_position(s.snapshot, s.wrapped, s.cursor).0;
    let h = text::max_int(height, 1);
    CopyStateV {
        scroll_top: if row < s.scroll_top {
            row
        } else if row >= s.scroll_top + h {
            (row + 1 - h) as usize
        } else {
            s.scroll_top
        },
        ..s
    }
}

/// With the cursor's own column as the one to keep to when it moves between rows.
pub open spec fn with_column(s: CopyStateV) -> CopyStateV {
    CopyStateV { preferred_column: display_position(s.snapshot, s.wrapped, s.cursor).1, ..s }
}

/// The cursor put somewhere, and the screen brought after it.
pub open spec fn cursor_put(s: CopyStateV, p: CopyPoint, width: int, height: int) -> CopyStateV {
    scrolled_to_cursor(
        with_column(relaid(CopyStateV { cursor: p, ..s }, width, height)),
        height,
    )
}

pub proof fn lemma_row_reaching_bounds(rows: Seq<RowV>, from: int, to: int, col: int)
    requires
        from < to,
    ensures
        from <= row_reaching(rows, from, to, col) < to,
    decreases to - from,
{
    if !(from + 1 >= to || col <= rows[from].end_col) {
        lemma_row_reaching_bounds(rows, from + 1, to, col);
    }
}

/// The cursor's row is one of the rows of its line.
pub proof fn lemma_display_row(w: WrappedV, p: CopyPoint)
    requires
        rows_placed(w),
    ensures
        ({
            let line = text::min_int(p.line as int, w.line_ranges.len() - 1);
            &&& 0 <= display_row(w, p) < w.rows.len()
            &&& w.rows[display_row(w, p)].line == line
        }),
{
    let line = text::min_int(p.line as int, w.line_ranges.len() - 1);
    assert(w.line_ranges[line].0 < w.line_ranges[line].1 <= w.rows.len());
    lemma_row_reaching_bounds(
        w.rows,
        w.line_ranges[line].0 as int,
        w.line_ranges[line].1 as int,
        p.col as int,
    );
    assert(w.rows[display_row(w, p)].line == line);
}

proof fn lemma_lines_rows_len(lines: Seq<LineV>, i: int, j: int, width: int)
    requires
        0 <= i <= j,
    ensures
        wrap::lines_rows(lines, i, width).len() + (j - i) <= wrap::lines_rows(lines, j, width).len(),
        forall|k: int|
            0 <= k < wrap::lines_rows(lines, i, width).len() ==> #[trigger] wrap::lines_rows(lines, j, width)[k]
                == wrap::lines_rows(lines, i, width)[k],
    decreases j - i,
{
    if i < j {
        lemma_lines_rows_len(lines, i, j - 1, width);
        wrap::lemma_line_rows_nonempty(lines[j - 1].text, j - 1, width);
        assert forall|k: int| 0 <= k < wrap::lines_rows(lines, i, width).len() implies #[trigger] wrap::lines_rows(
            lines,
            j,
            width,
        )[k] == wrap::lines_rows(lines, i, width)[k] by {
            assert(wrap::lines_rows(lines, j - 1, width)[k] == wrap::lines_rows(lines, i, width)[k]);
        }
    }
}

proof fn lemma_line_rows_line(line: Seq<char>, index: int, width: int, k: int)
    requires
        line.len() <= usize::MAX,
        0 <= k < wrap::line_rows(line, index, width).len(),
    ensures
        wrap::line_rows(line, index, width)[k].line == index as usize,
        wrap::line_rows(line, index, width)[k].start_col + wrap::line_rows(line, index, width)[k].text.len()
            == wrap::line_rows(line, index, width)[k].end_col,
{
    if line.len() > 0 {
        wrap::lemma_rows_from_chain(line, index, 0, width);
    }
}

/// Laying out a snapshot that has a line puts every line's rows in their place.
pub proof fn lemma_wrapped_placed(snapshot: SnapshotV, width: usize)
    requires
        snapshot.lines.len() > 0,
        wrap::countable(snapshot),
        wrap::wrapped(snapshot, width).rows.len() <= usize::MAX,
    ensures
        rows_placed(wrap::wrapped(snapshot, width)),
        wrap::wrapped(snapshot, width).rows.len() > 0,
        wrap::wrapped(snapshot, width).line_ranges.len() == snapshot.lines.len(),
        forall|k: int|
            0 <= k < wrap::wrapped(snapshot, width).rows.len() ==> (#[trigger] wrap::wrapped(
                snapshot,
                width,
            ).rows[k]).line < snapshot.lines.len() || (snapshot.cursor_line
                == snapshot.lines.len() && k == wrap::wrapped(snapshot, width).rows.len() - 1),
{
    let w = wrap::wrapped(snapshot, width);
    let n = snapshot.lines.len() as int;
    let all = wrap::lines_rows(snapshot.lines, n, width as int);
    lemma_lines_rows_len(snapshot.lines, 0, n, width as int);
    assert forall|i: int| #![trigger w.line_ranges[i]] 0 <= i < w.line_ranges.len() implies {
        &&& w.line_ranges[i].0 < w.line_ranges[i].1 <= w.rows.len()
    } by {
        lemma_lines_rows_len(snapshot.lines, i, i + 1, width as int);
        lemma_lines_rows_len(snapshot.lines, i + 1, n, width as int);
    }
    assert forall|i: int, k: int|
        #![trigger w.line_ranges[i], w.rows[k]]
        0 <= i < w.line_ranges.len() && w.line_ranges[i].0 <= k < w.line_ranges[i].1 implies w.rows[k].line
        == i by {
        lemma_lines_rows_len(snapshot.lines, i, i + 1, width as int);
        lemma_lines_rows_len(snapshot.lines, i + 1, n, width as int);
        let before = wrap::lines_rows(snapshot.lines, i, width as int);
        let upto = wrap::lines_rows(snapshot.lines, i + 1, width as int);
        assert(all[k] == upto[k]);
        assert(upto[k] == wrap::line_rows(snapshot.lines[i].text, i, width as int)[k - before.len()]);
        lemma_line_rows_line(snapshot.lines[i].text, i, width as int, k - before.len());
    }
    assert forall|k: int| #![trigger w.rows[k]] 0 <= k < w.rows.len() implies w.rows[k].start_col
        + w.rows[k].text.len() == w.rows[k].end_col by {
        if k < all.len() {
            lemma_rows_have_lines(snapshot.lines, n, width as int, k);
        }
    }
    assert forall|k: int| 0 <= k < w.rows.len() implies (#[trigger] w.rows[k]).line
        < snapshot.lines.len() || (snapshot.cursor_line == snapshot.lines.len() && k == w.rows.len()
        - 1) by {
        if k < all.len() {
            lemma_rows_have_lines(snapshot.lines, n, width as int, k);
        }
    }
}

proof fn lemma_rows_have_lines(lines: Seq<LineV>, n: int, width: int, k: int)
    requires
        0 <= n <= lines.len() <= usize::MAX,
        0 <= k < wrap::lines_rows(lines, n, width).len(),
        forall|i: int| 0 <= i < lines.len() ==> (#[trigger] lines[i]).text.len() <= usize::MAX,
    ensures
        wrap::lines_rows(lines, n, width)[k].line < n,
        wrap::lines_rows(lines, n, width)[k].start_col + wrap::lines_rows(lines, n, width)[k].text.len()
            == wrap::lines_rows(lines, n, width)[k].end_col,
    decreases n,
{
    let before = wrap::lines_rows(lines, n - 1, width);
    if k < before.len() {
        lemma_rows_have_lines(lines, n - 1, width, k);
    } else {
        lemma_line_rows_line(lines[n - 1].text, n - 1, width, k - before.len());
    }
}

/// Characters in a line, none where there is no such line.
pub fn line_char_len(snapshot: &PaneTextSnapshot, line: usize) -> (r: usize)
    ensures
        r == model::line_len(snapshot@, line as int),
{
    if line < snapshot.lines.len() {
        proof {
            assert(snapshot@.lines[line as int] == snapshot.lines@[line as int]@);
        }
        snapshot.lines[line].text.as_str().unicode_len()
    } else {
        0
    }
}

/// The place in the snapshot nearest to `point`.
pub fn clamp_point(snapshot: &PaneTextSnapshot, point: CopyPoint) -> (r: CopyPoint)
    ensures
        r == clamped(snapshot@, point),
        snapshot@.lines.len() > 0 ==> in_snapshot(snapshot@, r),
{
    let n: usize = snapshot.lines.len();
    if n == 0 {
        return CopyPoint { line: 0, col: 0 };
    }
    let line: usize = if point.line < n {
        point.line
    } else {
        n - 1
    };
    let len: usize = line_char_len(snapshot, line);
    CopyPoint {
        line,
        col: if point.col < len {
            point.col
        } else {
            len
        },
    }
}

/// The end of the last line.
pub fn last_cursor_point(snapshot: &PaneTextSnapshot) -> (r: CopyPoint)
    ensures
        r == end_point(snapshot@),
        snapshot@.lines.len() > 0 ==> in_snapshot(snapshot@, r),
        snapshot@.lines.len() > 0 ==> r.line + 1 == snapshot@.lines.len() && r.col
            == snapshot@.lines[r.line as int].text.len(),
{
    let n: usize = snapshot.lines.len();
    let line: usize = if n == 0 {
        0
    } else {
        n - 1
    };
    CopyPoint { line, col: line_char_len(snapshot, line) }
}

/// Columns that the characters `start..end` of a line take.
pub fn display_width_between(line: &SnapshotLine, start: usize, end: usize) -> (r: usize)
    ensures
        r == text::clip(text::columns(text::cut(line.text@, start as int, end as int))),
{
    let chars = text::chars_of(line.text.as_str());
    let piece = text::chars_of(text::slice_of(chars.as_slice(), start, end).as_str());
    text::text_width(piece.as_slice())
}

/// The row and the screen column at which a place is shown.
pub fn point_display_position(state: &CopyModeState, point: CopyPoint) -> (r: (usize, usize))
    requires
        state_ok(state@),
        state@.wrapped.rows.len() > 0,
        point.line < state@.snapshot.lines.len(),
    ensures
        r == display_position(state@.snapshot, state@.wrapped, point),
        r.0 < state@.wrapped.rows.len(),
{
    let count: usize = state.wrapped.line_ranges.len();
    let line: usize = if point.line < count {
        point.line
    } else {
        count - 1
    };
    let (start, end) = state.wrapped.line_ranges[line];
    proof {
        lemma_display_row(state@.wrapped, point);
        assert(state@.wrapped.line_ranges[line as int].0 < state@.wrapped.line_ranges[line as int].1);
    }
    let mut row_idx: usize = start;
    while row_idx + 1 < end && point.col > state.wrapped.rows[row_idx].end_col
        invariant
            start <= row_idx < end <= state.wrapped.rows@.len(),
            row_reaching(
                state@.wrapped.rows,
                row_idx as int,
                end as int,
                point.col as int,
            ) == row_reaching(state@.wrapped.rows, start as int, end as int, point.col as int),
        decreases end - row_idx,
    {
        proof {
            assert(state@.wrapped.rows[row_idx as int] == state.wrapped.rows@[row_idx as int]@);
        }
        row_idx = row_idx + 1;
    }
    proof {
        assert(state@.wrapped.rows[row_idx as int] == state.wrapped.rows@[row_idx as int]@);
        assert(row_idx == display_row(state@.wrapped, point));
    }
    let row = &state.wrapped.rows[row_idx];
    let until: usize = if point.col < row.end_col {
        point.col
    } else {
        row.end_col
    };
    proof {
        assert(state@.snapshot.lines[row.line as int] == state.snapshot.lines@[row.line as int]@);
    }
    (row_idx, display_width_between(&state.snapshot.lines[row.line], row.start_col, until))
}

/// The row and the screen column of the cursor.
pub fn current_display_position(state: &CopyModeState) -> (r: (usize, usize))
    requires
        state_ok(state@),
        state@.wrapped.rows.len() > 0,
        state@.cursor.line < state@.snapshot.lines.len(),
    ensures
        r == display_position(state@.snapshot, state@.wrapped, state@.cursor),
        r.0 < state@.wrapped.rows.len(),
{
    point_display_position(state, state.cursor)
}

/// How many characters at the front of a text fit into `target` columns.
pub fn char_index_for_display_col(chars: &[char], target: usize) -> (r: usize)
    ensures
        r == fitting(chars@, 0, target as int),
        r <= chars@.len(),
{
    let mut used: usize = 0;
    let mut idx: usize = 0;
    proof {
        assert(chars@.take(0) =~= Seq::empty());
    }
    while idx < chars.len()
        invariant
            idx <= chars@.len(),
            used <= target,
            used == text::columns(chars@.take(idx as int)),
            fitting(chars@, idx as int, target as int) == fitting(chars@, 0, target as int),
        decreases chars@.len() - idx,
    {
        let w: usize = text::char_width(chars[idx]);
        proof {
            text::lemma_columns_take(chars@, idx as int);
        }
        if w > target - used {
            return idx;
        }
        used = used + w;
        idx = idx + 1;
    }
    idx
}

/// The place shown at a screen column of a row.
pub fn point_from_display_position(state: &CopyModeState, row_idx: usize, target_col: usize) -> (r:
    CopyPoint)
    requires
        state@.wrapped.rows.len() > 0,
        state@.wrapped.rows[text::min_int(row_idx as int, state@.wrapped.rows.len() - 1)].line
            < state@.snapshot.lines.len(),
    ensures
        r == point_shown(state@.snapshot, state@.wrapped, row_idx as int, target_col as int),
        r.line < state@.snapshot.lines.len(),
{
    let count: usize = state.wrapped.rows.len();
    let index: usize = if row_idx < count {
        row_idx
    } else {
        count - 1
    };
    let row = &state.wrapped.rows[index];
    proof {
        assert(state@.wrapped.rows[index as int] == row@);
        assert(state@.snapshot.lines[row.line as int] == state.snapshot.lines@[row.line as int]@);
    }
    let chars = text::chars_of(state.snapshot.lines[row.line].text.as_str());
    let shown = text::chars_of(text::slice_of(chars.as_slice(), row.start_col, row.end_col).as_str());
    let fits: usize = char_index_for_display_col(shown.as_slice(), target_col);
    proof {
        assert(row.start_col + fits <= usize::MAX) by {
            assert(shown@.len() > 0 ==> row.start_col + shown@.len() <= chars@.len());
        }
    }
    CopyPoint { line: row.line, col: row.start_col + fits }
}

/// Lays the rows out again where the width has changed or they are missing, puts the cursor back
/// inside the text, and takes back scrolling past the last page.
pub fn rebuild_wrapped(state: &mut CopyModeState, width: usize, height: usize)
    requires
        state_ok(old(state)@),
    ensures
        final(state)@ == relaid(old(state)@, width as int, height as int),
        state_ok(final(state)@),
        final(state)@.wrapped.rows.len() > 0,
        in_snapshot(final(state)@.snapshot, final(state)@.cursor),
{
    let ghost before = state@;
    let w: usize = if width < 1 {
        1
    } else {
        width
    };
    let h: usize = if height < 1 {
        1
    } else {
        height
    };
    if state.wrapped.width != w || state.wrapped.rows.len() == 0 {
        let laid = wrap::build_wrapped_snapshot(&state.snapshot, w);
        proof {
            lemma_wrapped_placed(state@.snapshot, w);
        }
        state.wrapped = laid;
    }
    state.cursor = clamp_point(&state.snapshot, state.cursor);
    let rows: usize = state.wrapped.rows.len();
    let max_scroll_top: usize = if rows > h {
        rows - h
    } else {
        0
    };
    if state.scroll_top > max_scroll_top {
        state.scroll_top = max_scroll_top;
    }
    proof {
        assert(state@ =~= relaid(before, width as int, height as int));
    }
}

/// Scrolls as little as needed for the cursor's row to be shown.
pub fn ensure_cursor_visible(state: &mut CopyModeState, height: usize)
    requires
        state_ok(old(state)@),
        old(state)@.wrapped.rows.len() > 0,
        old(state)@.cursor.line < old(state)@.snapshot.lines.len(),
    ensures
        final(state)@ == scrolled_to_cursor(old(state)@, height as int),
{
    let ghost before = state@;
    let rows: usize = state.wrapped.rows.len();
    let row: usize = current_display_position(state).0;
    proof {
        assert(row < rows);
    }
    let h: usize = if height < 1 {
        1
    } else {
        height
    };
    if row < state.scroll_top {
        state.scroll_top = row;
    } else if row >= state.scroll_top.saturating_add(h) {
        state.scroll_top = row - (h - 1);
    }
    proof {
        assert(state@ =~= scrolled_to_cursor(before, height as int));
    }
}

} // verus!
