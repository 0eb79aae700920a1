//! Laying a snapshot out in rows, and moving between text and screen positions.

use crate::text;
use crate::copy_mode::model::{LineV, PaneTextSnapshot, RowV, SnapshotV, WrappedRow, WrappedSnapshot, WrappedV};
use vstd::prelude::*;

verus! {

/// Where the row that begins at `start` ends, at `end` or later: a row takes characters until it
/// is full or the next one does not fit, and always at least one.
pub open spec fn row_end(line: Seq<char>, start: int, end: int, width: int) -> int
    decreases line.len() - end,
{
    if end >= line.len() {
        end
    } else if end > start && text::columns(line.subrange(start, end)) + text::columns_of(line[end]) > width {
        end
    } else if end > start && text::columns(line.subrange(start, end)) >= width {
        end
    } else {
        row_end(line, start, end + 1, width)
    }
}

pub proof fn lemma_row_end_bounds(line: Seq<char>, start: int, end: int, width: int)
    requires
        0 <= start <= end <= line.len(),
    ensures
        end <= row_end(line, start, end, width) <= line.len(),
        start < line.len() ==> start < row_end(line, start, end, width),
    decreases line.len() - end,
{
    if end < line.len() && (end == start || (text::columns(line.subrange(start, end)) + text::columns_of(
        line[end],
    ) <= width && text::columns(line.subrange(start, end)) < width)) {
        lemma_row_end_bounds(line, start, end + 1, width);
    }
}

/// The rows of a line from character `start` on.
pub open spec fn rows_from(line: Seq<char>, index: int, start: int, width: int) -> Seq<RowV>
    decreases line.len() - start,
    when 0 <= start
{
    if start >= line.len() {
        Seq::empty()
    } else {
        proof {
            lemma_row_end_bounds(line, start, start, width);
        }
        let end = row_end(line, start, start, width);
        seq![
            RowV {
                line: index as usize,
                start_col: start as usize,
                end_col: end as usize,
                text: line.subrange(start, end),
            },
        ] + rows_from(line, index, end, width)
    }
}

pub open spec fn blank_row(index: int) -> RowV {
    RowV { line: index as usize, start_col: 0, end_col: 0, text: Seq::empty() }
}

/// The rows of a line; an empty line takes one.
pub open spec fn line_rows(line: Seq<char>, index: int, width: int) -> Seq<RowV> {
    if line.len() == 0 {
        seq![blank_row(index)]
    } else {
        rows_from(line, index, 0, width)
    }
}

/// The rows of the first `n` lines.
pub open spec fn lines_rows(lines: Seq<LineV>, n: int, width: int) -> Seq<RowV>
    decreases n,
{
    if n <= 0 {
        Seq::empty()
    } else {
        lines_rows(lines, n - 1, width) + line_rows(lines[n - 1].text, n - 1, width)
    }
}

/// Which rows each line takes.
pub open spec fn rows_of_lines(lines: Seq<LineV>, n: int, width: int) -> Seq<(usize, usize)> {
    Seq::new(
        n as nat,
        |i: int|
            (
                lines_rows(lines, i, width).len() as usize,
                lines_rows(lines, i + 1, width).len() as usize,
            ),
    )
}

/// A snapshot laid out in rows of `width` columns. A cursor on the line behind the last one gets
/// a row of its own there, and a snapshot without a line is one blank row.
pub open spec fn wrapped(snapshot: SnapshotV, width: usize) -> WrappedV {
    let n = snapshot.lines.len() as int;
    let rows = lines_rows(snapshot.lines, n, width as int);
    let ranges = rows_of_lines(snapshot.lines, n, width as int);
    if snapshot.cursor_line == n {
        WrappedV { width, rows: rows.push(blank_row(n)), line_ranges: ranges }
    } else if n == 0 {
        WrappedV { width, rows: seq![blank_row(0)], line_ranges: seq![(0usize, 1usize)] }
    } else {
        WrappedV { width, rows, line_ranges: ranges }
    }
}

pub proof fn lemma_line_rows_nonempty(line: Seq<char>, index: int, width: int)
    ensures
        line_rows(line, index, width).len() > 0,
{
}

/// The rows of a line follow each other without a gap, and each shows its part of the line.
pub proof fn lemma_rows_from_chain(line: Seq<char>, index: int, start: int, width: int)
    requires
        0 <= start < line.len() <= usize::MAX,
    ensures
        ({
            let rows = rows_from(line, index, start, width);
            &&& rows.len() > 0
            &&& rows[0].start_col == start
            &&& rows.last().end_col == line.len()
            &&& forall|i: int|
                #![trigger rows[i]]
                0 <= i < rows.len() ==> {
                    &&& rows[i].line == index as usize
                    &&& start <= rows[i].start_col < rows[i].end_col <= line.len()
                    &&& rows[i].text == line.subrange(
                        rows[i].start_col as int,
                        rows[i].end_col as int,
                    )
                    &&& rows[i].end_col == row_end(
                        line,
                        rows[i].start_col as int,
                        rows[i].start_col as int,
                        width,
                    )
                }
            &&& forall|i: int, j: int|
                #![trigger rows[i], rows[j]]
                0 <= i < rows.len() && j == i + 1 && j < rows.len() ==> rows[i].end_col
                    == rows[j].start_col
        }),
    decreases line.len() - start,
{
    lemma_row_end_bounds(line, start, start, width);
    let end = row_end(line, start, start, width);
    let rows = rows_from(line, index, start, width);
    let rest = rows_from(line, index, end, width);
    assert(rows.len() == 1 + rest.len());
    assert(forall|k: int| 1 <= k < rows.len() ==> rows[k] == rest[k - 1]);
    if end < line.len() {
        lemma_rows_from_chain(line, index, end, width);
        assert(rows.last() == rest.last());
        assert forall|i: int| #![trigger rows[i]] 0 <= i < rows.len() implies {
            &&& rows[i].line == index as usize
            &&& start <= rows[i].start_col < rows[i].end_col <= line.len()
            &&& rows[i].text == line.subrange(rows[i].start_col as int, rows[i].end_col as int)
            &&& rows[i].end_col == row_end(
                line,
                rows[i].start_col as int,
                rows[i].start_col as int,
                width,
            )
        } by {
            if i > 0 {
                assert(rows[i] == rest[i - 1]);
            }
        }
        assert forall|i: int, j: int|
            #![trigger rows[i], rows[j]]
            0 <= i < rows.len() && j == i + 1 && j < rows.len() implies rows[i].end_col
            == rows[j].start_col by {
            if i > 0 {
                assert(rows[i] == rest[i - 1]);
                assert(rows[j] == rest[j - 1]);
            } else {
                assert(rows[j] == rest[0]);
            }
        }
    } else {
        assert(rest.len() == 0);
    }
}

/// The texts of rows, one behind the other.
pub open spec fn joined(rows: Seq<RowV>) -> Seq<char>
    decreases rows.len(),
{
    if rows.len() == 0 {
        Seq::empty()
    } else {
        rows[0].text + joined(rows.drop_first())
    }
}

proof fn lemma_rows_from_joined(line: Seq<char>, index: int, start: int, width: int)
    requires
        0 <= start <= line.len(),
    ensures
        joined(rows_from(line, index, start, width)) == line.skip(start),
    decreases line.len() - start,
{
    if start < line.len() {
        lemma_row_end_bounds(line, start, start, width);
        let end = row_end(line, start, start, width);
        let rest = rows_from(line, index, end, width);
        lemma_rows_from_joined(line, index, end, width);
        assert(rows_from(line, index, start, width).drop_first() =~= rest);
        assert(line.subrange(start, end) + line.skip(end) =~= line.skip(start));
    } else {
        assert(line.skip(start) =~= Seq::empty());
    }
}

/// Wrapping loses nothing: the rows of a line put together give the line back.
pub proof fn law_rows_give_back_the_line(line: Seq<char>, index: int, width: int)
    ensures
        joined(line_rows(line, index, width)) == line,
{
    if line.len() == 0 {
        assert(line_rows(line, index, width).drop_first() =~= Seq::empty());
        reveal_with_fuel(joined, 2);
        assert(joined(line_rows(line, index, width)) =~= line);
    } else {
        lemma_rows_from_joined(line, index, 0, width);
        assert(line.skip(0) =~= line);
    }
}

proof fn lemma_row_end_fits(line: Seq<char>, start: int, end: int, width: int)
    requires
        0 <= start <= end <= line.len(),
        end > start + 1 ==> text::columns(line.subrange(start, end)) <= width,
    ensures
        row_end(line, start, end, width) > start + 1 ==> text::columns(
            line.subrange(start, row_end(line, start, end, width)),
        ) <= width,
    decreases line.len() - end,
{
    if end < line.len() && (end == start || (text::columns(line.subrange(start, end)) + text::columns_of(
        line[end],
    ) <= width && text::columns(line.subrange(start, end)) < width)) {
        text::lemma_columns_step(line, start, end);
        lemma_row_end_fits(line, start, end + 1, width);
    }
}

/// Every row fits the width, but for a row of a single character that is wider than that.
pub proof fn law_rows_fit_the_width(line: Seq<char>, index: int, width: int, k: int)
    requires
        0 < line.len() <= usize::MAX,
        0 <= k < line_rows(line, index, width).len(),
    ensures
        line_rows(line, index, width)[k].text.len() > 1 ==> text::columns(
            line_rows(line, index, width)[k].text,
        ) <= width,
{
    lemma_rows_from_chain(line, index, 0, width);
    let row = line_rows(line, index, width)[k];
    lemma_row_end_fits(line, row.start_col as int, row.start_col as int, width);
}

proof fn lemma_rows_are_of_their_lines(lines: Seq<LineV>, n: int, width: int, row: int)
    requires
        0 <= n <= lines.len() <= usize::MAX,
        forall|i: int| 0 <= i < lines.len() ==> (#[trigger] lines[i]).text.len() <= usize::MAX,
        0 <= row < lines_rows(lines, n, width).len(),
    ensures
        lines_rows(lines, n, width)[row].line < n,
    decreases n,
{
    let before = lines_rows(lines, n - 1, width);
    let line = lines[n - 1].text;
    let rows = line_rows(line, n - 1, width);
    assert(lines_rows(lines, n, width) == before + rows);
    if row < before.len() {
        lemma_rows_are_of_their_lines(lines, n - 1, width, row);
    } else {
        let at = row - before.len();
        assert(lines_rows(lines, n, width)[row] == rows[at]);
        if line.len() > 0 {
            lemma_rows_from_chain(line, n - 1, 0, width);
        }
    }
}

/// Every row of a snapshot that was laid out shows one of its lines, unless the cursor stands
/// behind the last one.
pub proof fn law_rows_show_lines(snapshot: SnapshotV, width: usize, row: int)
    requires
        0 < snapshot.lines.len() <= usize::MAX,
        countable(snapshot),
        snapshot.cursor_line != snapshot.lines.len(),
        0 <= row < wrapped(snapshot, width).rows.len(),
    ensures
        wrapped(snapshot, width).rows[row].line < snapshot.lines.len(),
{
    lemma_rows_are_of_their_lines(
        snapshot.lines,
        snapshot.lines.len() as int,
        width as int,
        row,
    );
}

fn build_line_rows(rows: &mut Vec<WrappedRow>, chars: &Vec<char>, index: usize, width: usize)
    requires
        chars@.len() > 0,
    ensures
        wrapped_rows_view(*final(rows)) == wrapped_rows_view(*old(rows)) + rows_from(
            chars@,
            index as int,
            0,
            width as int,
        ),
{
    let ghost before = wrapped_rows_view(*rows);
    let n: usize = chars.len();
    let mut col: usize = 0;
    proof {
        assert(before + rows_from(chars@, index as int, 0, width as int) =~= before + rows_from(
            chars@,
            index as int,
            0,
            width as int,
        ));
    }
    while col < n
        invariant
            n == chars@.len(),
            col <= n,
            wrapped_rows_view(*rows) + rows_from(chars@, index as int, col as int, width as int)
                == before + rows_from(chars@, index as int, 0, width as int),
        decreases n - col,
    {
        let row_start: usize = col;
        let mut used: usize = 0;
        let mut full: bool = false;
        while col < n && !full
            invariant
                n == chars@.len(),
                row_start < n,
                row_start <= col <= n,
                used == text::clip(text::columns(chars@.subrange(row_start as int, col as int))),
                !full ==> (col == row_start || text::columns(
                    chars@.subrange(row_start as int, col as int),
                ) < width) && row_end(chars@, row_start as int, row_start as int, width as int)
                    == row_end(chars@, row_start as int, col as int, width as int),
                full ==> col == row_end(chars@, row_start as int, row_start as int, width as int),
            decreases n - col, (if full { 0int } else { 1int }),
        {
            let ch_width: usize = text::char_width(chars[col]);
            if col > row_start && (used > width || ch_width > width - used) {
                full = true;
            } else {
                proof {
                    text::lemma_columns_step(chars@, row_start as int, col as int);
                }
                used = used.saturating_add(ch_width);
                col = col + 1;
                if used >= width {
                    full = true;
                    proof {
                        assert(row_end(chars@, row_start as int, col as int, width as int) == col);
                    }
                }
            }
        }
        proof {
            lemma_row_end_bounds(chars@, row_start as int, row_start as int, width as int);
            assert(col == row_end(chars@, row_start as int, row_start as int, width as int));
        }
        let ghost prev = wrapped_rows_view(*rows);
        let text = text::slice_of(chars.as_slice(), row_start, col);
        rows.push(WrappedRow { line: index, start_col: row_start, end_col: col, text });
        proof {
            let row = RowV {
                line: index,
                start_col: row_start,
                end_col: col,
                text: chars@.subrange(row_start as int, col as int),
            };
            let rest = rows_from(chars@, index as int, col as int, width as int);
            assert(rows@.last()@ =~= row);
            assert(wrapped_rows_view(*rows) =~= prev.push(row));
            assert(prev.push(row) + rest =~= prev + (seq![row] + rest));
        }
    }
    proof {
        assert(wrapped_rows_view(*rows) + rows_from(chars@, index as int, col as int, width as int)
            =~= wrapped_rows_view(*rows));
    }
}

/// What a vector of rows stands for.
pub open spec fn wrapped_rows_view(rows: Vec<WrappedRow>) -> Seq<RowV> {
    Seq::new(rows@.len(), |i: int| rows@[i]@)
}

fn push_blank_row(rows: &mut Vec<WrappedRow>, index: usize)
    ensures
        wrapped_rows_view(*final(rows)) == wrapped_rows_view(*old(rows)).push(
            blank_row(index as int),
        ),
{
    let ghost before = wrapped_rows_view(*rows);
    rows.push(WrappedRow { line: index, start_col: 0, end_col: 0, text: String::new() });
    proof {
        assert(rows@.last()@ =~= blank_row(index as int));
        assert(wrapped_rows_view(*rows) =~= before.push(blank_row(index as int)));
    }
}

/// Lines of a snapshot are short enough for their characters to be counted.
pub open spec fn countable(snapshot: SnapshotV) -> bool {
    forall|i: int|
        0 <= i < snapshot.lines.len() ==> (#[trigger] snapshot.lines[i]).text.len() <= usize::MAX
}

/// Lays a snapshot out in rows of `width` columns.
pub fn build_wrapped_snapshot(snapshot: &PaneTextSnapshot, width: usize) -> (r: WrappedSnapshot)
    ensures
        r@ == wrapped(snapshot@, width),
        r@.rows.len() <= usize::MAX,
        countable(snapshot@),
{
    let mut rows: Vec<WrappedRow> = Vec::new();
    let mut line_ranges: Vec<(usize, usize)> = Vec::new();
    let n: usize = snapshot.lines.len();
    let ghost lines = snapshot@.lines;
    proof {
        assert(wrapped_rows_view(rows) =~= Seq::empty());
        assert(line_ranges@ =~= rows_of_lines(lines, 0, width as int));
    }
    let mut i: usize = 0;
    while i < n
        invariant
            n == snapshot.lines@.len(),
            i <= n,
            lines == snapshot@.lines,
            wrapped_rows_view(rows) == lines_rows(lines, i as int, width as int),
            line_ranges@ == rows_of_lines(lines, i as int, width as int),
            forall|k: int| 0 <= k < i ==> (#[trigger] lines[k]).text.len() <= usize::MAX,
        decreases n - i,
    {
        let start: usize = rows.len();
        let ghost before = wrapped_rows_view(rows);
        let chars = text::chars_of(snapshot.lines[i].text.as_str());
        proof {
            assert(lines[i as int].text == chars@);
        }
        let count: usize = chars.len();
        if count == 0 {
            push_blank_row(&mut rows, i);
            proof {
                assert(before.push(blank_row(i as int)) =~= before + seq![blank_row(i as int)]);
            }
        } else {
            build_line_rows(&mut rows, &chars, i, width);
        }
        proof {
            lemma_line_rows_nonempty(chars@, i as int, width as int);
            assert(wrapped_rows_view(rows) == lines_rows(lines, i + 1, width as int));
            assert(rows@.len() == wrapped_rows_view(rows).len());
        }
        let end: usize = rows.len();
        line_ranges.push((start, end));
        proof {
            assert(line_ranges@ =~= rows_of_lines(lines, i + 1, width as int));
        }
        i = i + 1;
    }
    if snapshot.cursor_line == n {
        push_blank_row(&mut rows, n);
    } else if n == 0 {
        push_blank_row(&mut rows, 0);
        line_ranges.push((0, 1));
        proof {
            assert(wrapped_rows_view(rows) =~= seq![blank_row(0)]);
            assert(line_ranges@ =~= seq![(0usize, 1usize)]);
        }
    }
    let total: usize = rows.len();
    let r = WrappedSnapshot { width, rows, line_ranges };
    proof {
        assert(r@.rows =~= wrapped_rows_view(r.rows));
    }
    r
}

} // verus!
