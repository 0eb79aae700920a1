//! How the rows of a screen become lines of text.

use crate::copy_mode::motion_laws;
use crate::copy_mode::position;
use crate::copy_mode::snapshot;
use crate::copy_mode::model::{CopySnapshotSource, LineV, SnapshotV};
use vstd::prelude::*;

verus! {

/// The texts of the first rows, one behind the other.
pub open spec fn rows_whole(rows: Seq<(Seq<char>, bool)>, n: int) -> Seq<char>
    decreases n,
{
    if n <= 0 {
        Seq::empty()
    } else {
        rows_whole(rows, n - 1) + rows[n - 1].0
    }
}

/// The texts of lines, one behind the other.
pub open spec fn lines_whole(lines: Seq<LineV>) -> Seq<char>
    decreases lines.len(),
{
    if lines.len() == 0 {
        Seq::empty()
    } else {
        lines_whole(lines.drop_last()) + lines.last().text
    }
}

/// The number of rows among the first that do not run on.
pub open spec fn rows_ended(rows: Seq<(Seq<char>, bool)>, n: int) -> nat
    decreases n,
{
    if n <= 0 {
        0
    } else if rows[n - 1].1 {
        rows_ended(rows, n - 1)
    } else {
        rows_ended(rows, n - 1) + 1
    }
}

proof fn lemma_joined(rows: Seq<(Seq<char>, bool)>, n: int, row: int, col: int)
    requires
        0 <= n <= rows.len(),
    ensures
        ({
            let j = snapshot::joining(rows, n, row, col);
            &&& lines_whole(j.lines) + j.open_line == rows_whole(rows, n)
            &&& j.lines.len() == rows_ended(rows, n)
            &&& n > 0 && !rows[n - 1].1 ==> j.open_line.len() == 0
        }),
    decreases n,
{
    if n > 0 {
        lemma_joined(rows, n - 1, row, col);
        let before = snapshot::joining(rows, n - 1, row, col);
        let j = snapshot::joining(rows, n, row, col);
        if !rows[n - 1].1 {
            assert(j.lines.drop_last() =~= before.lines);
            assert(lines_whole(before.lines) + (before.open_line + rows[n - 1].0) =~= lines_whole(
                before.lines,
            ) + before.open_line + rows[n - 1].0);
            assert(lines_whole(j.lines) + j.open_line =~= lines_whole(j.lines));
        } else {
            assert(lines_whole(j.lines) + j.open_line =~= lines_whole(before.lines)
                + before.open_line + rows[n - 1].0);
        }
    } else {
        assert(lines_whole(Seq::<LineV>::empty()) =~= Seq::empty());
        assert(Seq::<char>::empty() + Seq::<char>::empty() =~= Seq::<char>::empty());
    }
}

proof fn lemma_lines_stay(rows: Seq<(Seq<char>, bool)>, m: int, n: int, row: int, col: int)
    requires
        0 <= m <= n <= rows.len(),
    ensures
        ({
            let a = snapshot::joining(rows, m, row, col).lines;
            let b = snapshot::joining(rows, n, row, col).lines;
            a.len() <= b.len() && b.take(a.len() as int) == a
        }),
    decreases n,
{
    let a = snapshot::joining(rows, m, row, col).lines;
    let b = snapshot::joining(rows, n, row, col).lines;
    if m == n {
        assert(b.take(a.len() as int) =~= a);
    } else {
        lemma_lines_stay(rows, m, n - 1, row, col);
        let c = snapshot::joining(rows, n - 1, row, col).lines;
        assert(b.take(a.len() as int) =~= c.take(a.len() as int));
    }
}

/// No character of the rows is lost, added or moved: the lines read as the rows do.
pub proof fn law_lines_read_as_the_rows(rows: Seq<(Seq<char>, bool)>, row: int, col: int)
    ensures
        lines_whole(snapshot::lines_of_rows(rows, row, col).lines) == rows_whole(rows, rows.len() as int),
{
    let n = rows.len() as int;
    lemma_joined(rows, n, row, col);
    let j = snapshot::joining(rows, n, row, col);
    let lines = snapshot::lines_of_rows(rows, row, col).lines;
    if j.open_line.len() > 0 || j.lines.len() == 0 {
        assert(lines.drop_last() =~= j.lines);
    } else {
        assert(lines_whole(j.lines) + j.open_line =~= lines_whole(j.lines));
    }
}

/// A line ends exactly where a row does not run on: as many lines as rows ended up to such a row
/// hold just the text up to the end of that row.
pub proof fn law_lines_end_where_rows_do(
    rows: Seq<(Seq<char>, bool)>,
    row: int,
    col: int,
    i: int,
)
    requires
        0 <= i < rows.len(),
        !rows[i].1,
    ensures
        ({
            let lines = snapshot::lines_of_rows(rows, row, col).lines;
            let k = rows_ended(rows, i);
            &&& k < lines.len()
            &&& lines_whole(lines.take(k + 1int)) == rows_whole(rows, i + 1)
        }),
{
    let n = rows.len() as int;
    lemma_joined(rows, i + 1, row, col);
    lemma_lines_stay(rows, i + 1, n, row, col);
    let a = snapshot::joining(rows, i + 1, row, col);
    let lines = snapshot::lines_of_rows(rows, row, col).lines;
    assert(lines.take(a.lines.len() as int) =~= a.lines);
    assert(lines_whole(a.lines) + a.open_line =~= lines_whole(a.lines));
}

/// There is a line for every row that does not run on, and one more for a text that is still under
/// way or where there is no row at all.
pub proof fn law_number_of_lines(rows: Seq<(Seq<char>, bool)>, row: int, col: int)
    ensures
        ({
            let n = snapshot::lines_of_rows(rows, row, col).lines.len();
            let ended = rows_ended(rows, rows.len() as int);
            n == ended || n == ended + 1
        }),
        rows.len() > 0 && !rows.last().1 ==> snapshot::lines_of_rows(rows, row, col).lines.len()
            == rows_ended(rows, rows.len() as int),
        rows.len() == 0 ==> snapshot::lines_of_rows(rows, row, col).lines.len() == 1,
{
    lemma_joined(rows, rows.len() as int, row, col);
}

proof fn lemma_cursor(rows: Seq<(Seq<char>, bool)>, n: int, row: int, col: int)
    requires
        0 <= row < n <= rows.len(),
    ensures
        snapshot::joining(rows, n, row, col).cursor == snapshot::joining(rows, row + 1, row, col).cursor,
    decreases n,
{
    if n > row + 1 {
        lemma_cursor(rows, n - 1, row, col);
    }
}

/// The cursor stays on its character: behind as many characters of the text as stand before it on
/// the screen, in the rows above and in its own row.
pub proof fn law_cursor_stays_on_its_character(
    rows: Seq<(Seq<char>, bool)>,
    row: int,
    col: int,
)
    requires
        0 <= row < rows.len() <= usize::MAX,
        rows_whole(rows, rows.len() as int).len() <= usize::MAX,
        0 <= col,
    ensures
        ({
            let s = snapshot::lines_of_rows(rows, row, col);
            &&& s.cursor_line == rows_ended(rows, row)
            &&& lines_whole(s.lines.take(s.cursor_line as int)).len() + s.cursor_col == rows_whole(
                rows,
                row,
            ).len() + position::fitting(rows[row].0, 0, col)
        }),
{
    let n = rows.len() as int;
    lemma_cursor(rows, n, row, col);
    lemma_joined(rows, row, row, col);
    lemma_lines_stay(rows, row, n, row, col);
    lemma_ended(rows, row);
    let j = snapshot::joining(rows, row, row, col);
    let s = snapshot::lines_of_rows(rows, row, col);
    motion_laws::lemma_fitting(rows[row].0, 0, col);
    lemma_whole_grows(rows, row + 1, n);
    assert(rows_whole(rows, row + 1).len() == rows_whole(rows, row).len() + rows[row].0.len());
    assert((lines_whole(j.lines) + j.open_line).len() == rows_whole(rows, row).len());
    assert(s.lines.take(j.lines.len() as int) =~= j.lines);
}

proof fn lemma_ended(rows: Seq<(Seq<char>, bool)>, n: int)
    requires
        0 <= n,
    ensures
        rows_ended(rows, n) <= n,
    decreases n,
{
    if n > 0 {
        lemma_ended(rows, n - 1);
    }
}

proof fn lemma_whole_grows(rows: Seq<(Seq<char>, bool)>, m: int, n: int)
    requires
        0 <= m <= n,
    ensures
        rows_whole(rows, m).len() <= rows_whole(rows, n).len(),
    decreases n,
{
    if m < n {
        lemma_whole_grows(rows, m, n - 1);
    }
}

/// What is taken from the end of a row is blanks only, and no more of them than there are columns
/// to spare; where the row still ends with a blank, there were no more.
pub proof fn law_only_blanks_are_taken(s: Seq<char>, columns: nat, width: nat)
    ensures
        ({
            let t = snapshot::unpadded(s, columns, width);
            &&& t.len() <= s.len()
            &&& t == s.take(t.len() as int)
            &&& forall|k: int| t.len() <= k < s.len() ==> #[trigger] s[k] == ' '
            &&& s.len() - t.len() <= if columns > width {
                columns - width
            } else {
                0
            }
            &&& t.len() > 0 && t.last() == ' ' ==> columns <= width + (s.len() - t.len())
        }),
    decreases s.len(),
{
    if s.len() > 0 && s.last() == ' ' && columns > width {
        law_only_blanks_are_taken(s.drop_last(), (columns - 1) as nat, width);
        let t = snapshot::unpadded(s, columns, width);
        assert(s.drop_last().take(t.len() as int) =~= s.take(t.len() as int));
        assert forall|k: int| t.len() <= k < s.len() implies #[trigger] s[k] == ' ' by {
            if k < s.len() - 1 {
                assert(s.drop_last()[k] == s[k]);
            }
        }
    } else {
        assert(s.take(s.len() as int) =~= s);
    }
}

/// Only empty rows behind the cursor's row are left out, and all of them at the end are.
pub proof fn law_only_empty_rows_are_left_out(rows: Seq<(Seq<char>, bool)>, row: int)
    ensures
        ({
            let kept = snapshot::without_blank_tail(rows, row);
            &&& kept.len() <= rows.len()
            &&& kept == rows.take(kept.len() as int)
            &&& forall|k: int|
                kept.len() <= k < rows.len() ==> (#[trigger] rows[k]).0.len() == 0 && !rows[k].1
                    && k > row
            &&& kept.len() > 0 && kept.len() - 1 > row ==> kept.last().0.len() > 0 || kept.last().1
        }),
    decreases rows.len(),
{
    if rows.len() > 0 && rows.len() > row + 1 && !rows.last().1 && rows.last().0.len() == 0 {
        law_only_empty_rows_are_left_out(rows.drop_last(), row);
        let kept = snapshot::without_blank_tail(rows, row);
        assert(rows.drop_last().take(kept.len() as int) =~= rows.take(kept.len() as int));
        assert forall|k: int| kept.len() <= k < rows.len() implies (#[trigger] rows[k]).0.len() == 0
            && !rows[k].1 && k > row by {
            if k < rows.len() - 1 {
                assert(rows.drop_last()[k] == rows[k]);
            }
        }
    } else {
        assert(rows.take(rows.len() as int) =~= rows);
    }
}

/// Copy mode begins on what the terminal shows, and on the kept text only where the terminal has
/// nothing to show.
pub proof fn law_terminal_comes_first(shown: SnapshotV, kept: Option<SnapshotV>)
    ensures
        snapshot::chosen_snapshot(kept, Some(shown)) == Some((CopySnapshotSource::Parser, shown)),
        kept matches Some(k) ==> snapshot::chosen_snapshot(kept, None) == Some(
            (CopySnapshotSource::Buffer, k),
        ),
        kept is None ==> snapshot::chosen_snapshot(kept, None) is None,
{
}

} // verus!
