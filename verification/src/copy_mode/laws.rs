//! What holds of copy mode across several operations.

use crate::copy_mode;
use crate::copy_mode::find;
use crate::copy_mode::position;
use crate::copy_mode::words;
use crate::copy_mode::wrap;
use crate::text;
use crate::copy_mode::model::{CopyPoint, CopyStateV, LineV, RowV, SearchMatch, SnapshotV};
use vstd::prelude::*;

verus! {

/// Laying out for another size only lays the rows out anew: the text stays as it was read, with the
/// selection and the search, the rows are those of that text, and the cursor stays at its character
/// and is on screen.
pub proof fn law_resizing_only_rewraps(s: CopyStateV, width: usize, height: int)
    requires
        copy_mode::copy_ok(s),
        wrap::countable(s.snapshot),
        wrap::wrapped(s.snapshot, text::max_int(width as int, 1) as usize).rows.len() <= usize::MAX,
        height <= usize::MAX,
    ensures
        ({
            let r = copy_mode::resized(s, width as int, height);
            &&& r.snapshot == s.snapshot
            &&& r.snapshot_source == s.snapshot_source
            &&& r.wrapped == wrap::wrapped(s.snapshot, text::max_int(width as int, 1) as usize)
            &&& r.anchor == s.anchor
            &&& r.selection_mode == s.selection_mode
            &&& r.search_query == s.search_query
            &&& r.search_matches == s.search_matches
            &&& r.search_idx == s.search_idx
            &&& position::in_snapshot(s.snapshot, s.cursor) ==> r.cursor == s.cursor
            &&& r.scroll_top <= copy_mode::cursor_row(r) < r.scroll_top + text::max_int(height, 1)
        }),
{
}

/// Whether no line takes more than one row.
pub open spec fn nothing_wraps(lines: Seq<LineV>, width: int) -> bool {
    forall|i: int|
        0 <= i < lines.len() ==> wrap::line_rows((#[trigger] lines[i]).text, i, width).len() == 1
}

/// Whether every character takes a column.
pub open spec fn all_wide(lines: Seq<LineV>) -> bool {
    forall|i: int, k: int|
        0 <= i < lines.len() && 0 <= k < lines[i].text.len() ==> text::columns_of(
            #[trigger] lines[i].text[k],
        ) >= 1
}

/// The row that shows a whole line.
spec fn whole_row(text: Seq<char>, index: int) -> RowV {
    RowV { line: index as usize, start_col: 0, end_col: text.len() as usize, text }
}

proof fn lemma_whole_row(text: Seq<char>, index: int, width: int)
    requires
        text.len() <= usize::MAX,
        width <= usize::MAX,
        wrap::line_rows(text, index, width).len() == 1,
    ensures
        wrap::line_rows(text, index, width) == seq![whole_row(text, index)],
        text::columns(text) <= usize::MAX,
{
    let rows = wrap::line_rows(text, index, width);
    if text.len() > 0 {
        wrap::lemma_rows_from_chain(text, index, 0, width);
        assert(rows.last() == rows[0]);
        assert(text.subrange(0, text.len() as int) =~= text);
        wrap::law_rows_fit_the_width(text, index, width, 0);
        if text.len() == 1 {
            reveal_with_fuel(text::columns, 2);
        }
    } else {
        assert(text =~= Seq::empty());
    }
    assert(rows[0] == whole_row(text, index));
    assert(rows =~= seq![whole_row(text, index)]);
}

proof fn lemma_rows_are_lines(lines: Seq<LineV>, n: int, width: int)
    requires
        0 <= n <= lines.len(),
        width <= usize::MAX,
        forall|i: int| 0 <= i < lines.len() ==> (#[trigger] lines[i]).text.len() <= usize::MAX,
        nothing_wraps(lines, width),
    ensures
        wrap::lines_rows(lines, n, width).len() == n,
        forall|i: int|
            0 <= i < n ==> #[trigger] wrap::lines_rows(lines, n, width)[i] == whole_row(
                lines[i].text,
                i,
            ),
    decreases n,
{
    if n > 0 {
        lemma_rows_are_lines(lines, n - 1, width);
        lemma_whole_row(lines[n - 1].text, n - 1, width);
        let before = wrap::lines_rows(lines, n - 1, width);
        assert forall|i: int| 0 <= i < n implies #[trigger] wrap::lines_rows(lines, n, width)[i]
            == whole_row(lines[i].text, i) by {
            if i < n - 1 {
                assert(wrap::lines_rows(lines, n, width)[i] == before[i]);
            }
        }
    }
}

proof fn lemma_fitting_finds(text: Seq<char>, from: int, col: int)
    requires
        0 <= from <= col <= text.len(),
        col < text.len() ==> text::columns_of(text[col]) >= 1,
    ensures
        position::fitting(text, from, text::columns(text.take(col)) as int) == col,
    decreases col - from,
{
    if from < col {
        text::lemma_columns_monotone(text, from + 1, col);
        lemma_fitting_finds(text, from + 1, col);
    } else if col < text.len() {
        text::lemma_columns_take(text, col);
    }
}

proof fn lemma_fitting_bounds(text: Seq<char>, from: int, target: int)
    requires
        0 <= from <= text.len(),
    ensures
        from <= position::fitting(text, from, target) <= text.len(),
    decreases text.len() - from,
{
    if from < text.len() && text::columns(text.take(from + 1)) <= target {
        lemma_fitting_bounds(text, from + 1, target);
    }
}

/// Where a place is shown while no line wraps: on the row of its line, behind what is before it.
proof fn lemma_shown_on_its_line(snapshot: SnapshotV, width: usize, p: CopyPoint)
    requires
        wrap::countable(snapshot),
        snapshot.lines.len() > 0,
        nothing_wraps(snapshot.lines, width as int),
        position::in_snapshot(snapshot, p),
    ensures
        ({
            let w = wrap::wrapped(snapshot, width);
            let line = snapshot.lines[p.line as int].text;
            &&& position::display_position(snapshot, w, p) == (
                p.line,
                text::columns(line.take(p.col as int)) as usize,
            )
            &&& text::columns(line.take(p.col as int)) <= usize::MAX
            &&& snapshot.lines.len() <= w.rows.len()
            &&& w.rows[p.line as int] == whole_row(line, p.line as int)
        }),
{
    let w = wrap::wrapped(snapshot, width);
    let n = snapshot.lines.len() as int;
    let at = p.line as int;
    let line = snapshot.lines[at].text;
    lemma_rows_are_lines(snapshot.lines, n, width as int);
    lemma_rows_are_lines(snapshot.lines, at, width as int);
    lemma_rows_are_lines(snapshot.lines, at + 1, width as int);
    lemma_whole_row(line, at, width as int);
    assert(w.rows[at] == wrap::lines_rows(snapshot.lines, n, width as int)[at]);
    assert(w.line_ranges[at] == (at as usize, (at + 1) as usize));
    text::lemma_columns_monotone(line, p.col as int, line.len() as int);
    assert(line.take(line.len() as int) =~= line);
    assert(text::cut(line, 0, p.col as int) =~= line.take(p.col as int));
}

proof fn lemma_row_put(s: CopyStateV, width: usize, row: int, height: int)
    requires
        wrap::countable(s.snapshot),
        s.snapshot.lines.len() <= usize::MAX,
        s.wrapped == wrap::wrapped(s.snapshot, width),
        nothing_wraps(s.snapshot.lines, width as int),
        0 <= row < s.snapshot.lines.len(),
    ensures
        ({
            let r = copy_mode::row_put(s, row, height);
            let line = s.snapshot.lines[row].text;
            let col = position::fitting(line, 0, s.preferred_column as int);
            &&& 0 <= col <= line.len()
            &&& r.cursor == (CopyPoint { line: row as usize, col: col as usize })
            &&& r.snapshot == s.snapshot
            &&& r.wrapped == s.wrapped
            &&& r.preferred_column == s.preferred_column
        }),
{
    let line = s.snapshot.lines[row].text;
    lemma_fitting_bounds(line, 0, s.preferred_column as int);
    lemma_shown_on_its_line(s.snapshot, width, CopyPoint { line: row as usize, col: 0 });
    assert(text::cut(line, 0, line.len() as int) =~= line);
}

proof fn lemma_stays_laid_out(s: CopyStateV, width: usize, height: int)
    requires
        wrap::countable(s.snapshot),
        s.snapshot.lines.len() <= usize::MAX,
        width >= 1,
        s.wrapped == wrap::wrapped(s.snapshot, width),
        nothing_wraps(s.snapshot.lines, width as int),
        position::in_snapshot(s.snapshot, s.cursor),
    ensures
        ({
            let r = position::relaid(s, width as int, height);
            &&& r.cursor == s.cursor
            &&& r.snapshot == s.snapshot
            &&& r.wrapped == s.wrapped
            &&& r.preferred_column == s.preferred_column
            &&& copy_mode::cursor_row(r) == s.cursor.line
            &&& s.snapshot.lines.len() <= r.wrapped.rows.len()
        }),
{
    lemma_shown_on_its_line(s.snapshot, width, s.cursor);
}

/// While no line wraps and every character takes a column, going a row down and up again comes
/// back to the same character, however short the line between is, and the column to keep to stays
/// the same. On the first line a further step up leaves the cursor where it is.
pub proof fn law_up_undoes_down(s: CopyStateV, width: usize, height: int)
    requires
        copy_mode::copy_ok(s),
        wrap::countable(s.snapshot),
        s.snapshot.lines.len() <= usize::MAX,
        width >= 1,
        s.wrapped == wrap::wrapped(s.snapshot, width),
        nothing_wraps(s.snapshot.lines, width as int),
        all_wide(s.snapshot.lines),
        position::in_snapshot(s.snapshot, s.cursor),
        s.cursor.line + 1 < s.snapshot.lines.len(),
        s.preferred_column == position::display_position(s.snapshot, s.wrapped, s.cursor).1,
    ensures
        ({
            let down = copy_mode::moved_down(s, width as int, height);
            let up = copy_mode::moved_up(down, width as int, height);
            &&& down.cursor.line == s.cursor.line + 1
            &&& down.preferred_column == s.preferred_column
            &&& up.cursor == s.cursor
            &&& up.preferred_column == s.preferred_column
            &&& s.cursor.line == 0 ==> copy_mode::moved_up(up, width as int, height).cursor
                == s.cursor
        }),
{
    let at = s.cursor.line as int;
    let here = s.snapshot.lines[at].text;
    lemma_shown_on_its_line(s.snapshot, width, s.cursor);
    lemma_stays_laid_out(s, width, height);
    lemma_row_put(position::relaid(s, width as int, height), width, at + 1, height);
    let down = copy_mode::moved_down(s, width as int, height);
    lemma_stays_laid_out(down, width, height);
    lemma_row_put(position::relaid(down, width as int, height), width, at, height);
    if s.cursor.col < here.len() {
        assert(text::columns_of(s.snapshot.lines[at].text[s.cursor.col as int]) >= 1);
    }
    lemma_fitting_finds(here, 0, s.cursor.col as int);
    let up = copy_mode::moved_up(down, width as int, height);
    assert(up.cursor == s.cursor);
    lemma_stays_laid_out(up, width, height);
}

/// Where a match begins.
pub open spec fn match_start(m: SearchMatch) -> CopyPoint {
    CopyPoint { line: m.line, col: m.start }
}

/// A search repeated `n` times in its own direction.
#[verifier::opaque]
pub open spec fn steps(s: CopyStateV, n: int, width: int, height: int) -> CopyStateV
    decreases n,
{
    if n <= 0 {
        s
    } else {
        copy_mode::stepped(steps(s, n - 1, width, height), true, width, height)
    }
}

/// The match, out of `count`, that is `k` matches on from another one, around the end.
pub open spec fn match_on(index: int, k: int, count: int, forward: bool) -> int {
    if forward {
        if index + k < count {
            index + k
        } else {
            index + k - count
        }
    } else {
        if index >= k {
            index - k
        } else {
            index - k + count
        }
    }
}

proof fn lemma_matches_in_order(lines: Seq<LineV>, query: Seq<char>, n: int)
    requires
        0 <= n <= lines.len() <= usize::MAX,
        forall|i: int| 0 <= i < lines.len() ==> (#[trigger] lines[i]).text.len() <= usize::MAX,
    ensures
        ({
            let ms = find::matches_in(lines, query, n);
            forall|i: int, j: int|
                #![trigger ms[i], ms[j]]
                0 <= i < j < ms.len() ==> words::before(match_start(ms[i]), match_start(ms[j]))
        }),
    decreases n,
{
    if n > 0 {
        lemma_matches_in_order(lines, query, n - 1);
        find::lemma_matches_on_lines(lines, query, n - 1);
        find::law_line_matches(lines[n - 1].text, n - 1, query, 0);
        let before = find::matches_in(lines, query, n - 1);
        let here = find::line_matches(lines[n - 1].text, n - 1, query, 0);
        let ms = find::matches_in(lines, query, n);
        assert forall|i: int, j: int|
            #![trigger ms[i], ms[j]]
            0 <= i < j < ms.len() implies words::before(match_start(ms[i]), match_start(ms[j])) by {
            if j < before.len() {
                assert(ms[i] == before[i] && ms[j] == before[j]);
            } else {
                assert(ms[j] == here[j - before.len()]);
                if i < before.len() {
                    assert(ms[i] == before[i]);
                } else {
                    assert(ms[i] == here[i - before.len()]);
                }
            }
        }
    }
}

proof fn lemma_steps(s: CopyStateV, k: int, width: int, height: int)
    requires
        0 < s.search_matches.len() <= usize::MAX,
        s.search_idx < s.search_matches.len(),
        s.cursor == match_start(s.search_matches[s.search_idx as int]),
        0 <= k <= s.search_matches.len(),
    ensures
        ({
            let t = steps(s, k, width, height);
            let at = match_on(
                s.search_idx as int,
                k,
                s.search_matches.len() as int,
                s.search_forward,
            );
            &&& t.search_matches == s.search_matches
            &&& t.search_forward == s.search_forward
            &&& 0 <= at < s.search_matches.len()
            &&& t.search_idx == at
            &&& t.cursor == match_start(s.search_matches[at])
        }),
    decreases k,
{
    reveal_with_fuel(steps, 2);
    if k > 0 {
        lemma_steps(s, k - 1, width, height);
        let t = steps(s, k - 1, width, height);
        let count = s.search_matches.len() as int;
        if t.search_idx + 1 < count {
            vstd::arithmetic::div_mod::lemma_small_mod((t.search_idx + 1) as nat, count as nat);
        } else {
            vstd::arithmetic::div_mod::lemma_mod_self_0(count);
        }
    }
}

proof fn lemma_searched(
    before: CopyStateV,
    query: Seq<char>,
    forward: bool,
    width: int,
    height: int,
)
    requires
        0 < find::all_matches(before.snapshot, query).len() <= usize::MAX,
    ensures
        ({
            let s = copy_mode::searched(before, query, forward, width, height);
            let ms = find::all_matches(before.snapshot, query);
            &&& s.search_matches == ms
            &&& s.search_forward == forward
            &&& s.search_idx < ms.len()
            &&& s.cursor == match_start(ms[s.search_idx as int])
        }),
{
    lemma_first_match(find::all_matches(before.snapshot, query), before.cursor, forward);
}

/// A search that found something, repeated as often as there are matches, puts the cursor on the
/// beginning of each match once and comes back to where it began. It goes through the text in its
/// own direction, and on from the other end where it has come to an end of it.
pub proof fn law_search_visits_every_match(
    before: CopyStateV,
    query: Seq<char>,
    forward: bool,
    width: int,
    height: int,
)
    requires
        wrap::countable(before.snapshot),
        before.snapshot.lines.len() <= usize::MAX,
        0 < find::all_matches(before.snapshot, query).len() <= usize::MAX,
    ensures
        ({
            let s = copy_mode::searched(before, query, forward, width, height);
            let ms = find::all_matches(before.snapshot, query);
            let n = ms.len() as int;
            &&& steps(s, n, width, height).cursor == s.cursor
            &&& steps(s, n, width, height).search_idx == s.search_idx
            &&& forall|m: int|
                0 <= m < n ==> exists|k: int|
                    0 <= k < n && (#[trigger] steps(s, k, width, height)).cursor == match_start(
                        #[trigger] ms[m],
                    )
            &&& forall|j: int, k: int|
                #![trigger steps(s, j, width, height), steps(s, k, width, height)]
                0 <= j < k < n ==> steps(s, j, width, height).cursor != steps(
                    s,
                    k,
                    width,
                    height,
                ).cursor
            &&& forall|j: int, k: int|
                #![trigger steps(s, j, width, height), steps(s, k, width, height)]
                0 <= j < n && k == j + 1 ==> {
                    let from = steps(s, j, width, height);
                    let to = steps(s, k, width, height);
                    if forward {
                        words::before(from.cursor, to.cursor) || (from.cursor == match_start(ms[n - 1])
                            && to.cursor == match_start(ms[0]))
                    } else {
                        words::before(to.cursor, from.cursor) || (from.cursor == match_start(ms[0])
                            && to.cursor == match_start(ms[n - 1]))
                    }
                }
        }),
{
    let s = copy_mode::searched(before, query, forward, width, height);
    let ms = find::all_matches(before.snapshot, query);
    let n = ms.len() as int;
    lemma_searched(before, query, forward, width, height);
    lemma_matches_in_order(before.snapshot.lines, query, before.snapshot.lines.len() as int);
    let at = s.search_idx as int;
    lemma_steps(s, n, width, height);
    assert forall|m: int| 0 <= m < n implies exists|k: int|
        0 <= k < n && (#[trigger] steps(s, k, width, height)).cursor == match_start(#[trigger] ms[m]) by {
        let k = if forward {
            if m >= at {
                m - at
            } else {
                m - at + n
            }
        } else {
            if at >= m {
                at - m
            } else {
                at - m + n
            }
        };
        lemma_steps(s, k, width, height);
        assert(steps(s, k, width, height).cursor == match_start(ms[m]));
    }
    assert forall|j: int, k: int|
        #![trigger steps(s, j, width, height), steps(s, k, width, height)]
        0 <= j < k < n implies steps(s, j, width, height).cursor != steps(
        s,
        k,
        width,
        height,
    ).cursor by {
        lemma_steps(s, j, width, height);
        lemma_steps(s, k, width, height);
        let a = match_on(at, j, n, forward);
        let b = match_on(at, k, n, forward);
        assert(a != b);
        assert(ms[a] == ms[a] && ms[b] == ms[b]);
    }
    assert forall|j: int, k: int|
        #![trigger steps(s, j, width, height), steps(s, k, width, height)]
        0 <= j < n && k == j + 1 implies {
        let from = steps(s, j, width, height);
        let to = steps(s, k, width, height);
        if forward {
            words::before(from.cursor, to.cursor) || (from.cursor == match_start(ms[n - 1])
                && to.cursor == match_start(ms[0]))
        } else {
            words::before(to.cursor, from.cursor) || (from.cursor == match_start(ms[0])
                && to.cursor == match_start(ms[n - 1]))
        }
    } by {
        lemma_steps(s, j, width, height);
        lemma_steps(s, k, width, height);
        let a = match_on(at, j, n, forward);
        let b = match_on(at, k, n, forward);
        assert(ms[a] == ms[a] && ms[b] == ms[b]);
    }
}

proof fn lemma_first_match(ms: Seq<SearchMatch>, cursor: CopyPoint, forward: bool)
    requires
        ms.len() > 0,
    ensures
        0 <= find::first_match(ms, cursor, forward) < ms.len(),
{
    lemma_match_forward(ms, cursor, 0);
    lemma_match_backward(ms, cursor, ms.len() as int);
}

proof fn lemma_match_forward(ms: Seq<SearchMatch>, cursor: CopyPoint, from: int)
    requires
        ms.len() > 0,
        0 <= from,
    ensures
        0 <= find::match_forward(ms, cursor, from) < ms.len(),
    decreases ms.len() - from,
{
    if from < ms.len() && !find::match_from(ms[from], cursor) {
        lemma_match_forward(ms, cursor, from + 1);
    }
}

proof fn lemma_match_backward(ms: Seq<SearchMatch>, cursor: CopyPoint, n: int)
    requires
        0 < ms.len(),
        n <= ms.len(),
    ensures
        0 <= find::match_backward(ms, cursor, n) < ms.len(),
    decreases n,
{
    if n > 0 && !find::match_up_to(ms[n - 1], cursor) {
        lemma_match_backward(ms, cursor, n - 1);
    }
}

} // verus!
