//! Where the movements of copy mode lead.

use crate::copy_mode;
use crate::copy_mode::find;
use crate::copy_mode::model;
use crate::copy_mode::position;
use crate::copy_mode::words;
use crate::text;
use crate::copy_mode::model::{CopyPoint, CopyStateV, RowV, SearchMatch, SelectionMode, SnapshotV};
use vstd::prelude::*;

verus! {

/// A place of the text: on one of its lines, at one of its characters or behind the last.
pub open spec fn place(s: SnapshotV, p: CopyPoint) -> bool {
    p.line < s.lines.len() && p.col <= s.lines[p.line as int].text.len()
}

/// Whether one place is read before another.
pub open spec fn sooner(a: CopyPoint, b: CopyPoint) -> bool {
    a.line < b.line || (a.line == b.line && a.col < b.col)
}

/// Whether the text, the selection and the search are as they were.
pub open spec fn rest_kept(s: CopyStateV, r: CopyStateV) -> bool {
    &&& r.snapshot == s.snapshot
    &&& r.snapshot_source == s.snapshot_source
    &&& r.anchor == s.anchor
    &&& r.selection_mode == s.selection_mode
    &&& r.search_query == s.search_query
    &&& r.search_forward == s.search_forward
    &&& r.search_matches == s.search_matches
    &&& r.search_idx == s.search_idx
}

/// A cursor that is put at a place stands there, and nothing but the view changes with it.
pub proof fn law_cursor_goes_where_it_is_put(s: CopyStateV, p: CopyPoint, width: int, height: int)
    requires
        place(s.snapshot, p),
    ensures
        position::cursor_put(s, p, width, height).cursor == p,
        rest_kept(s, position::cursor_put(s, p, width, height)),
{
}

/// One step to the left leads to the last place before the cursor, across the ends of lines; at the
/// first place it leads nowhere.
pub proof fn law_left_is_the_place_before(s: CopyStateV)
    requires
        place(s.snapshot, s.cursor),
        s.snapshot.lines.len() <= usize::MAX,
        forall|l: int|
            0 <= l < s.snapshot.lines.len() ==> (#[trigger] s.snapshot.lines[l]).text.len()
                <= usize::MAX,
    ensures
        place(s.snapshot, copy_mode::left_of(s)),
        s.cursor.line == 0 && s.cursor.col == 0 ==> copy_mode::left_of(s) == s.cursor,
        s.cursor.line > 0 || s.cursor.col > 0 ==> sooner(copy_mode::left_of(s), s.cursor) && forall|q: CopyPoint|
            #[trigger] place(s.snapshot, q) && sooner(q, s.cursor) ==> !sooner(copy_mode::left_of(s), q),
{
}

/// One step to the right leads to the first place behind the cursor, across the ends of lines; at
/// the last place it leads nowhere.
pub proof fn law_right_is_the_place_behind(s: CopyStateV)
    requires
        place(s.snapshot, s.cursor),
        s.snapshot.lines.len() <= usize::MAX,
        forall|l: int|
            0 <= l < s.snapshot.lines.len() ==> (#[trigger] s.snapshot.lines[l]).text.len()
                <= usize::MAX,
    ensures
        place(s.snapshot, copy_mode::right_of(s)),
        (exists|q: CopyPoint| #[trigger] place(s.snapshot, q) && sooner(s.cursor, q)) ==> sooner(
            s.cursor,
            copy_mode::right_of(s),
        ) && forall|q: CopyPoint|
            #[trigger] place(s.snapshot, q) && sooner(s.cursor, q) ==> !sooner(q, copy_mode::right_of(s)),
        !(exists|q: CopyPoint| #[trigger] place(s.snapshot, q) && sooner(s.cursor, q)) ==> copy_mode::right_of(
            s,
        ) == s.cursor,
{
    let p = copy_mode::right_of(s);
    if p != s.cursor {
        assert(place(s.snapshot, p) && sooner(s.cursor, p));
    }
}

/// A step to the left undoes a step to the right.
pub proof fn law_left_undoes_right(s: CopyStateV)
    requires
        place(s.snapshot, s.cursor),
        s.snapshot.lines.len() <= usize::MAX,
        forall|l: int|
            0 <= l < s.snapshot.lines.len() ==> (#[trigger] s.snapshot.lines[l]).text.len()
                <= usize::MAX,
        copy_mode::right_of(s) != s.cursor,
    ensures
        copy_mode::left_of((CopyStateV { cursor: copy_mode::right_of(s), ..s })) == s.cursor,
{
}

/// The top is the first place of the text and shows its first row; the bottom is the last place.
pub proof fn law_top_and_bottom(s: CopyStateV, width: int, height: int)
    requires
        copy_mode::copy_ok(s),
        s.snapshot.lines.len() <= usize::MAX,
        forall|l: int|
            0 <= l < s.snapshot.lines.len() ==> (#[trigger] s.snapshot.lines[l]).text.len()
                <= usize::MAX,
    ensures
        copy_mode::at_top(s, width, height).cursor.line == 0,
        copy_mode::at_top(s, width, height).cursor.col == 0,
        rest_kept(s, copy_mode::at_top(s, width, height)),
        place(s.snapshot, position::end_point(s.snapshot)),
        forall|q: CopyPoint| #[trigger] place(s.snapshot, q) ==> !sooner(position::end_point(s.snapshot), q),
{
}

/// The start of a line is its first column, on the same line.
pub proof fn law_line_start(s: CopyStateV, width: int, height: int)
    requires
        copy_mode::copy_ok(s),
    ensures
        copy_mode::at_line_start(s, width, height).cursor.line == s.cursor.line,
        copy_mode::at_line_start(s, width, height).cursor.col == 0,
        rest_kept(s, copy_mode::at_line_start(s, width, height)),
{
}

/// A selection begins at the cursor and selects the way it was asked to; the cursor stays.
pub proof fn law_selection_begins_at_the_cursor(
    s: CopyStateV,
    mode: SelectionMode,
    width: int,
    height: int,
)
    requires
        place(s.snapshot, s.cursor),
    ensures
        copy_mode::selecting(s, mode, width, height).anchor == Some(s.cursor),
        copy_mode::selecting(s, mode, width, height).selection_mode == mode,
        copy_mode::selecting(s, mode, width, height).cursor == s.cursor,
        copy_mode::selecting(s, mode, width, height).snapshot == s.snapshot,
{
}

pub proof fn lemma_fitting(text: Seq<char>, from: int, target: int)
    requires
        0 <= from <= text.len(),
    ensures
        from <= position::fitting(text, from, target) <= text.len(),
    decreases text.len() - from,
{
    if from < text.len() && text::columns(text.take(from + 1)) <= target {
        lemma_fitting(text, from + 1, target);
    }
}

/// Whether a place is shown on a row.
pub open spec fn on_row(row: RowV, p: CopyPoint) -> bool {
    p.line == row.line && row.start_col <= p.col <= row.end_col
}

/// A step up or down, or a page, puts the cursor on the row that it leads to.
pub proof fn law_row_moves_reach_their_row(s: CopyStateV, row: int, height: int)
    requires
        0 <= row < s.wrapped.rows.len(),
        s.wrapped.rows[row].line < s.snapshot.lines.len(),
        s.wrapped.rows[row].start_col <= s.wrapped.rows[row].end_col,
    ensures
        on_row(s.wrapped.rows[row], copy_mode::row_put(s, row, height).cursor),
        rest_kept(s, copy_mode::row_put(s, row, height)),
        copy_mode::row_put(s, row, height).preferred_column == s.preferred_column,
{
    let r = s.wrapped.rows[row];
    let shown = text::cut(model::line_text(s.snapshot, r.line as int), r.start_col as int, r.end_col as int);
    lemma_fitting(shown, 0, s.preferred_column as int);
}

/// A page is as many rows as the pane shows; it is cut short at the ends of the text.
pub proof fn law_pages_are_as_long_as_the_pane(s: CopyStateV, height: int)
    requires
        height >= 1,
        0 <= copy_mode::cursor_row(s) < s.wrapped.rows.len(),
    ensures
        copy_mode::page_down_row(s, height) == copy_mode::cursor_row(s) + height || (copy_mode::page_down_row(s, height)
            == s.wrapped.rows.len() - 1 && copy_mode::cursor_row(s) + height >= s.wrapped.rows.len()),
        copy_mode::page_up_row(s, height) == copy_mode::cursor_row(s) - height || (copy_mode::page_up_row(s, height) == 0
            && copy_mode::cursor_row(s) < height),
{
}

/// One row down is the next row and one row up the row before; at the ends the cursor stays.
pub proof fn law_up_and_down_go_one_row(s: CopyStateV, width: int, height: int)
    requires
        copy_mode::copy_ok(s),
    ensures
        ({
            let laid = position::relaid(s, width, height);
            let at = copy_mode::cursor_row(laid);
            let rows = laid.wrapped.rows;
            &&& at + 1 < rows.len() && 0 <= at && rows[at + 1].line < s.snapshot.lines.len()
                && rows[at + 1].start_col <= rows[at + 1].end_col ==> on_row(
                rows[at + 1],
                copy_mode::moved_down(s, width, height).cursor,
            )
            &&& 0 < at < rows.len() && rows[at - 1].line < s.snapshot.lines.len() && rows[at
                - 1].start_col <= rows[at - 1].end_col ==> on_row(
                rows[at - 1],
                copy_mode::moved_up(s, width, height).cursor,
            )
            &&& at + 1 >= rows.len() ==> copy_mode::moved_down(s, width, height).cursor == laid.cursor
            &&& at <= 0 ==> copy_mode::moved_up(s, width, height).cursor == laid.cursor
        }),
{
    let laid = position::relaid(s, width, height);
    let at = copy_mode::cursor_row(laid);
    let rows = laid.wrapped.rows;
    if at + 1 < rows.len() && 0 <= at && rows[at + 1].line < s.snapshot.lines.len() && rows[at
        + 1].start_col <= rows[at + 1].end_col {
        law_row_moves_reach_their_row(laid, at + 1, height);
    }
    if 0 < at < rows.len() && rows[at - 1].line < s.snapshot.lines.len() && rows[at - 1].start_col
        <= rows[at - 1].end_col {
        law_row_moves_reach_their_row(laid, at - 1, height);
    }
}

/// The three kinds of characters that words are told apart by: white space, letters and digits with
/// the underscore, and the rest.
pub open spec fn kind(c: char) -> int {
    if text::white_space(c) {
        0
    } else if c == '_' || text::unicode_alphanumeric(c) {
        1
    } else {
        2
    }
}

/// Whether a word begins at a place: a character that is no white space, first on its line or
/// behind one of another kind.
pub open spec fn begins_word(s: SnapshotV, p: CopyPoint) -> bool {
    &&& p.line < s.lines.len()
    &&& p.col < s.lines[p.line as int].text.len()
    &&& kind(s.lines[p.line as int].text[p.col as int]) != 0
    &&& p.col == 0 || kind(s.lines[p.line as int].text[p.col - 1]) != kind(
        s.lines[p.line as int].text[p.col as int],
    )
}

/// Whether a word ends at a place: a character that is no white space, last on its line or before
/// one of another kind.
pub open spec fn ends_word(s: SnapshotV, p: CopyPoint) -> bool {
    &&& p.line < s.lines.len()
    &&& p.col < s.lines[p.line as int].text.len()
    &&& kind(s.lines[p.line as int].text[p.col as int]) != 0
    &&& p.col + 1 == s.lines[p.line as int].text.len() || kind(
        s.lines[p.line as int].text[p.col + 1],
    ) != kind(s.lines[p.line as int].text[p.col as int])
}

proof fn lemma_has_first(pred: spec_fn(CopyPoint) -> bool, x: CopyPoint)
    requires
        pred(x),
    ensures
        exists|p: CopyPoint| words::is_first(pred, p),
    decreases x.line, x.col,
{
    if !words::is_first(pred, x) {
        let y = choose|y: CopyPoint| #[trigger] pred(y) && !words::up_to(x, y);
        lemma_has_first(pred, y);
    }
}

proof fn lemma_has_last(s: SnapshotV, pred: spec_fn(CopyPoint) -> bool, x: CopyPoint)
    requires
        pred(x),
        forall|p: CopyPoint| #[trigger] pred(p) ==> words::on_char(s, p),
    ensures
        exists|p: CopyPoint| words::is_last(pred, p),
    decreases s.lines.len() - x.line, s.lines[x.line as int].text.len() - x.col,
{
    if !words::is_last(pred, x) {
        let y = choose|y: CopyPoint| #[trigger] pred(y) && !words::up_to(y, x);
        assert(words::on_char(s, y) && words::on_char(s, x));
        lemma_has_last(s, pred, y);
    }
}

proof fn lemma_same_words(s: SnapshotV, p: CopyPoint)
    requires
        forall|l: int|
            0 <= l < s.lines.len() ==> (#[trigger] s.lines[l]).text.len() <= usize::MAX,
    ensures
        words::word_begins(s, p) == begins_word(s, p),
        words::word_ends(s, p) == ends_word(s, p),
{
    if p.line < s.lines.len() {
        assert(s.lines[p.line as int].text.len() <= usize::MAX);
    }
}

/// A word forward leads to the nearest beginning of a word behind the cursor, a word backward to
/// the nearest one before it, and a word's end to the nearest end of a word behind it; there is
/// none only where no such place is there.
pub proof fn law_word_moves(s: SnapshotV, cursor: CopyPoint)
    requires
        forall|l: int|
            0 <= l < s.lines.len() ==> (#[trigger] s.lines[l]).text.len() <= usize::MAX,
    ensures
        match words::next_word(s, cursor) {
            Some(p) => begins_word(s, p) && sooner(cursor, p) && forall|q: CopyPoint|
                #[trigger] begins_word(s, q) && sooner(cursor, q) ==> !sooner(q, p),
            None => forall|q: CopyPoint| #[trigger] begins_word(s, q) ==> !sooner(cursor, q),
        },
        match words::prev_word(s, cursor) {
            Some(p) => begins_word(s, p) && sooner(p, cursor) && forall|q: CopyPoint|
                #[trigger] begins_word(s, q) && sooner(q, cursor) ==> !sooner(p, q),
            None => forall|q: CopyPoint| #[trigger] begins_word(s, q) ==> !sooner(q, cursor),
        },
        match words::word_end(s, cursor) {
            Some(p) => ends_word(s, p) && sooner(cursor, p) && forall|q: CopyPoint|
                #[trigger] ends_word(s, q) && sooner(cursor, q) ==> !sooner(q, p),
            None => forall|q: CopyPoint| #[trigger] ends_word(s, q) ==> !sooner(cursor, q),
        },
{
    assert forall|q: CopyPoint| #[trigger] begins_word(s, q) == words::word_begins(s, q) by {
        lemma_same_words(s, q);
    }
    assert forall|q: CopyPoint| #[trigger] ends_word(s, q) == words::word_ends(s, q) by {
        lemma_same_words(s, q);
    }
    let onward = |x: CopyPoint| words::word_begins(s, x) && words::before(cursor, x);
    let backward = |x: CopyPoint| words::word_begins(s, x) && words::before(x, cursor);
    let ends = |x: CopyPoint| words::word_ends(s, x) && words::before(cursor, x);
    assert forall|q: CopyPoint| #[trigger] begins_word(s, q) && sooner(cursor, q) implies exists|
        p: CopyPoint,
    | words::is_first(onward, p) by {
        assert(onward(q));
        lemma_has_first(onward, q);
    }
    assert forall|q: CopyPoint| #[trigger] begins_word(s, q) && sooner(q, cursor) implies exists|
        p: CopyPoint,
    | words::is_last(backward, p) by {
        assert(backward(q));
        lemma_has_last(s, backward, q);
    }
    assert forall|q: CopyPoint| #[trigger] ends_word(s, q) && sooner(cursor, q) implies exists|
        p: CopyPoint,
    | words::is_first(ends, p) by {
        assert(ends(q));
        lemma_has_first(ends, q);
    }
    if let Some(p) = words::next_word(s, cursor) {
        assert(words::is_first(onward, p));
        assert(begins_word(s, p));
        assert forall|q: CopyPoint| #[trigger] begins_word(s, q) && sooner(cursor, q) implies !sooner(
            q,
            p,
        ) by {
            assert(onward(q));
        }
    }
    if let Some(p) = words::prev_word(s, cursor) {
        assert(words::is_last(backward, p));
        assert(begins_word(s, p));
        assert forall|q: CopyPoint| #[trigger] begins_word(s, q) && sooner(q, cursor) implies !sooner(
            p,
            q,
        ) by {
            assert(backward(q));
        }
    }
    if let Some(p) = words::word_end(s, cursor) {
        assert(words::is_first(ends, p));
        assert(ends_word(s, p));
        assert forall|q: CopyPoint| #[trigger] ends_word(s, q) && sooner(cursor, q) implies !sooner(
            q,
            p,
        ) by {
            assert(ends(q));
        }
    }
}

/// Whether the text reads a query from a place on.
pub open spec fn reads(s: SnapshotV, p: CopyPoint, query: Seq<char>) -> bool {
    &&& p.line < s.lines.len()
    &&& p.col + query.len() <= s.lines[p.line as int].text.len()
    &&& s.lines[p.line as int].text.subrange(p.col as int, p.col + query.len()) == query
}

/// Where a match begins.
pub open spec fn start_of(m: SearchMatch) -> CopyPoint {
    CopyPoint { line: m.line, col: m.start }
}

proof fn lemma_matches_read(s: SnapshotV, query: Seq<char>, n: int)
    requires
        0 <= n <= s.lines.len() <= usize::MAX,
        forall|l: int|
            0 <= l < s.lines.len() ==> (#[trigger] s.lines[l]).text.len() <= usize::MAX,
    ensures
        forall|i: int|
            0 <= i < find::matches_in(s.lines, query, n).len() ==> reads(
                s,
                start_of(#[trigger] find::matches_in(s.lines, query, n)[i]),
                query,
            ) && find::matches_in(s.lines, query, n)[i].end == find::matches_in(s.lines, query, n)[i].start
                + query.len(),
    decreases n,
{
    if n > 0 {
        lemma_matches_read(s, query, n - 1);
        let before = find::matches_in(s.lines, query, n - 1);
        let here = find::line_matches(s.lines[n - 1].text, n - 1, query, 0);
        let all = find::matches_in(s.lines, query, n);
        find::law_line_matches(s.lines[n - 1].text, n - 1, query, 0);
        assert forall|i: int| 0 <= i < all.len() implies reads(
            s,
            start_of(#[trigger] all[i]),
            query,
        ) && all[i].end == all[i].start + query.len() by {
            if i < before.len() {
                assert(all[i] == before[i]);
            } else {
                assert(all[i] == here[i - before.len()]);
            }
        }
    }
}

proof fn lemma_forward(matches: Seq<SearchMatch>, cursor: CopyPoint, from: int)
    requires
        0 <= from,
        matches.len() > 0,
    ensures
        ({
            let i = find::match_forward(matches, cursor, from);
            &&& 0 <= i < matches.len()
            &&& forall|j: int|
                from <= j < i ==> sooner(start_of(#[trigger] matches[j]), cursor)
            &&& i >= from && from < matches.len() && !sooner(start_of(matches[i]), cursor) || (i
                == 0 && forall|j: int|
                from <= j < matches.len() ==> sooner(start_of(#[trigger] matches[j]), cursor))
        }),
    decreases matches.len() - from,
{
    if from < matches.len() && !find::match_from(matches[from], cursor) {
        lemma_forward(matches, cursor, from + 1);
    }
}

proof fn lemma_backward(matches: Seq<SearchMatch>, cursor: CopyPoint, n: int)
    requires
        0 <= n <= matches.len(),
        matches.len() > 0,
    ensures
        ({
            let i = find::match_backward(matches, cursor, n);
            &&& 0 <= i < matches.len()
            &&& forall|j: int| i < j < n ==> sooner(cursor, start_of(#[trigger] matches[j]))
            &&& i < n && !sooner(cursor, start_of(matches[i])) || (i == matches.len() - 1
                && forall|j: int|
                0 <= j < n ==> sooner(cursor, start_of(#[trigger] matches[j])))
        }),
    decreases n,
{
    if n > 0 && !find::match_up_to(matches[n - 1], cursor) {
        lemma_backward(matches, cursor, n - 1);
    }
}

/// A search puts the cursor where the text reads what was searched for. Onwards that is the first
/// match that is not before the cursor, backwards the last one that is not behind it; where there
/// is none in that direction, it begins at the other end. Without a match the cursor stays.
pub proof fn law_search_lands_on_the_text(
    s: CopyStateV,
    query: Seq<char>,
    forward: bool,
    width: int,
    height: int,
)
    requires
        s.snapshot.lines.len() <= usize::MAX,
        forall|l: int|
            0 <= l < s.snapshot.lines.len() ==> (#[trigger] s.snapshot.lines[l]).text.len()
                <= usize::MAX,
        find::all_matches(s.snapshot, query).len() <= usize::MAX,
    ensures
        ({
            let r = copy_mode::searched(s, query, forward, width, height);
            let ms = find::all_matches(s.snapshot, query);
            let at = r.search_idx as int;
            &&& r.snapshot == s.snapshot
            &&& r.anchor == s.anchor
            &&& ms.len() == 0 ==> r.cursor == s.cursor
            &&& ms.len() > 0 ==> {
                &&& 0 <= at < ms.len()
                &&& r.cursor == start_of(ms[at])
                &&& reads(s.snapshot, r.cursor, query)
                &&& forward ==> forall|j: int|
                    0 <= j < at ==> sooner(start_of(#[trigger] ms[j]), s.cursor)
                &&& forward && sooner(r.cursor, s.cursor) ==> at == 0 && forall|j: int|
                    0 <= j < ms.len() ==> sooner(start_of(#[trigger] ms[j]), s.cursor)
                &&& !forward ==> forall|j: int|
                    at < j < ms.len() ==> sooner(s.cursor, start_of(#[trigger] ms[j]))
                &&& !forward && sooner(s.cursor, r.cursor) ==> at == ms.len() - 1 && forall|j: int|
                    0 <= j < ms.len() ==> sooner(s.cursor, start_of(#[trigger] ms[j]))
            }
        }),
{
    let ms = find::all_matches(s.snapshot, query);
    lemma_matches_read(s.snapshot, query, s.snapshot.lines.len() as int);
    if ms.len() > 0 {
        lemma_forward(ms, s.cursor, 0);
        lemma_backward(ms, s.cursor, ms.len() as int);
        let r = copy_mode::searched(s, query, forward, width, height);
        assert(reads(s.snapshot, start_of(ms[r.search_idx as int]), query));
    }
}

} // verus!
