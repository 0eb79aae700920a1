//! What a selection yanks, line by line.

use crate::copy_mode::model;
use crate::copy_mode::yank;
use crate::text;
use crate::copy_mode::model::{CopyPoint, CopyStateV, SelectionMode, SnapshotV};
use vstd::prelude::*;

verus! {

/// The pieces between the line breaks of a text; a text without a line break is one piece.
pub open spec fn pieces(text: Seq<char>) -> Seq<Seq<char>>
    decreases text.len(),
{
    if text.len() == 0 {
        seq![Seq::<char>::empty()]
    } else {
        let before = pieces(text.drop_last());
        if text.last() == '\n' {
            before.push(Seq::<char>::empty())
        } else {
            before.drop_last().push(before.last().push(text.last()))
        }
    }
}

/// Whether a text holds no line break.
pub open spec fn one_line(text: Seq<char>) -> bool {
    forall|i: int| 0 <= i < text.len() ==> #[trigger] text[i] != '\n'
}

proof fn lemma_one_piece(text: Seq<char>)
    requires
        one_line(text),
    ensures
        pieces(text) == seq![text],
    decreases text.len(),
{
    if text.len() == 0 {
        assert(text =~= Seq::empty());
    } else {
        lemma_one_piece(text.drop_last());
        assert(text.drop_last().push(text.last()) =~= text);
        assert(pieces(text) =~= seq![text]);
    }
}

proof fn lemma_first_piece(first: Seq<char>, rest: Seq<char>)
    requires
        one_line(first),
    ensures
        pieces(first + seq!['\n'] + rest) == seq![first] + pieces(rest),
        pieces(rest).len() > 0,
    decreases rest.len(),
{
    let whole = first + seq!['\n'] + rest;
    if rest.len() == 0 {
        lemma_one_piece(first);
        assert(whole.drop_last() =~= first);
        assert(rest =~= Seq::empty());
        assert(pieces(whole) =~= seq![first] + pieces(rest));
    } else {
        lemma_first_piece(first, rest.drop_last());
        assert(whole.drop_last() =~= first + seq!['\n'] + rest.drop_last());
        assert(whole.last() == rest.last());
        assert(pieces(whole) =~= seq![first] + pieces(rest));
    }
}

/// The part of a line between two columns; columns behind the line's end count as its end.
pub open spec fn part(text: Seq<char>, from: int, to: int) -> Seq<char> {
    let end = if to <= text.len() {
        to
    } else {
        text.len() as int
    };
    if from < end {
        text.subrange(from, end)
    } else {
        Seq::empty()
    }
}

proof fn lemma_parts(
    s: SnapshotV,
    line: int,
    last: int,
    from: spec_fn(int) -> int,
    to: spec_fn(int) -> int,
)
    requires
        0 <= line <= last < s.lines.len(),
        forall|l: int| line <= l <= last ==> one_line((#[trigger] s.lines[l]).text),
        forall|l: int| line <= l <= last ==> 0 <= #[trigger] from(l),
    ensures
        pieces(yank::lines_cut(s, line, last, from, to)).len() == last - line + 1,
        forall|k: int|
            0 <= k <= last - line ==> #[trigger] pieces(yank::lines_cut(s, line, last, from, to))[k] == part(
                s.lines[line + k].text,
                from(line + k),
                to(line + k),
            ),
    decreases last - line,
{
    let whole = yank::lines_cut(s, line, last, from, to);
    let first = part(s.lines[line].text, from(line), to(line));
    assert(one_line(s.lines[line].text));
    assert(0 <= from(line));
    assert(one_line(first));
    assert(text::cut(model::line_text(s, line), from(line), to(line)) =~= first);
    let rest = yank::lines_cut(s, line + 1, last, from, to);
    if line == last {
        assert(whole =~= first);
        lemma_one_piece(first);
    } else {
        lemma_parts(s, line + 1, last, from, to);
        assert(whole =~= first + seq!['\n'] + rest);
        lemma_first_piece(first, rest);
        assert forall|k: int| 0 <= k <= last - line implies #[trigger] pieces(whole)[k] == part(
            s.lines[line + k].text,
            from(line + k),
            to(line + k),
        ) by {
            if k > 0 {
                assert(pieces(whole)[k] == pieces(rest)[k - 1]);
            }
        }
    }
}

/// A line selection yanks the whole text of every line from the first of its two lines up to and
/// with the last, with one line break between two of them: as many pieces as lines, and each the
/// text of its line.
pub proof fn law_line_selection_yanks_its_lines(s: SnapshotV, a: int, b: int)
    requires
        0 <= a < s.lines.len(),
        0 <= b < s.lines.len(),
        forall|l: int| 0 <= l < s.lines.len() ==> one_line((#[trigger] s.lines[l]).text),
    ensures
        ({
            let first = if a <= b {
                a
            } else {
                b
            };
            let last = if a <= b {
                b
            } else {
                a
            };
            &&& pieces(yank::lines_between(s, a, b)).len() == last - first + 1
            &&& forall|k: int|
                0 <= k <= last - first ==> #[trigger] pieces(yank::lines_between(s, a, b))[k]
                    == s.lines[first + k].text
        }),
{
    let first = if a <= b {
        a
    } else {
        b
    };
    let last = if a <= b {
        b
    } else {
        a
    };
    let from = |l: int| 0int;
    let to = |l: int| model::line_len(s, l) as int;
    lemma_parts(s, first, last, from, to);
    let yanked = yank::lines_between(s, a, b);
    assert(yanked == yank::lines_cut(s, first, last, from, to));
    assert forall|k: int| 0 <= k <= last - first implies #[trigger] pieces(yanked)[k] == s.lines[first
        + k].text by {
        let text = s.lines[first + k].text;
        assert(pieces(yanked)[k] == part(text, from(first + k), to(first + k)));
        assert(part(text, 0, text.len() as int) =~= text);
    }
}

/// Whether a place is before another or the same, line by line and column by column.
pub open spec fn in_order(a: CopyPoint, b: CopyPoint) -> bool {
    a.line < b.line || (a.line == b.line && a.col <= b.col)
}

/// A selection by characters yanks what stands between its two places, whichever of them comes
/// first: on one line the characters from the first up to the second, on several the end of the
/// first line, the whole lines between and the beginning of the last.
pub proof fn law_char_selection_yanks_what_is_between(s: SnapshotV, a: CopyPoint, b: CopyPoint)
    requires
        a.line < s.lines.len(),
        b.line < s.lines.len(),
        forall|l: int| 0 <= l < s.lines.len() ==> one_line((#[trigger] s.lines[l]).text),
    ensures
        ({
            let first = if in_order(a, b) {
                a
            } else {
                b
            };
            let last = if in_order(a, b) {
                b
            } else {
                a
            };
            let yanked = pieces(yank::text_between(s, a, b));
            &&& yanked.len() == last.line - first.line + 1
            &&& first.line == last.line ==> yanked[0] == part(
                s.lines[first.line as int].text,
                first.col as int,
                last.col as int,
            )
            &&& first.line < last.line ==> yanked[0] == part(
                s.lines[first.line as int].text,
                first.col as int,
                s.lines[first.line as int].text.len() as int,
            )
            &&& first.line < last.line ==> yanked.last() == part(
                s.lines[last.line as int].text,
                0,
                last.col as int,
            )
            &&& forall|k: int|
                0 < k < last.line - first.line ==> #[trigger] yanked[k] == s.lines[first.line
                    + k].text
        }),
{
    let first = if in_order(a, b) {
        a
    } else {
        b
    };
    let last = if in_order(a, b) {
        b
    } else {
        a
    };
    assert(first == yank::earlier(a, b));
    assert(last == yank::later(a, b));
    let from = |l: int|
        if l == first.line {
            first.col as int
        } else {
            0
        };
    let to = |l: int|
        if l == last.line {
            last.col as int
        } else {
            model::line_len(s, l) as int
        };
    lemma_parts(s, first.line as int, last.line as int, from, to);
    let text = yank::text_between(s, a, b);
    assert(text == yank::lines_cut(s, first.line as int, last.line as int, from, to));
    let yanked = pieces(text);
    let n = last.line - first.line;
    assert(yanked[0] == part(s.lines[first.line + 0].text, from(first.line + 0), to(first.line + 0)));
    assert(yanked[n] == part(s.lines[first.line + n].text, from(first.line + n), to(first.line + n)));
    assert forall|k: int| 0 < k < last.line - first.line implies #[trigger] yanked[k]
        == s.lines[first.line + k].text by {
        let line = s.lines[first.line + k].text;
        assert(yanked[k] == part(line, from(first.line + k), to(first.line + k)));
        assert(part(line, 0, line.len() as int) =~= line);
    }
}

/// A block selection yanks of every line from the first of its two lines up to and with the last
/// the characters from the left of its two columns up to the right one.
pub proof fn law_block_selection_yanks_its_columns(s: SnapshotV, a: CopyPoint, b: CopyPoint)
    requires
        a.line < s.lines.len(),
        b.line < s.lines.len(),
        forall|l: int| 0 <= l < s.lines.len() ==> one_line((#[trigger] s.lines[l]).text),
    ensures
        ({
            let first: int = if a.line <= b.line {
                a.line as int
            } else {
                b.line as int
            };
            let last: int = if a.line <= b.line {
                b.line as int
            } else {
                a.line as int
            };
            let left: int = if a.col <= b.col {
                a.col as int
            } else {
                b.col as int
            };
            let right: int = if a.col <= b.col {
                b.col as int
            } else {
                a.col as int
            };
            let yanked = pieces(yank::block_between(s, a, b));
            &&& yanked.len() == last - first + 1
            &&& forall|k: int|
                0 <= k <= last - first ==> #[trigger] yanked[k] == part(
                    s.lines[first + k].text,
                    left,
                    right,
                )
        }),
{
    let first: int = if a.line <= b.line {
        a.line as int
    } else {
        b.line as int
    };
    let last: int = if a.line <= b.line {
        b.line as int
    } else {
        a.line as int
    };
    let left: int = if a.col <= b.col {
        a.col as int
    } else {
        b.col as int
    };
    let right: int = if a.col <= b.col {
        b.col as int
    } else {
        a.col as int
    };
    let from = |l: int| left;
    let to = |l: int| right;
    lemma_parts(s, first, last, from, to);
    let text = yank::block_between(s, a, b);
    assert(text == yank::lines_cut(s, first, last, from, to));
    let yanked = pieces(text);
    assert forall|k: int| 0 <= k <= last - first implies #[trigger] yanked[k] == part(
        s.lines[first + k].text,
        left,
        right,
    ) by {
        assert(yanked[k] == part(s.lines[first + k].text, from(first + k), to(first + k)));
    }
}

/// What is yanked is what the selection of the state covers, by the state's own way of selecting:
/// nothing without a selection, whole lines, a block of columns, or everything between its ends.
pub proof fn law_selecting_decides_what_is_yanked(s: CopyStateV)
    ensures
        s.anchor is None ==> yank::selected_text(s).len() == 0,
        s.anchor matches Some(a) ==> {
            &&& s.selection_mode == SelectionMode::Line ==> yank::selected_text(s) == yank::lines_between(
                s.snapshot,
                a.line as int,
                s.cursor.line as int,
            )
            &&& s.selection_mode == SelectionMode::Rect ==> yank::selected_text(s) == yank::block_between(
                s.snapshot,
                a,
                s.cursor,
            )
            &&& s.selection_mode == SelectionMode::Char ==> yank::selected_text(s) == (if a == s.cursor {
                Seq::empty()
            } else {
                yank::text_between(s.snapshot, a, s.cursor)
            })
        },
{
}

} // verus!
