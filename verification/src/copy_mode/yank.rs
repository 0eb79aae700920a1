//! The text of a selection.

use crate::copy_mode::model;
use crate::copy_mode::position;
use crate::copy_mode::words;
use crate::copy_mode::yank_laws;
use crate::text;
use crate::copy_mode::model::{CopyModeState, CopyPoint, CopyStateV, PaneTextSnapshot, SelectionMode, SnapshotLine, SnapshotV};
use vstd::prelude::*;

verus! {

/// The earlier of two places.
pub open spec fn earlier(a: CopyPoint, b: CopyPoint) -> CopyPoint {
    if words::up_to(a, b) {
        a
    } else {
        b
    }
}

/// The later of two places.
pub open spec fn later(a: CopyPoint, b: CopyPoint) -> CopyPoint {
    if words::up_to(a, b) {
        b
    } else {
        a
    }
}

/// The lines `line..=last`, each from column `from` up to column `to`, with a line break between
/// two of them.
pub open spec fn lines_cut(
    s: SnapshotV,
    line: int,
    last: int,
    from: spec_fn(int) -> int,
    to: spec_fn(int) -> int,
) -> Seq<char>
    decreases last - line + 1,
{
    if line > last {
        Seq::empty()
    } else {
        text::cut(model::line_text(s, line), from(line), to(line)) + (if line < last {
            seq!['\n']
        } else {
            Seq::empty()
        }) + lines_cut(s, line + 1, last, from, to)
    }
}

/// Everything between two places, line breaks included.
pub open spec fn text_between(s: SnapshotV, a: CopyPoint, b: CopyPoint) -> Seq<char> {
    let start = earlier(a, b);
    let end = later(a, b);
    lines_cut(
        s,
        start.line as int,
        end.line as int,
        |l: int|
            if l == start.line {
                start.col as int
            } else {
                0
            },
        |l: int|
            if l == end.line {
                end.col as int
            } else {
                model::line_len(s, l) as int
            },
    )
}

/// The lines between two lines, whole.
pub open spec fn lines_between(s: SnapshotV, a: int, b: int) -> Seq<char> {
    lines_cut(s, text::min_int(a, b), text::max_int(a, b), |l: int| 0int, |l: int| model::line_len(s, l) as int)
}

/// The columns between two places on every line between them.
pub open spec fn block_between(s: SnapshotV, a: CopyPoint, b: CopyPoint) -> Seq<char> {
    let left = text::min_int(a.col as int, b.col as int);
    let right = text::max_int(a.col as int, b.col as int);
    lines_cut(
        s,
        text::min_int(a.line as int, b.line as int),
        text::max_int(a.line as int, b.line as int),
        |l: int| left,
        |l: int| right,
    )
}

/// The text that the selection of a state covers.
pub open spec fn selected_text(s: CopyStateV) -> Seq<char> {
    match s.anchor {
        None => Seq::empty(),
        Some(anchor) => match s.selection_mode {
            SelectionMode::Char => if anchor == s.cursor {
                Seq::empty()
            } else {
                text_between(s.snapshot, anchor, s.cursor)
            },
            SelectionMode::Line => lines_between(
                s.snapshot,
                anchor.line as int,
                s.cursor.line as int,
            ),
            SelectionMode::Rect => block_between(s.snapshot, anchor, s.cursor),
        },
    }
}

/// Two places in reading order.
pub fn ordered_points(a: CopyPoint, b: CopyPoint) -> (r: (CopyPoint, CopyPoint))
    ensures
        r == (earlier(a, b), later(a, b)),
{
    if a.line < b.line || (a.line == b.line && a.col <= b.col) {
        (a, b)
    } else {
        (b, a)
    }
}

/// Appends one line's part, and a line break if another line follows.
fn push_part(out: &mut String, line: &SnapshotLine, from: usize, to: usize, more: bool)
    ensures
        final(out)@ == old(out)@ + (text::cut(line.text@, from as int, to as int) + (if more {
            seq!['\n']
        } else {
            Seq::empty()
        })),
{
    let chars = text::chars_of(line.text.as_str());
    let part = text::slice_of(chars.as_slice(), from, to);
    out.append(part.as_str());
    if more {
        out.push('\n');
    }
    proof {
        let p = text::cut(line.text@, from as int, to as int);
        if more {
            assert((old(out)@ + p).push('\n') =~= old(out)@ + (p + seq!['\n']));
        } else {
            assert(p + Seq::<char>::empty() =~= p);
        }
    }
}

/// Everything between two places, line breaks included; nothing between a place and itself.
pub fn yank_char_selection(snapshot: &PaneTextSnapshot, a: CopyPoint, b: CopyPoint) -> (r: String)
    requires
        a != b ==> a.line < snapshot@.lines.len() && b.line < snapshot@.lines.len(),
    ensures
        r@ == (if a == b {
            Seq::empty()
        } else {
            text_between(snapshot@, a, b)
        }),
{
    let (start, end) = ordered_points(a, b);
    let mut out = String::new();
    if start == end {
        return out;
    }
    let ghost s = snapshot@;
    let ghost from = |l: int|
        if l == start.line {
            start.col as int
        } else {
            0
        };
    let ghost to = |l: int|
        if l == end.line {
            end.col as int
        } else {
            model::line_len(s, l) as int
        };
    let ghost whole = lines_cut(s, start.line as int, end.line as int, from, to);
    proof {
        assert(out@ + whole =~= whole);
    }
    let mut line: usize = start.line;
    loop
        invariant_except_break
            out@ + lines_cut(s, line as int, end.line as int, from, to) == whole,
        invariant
            s == snapshot@,
            start.line <= line <= end.line < s.lines.len(),
            from == (|l: int|
                if l == start.line {
                    start.col as int
                } else {
                    0
                }),
            to == (|l: int|
                if l == end.line {
                    end.col as int
                } else {
                    model::line_len(s, l) as int
                }),
        ensures
            out@ == whole,
        decreases end.line - line,
    {
        let ghost prev = out@;
        let left: usize = if line == start.line {
            start.col
        } else {
            0
        };
        let right: usize = if line == end.line {
            end.col
        } else {
            position::line_char_len(snapshot, line)
        };
        proof {
            assert(s.lines[line as int] == snapshot.lines@[line as int]@);
        }
        push_part(&mut out, &snapshot.lines[line], left, right, line < end.line);
        proof {
            let rest = lines_cut(s, line + 1, end.line as int, from, to);
            assert(out@ + rest =~= prev + lines_cut(s, line as int, end.line as int, from, to));
            if line == end.line {
                assert(rest =~= Seq::empty());
                assert(out@ + rest =~= out@);
            }
        }
        if line == end.line {
            break ;
        }
        line = line + 1;
    }
    out
}

/// The columns `left..right` of the lines between two lines.
fn yank_columns(
    snapshot: &PaneTextSnapshot,
    first: usize,
    last: usize,
    left: usize,
    right: usize,
    whole_lines: bool,
) -> (r: String)
    requires
        first <= last < snapshot@.lines.len(),
    ensures
        whole_lines ==> r@ == lines_cut(
            snapshot@,
            first as int,
            last as int,
            |l: int| 0int,
            |l: int| model::line_len(snapshot@, l) as int,
        ),
        !whole_lines ==> r@ == lines_cut(
            snapshot@,
            first as int,
            last as int,
            |l: int| left as int,
            |l: int| right as int,
        ),
{
    let ghost s = snapshot@;
    let ghost from: spec_fn(int) -> int = if whole_lines {
        |l: int| 0int
    } else {
        |l: int| left as int
    };
    let ghost to: spec_fn(int) -> int = if whole_lines {
        |l: int| model::line_len(s, l) as int
    } else {
        |l: int| right as int
    };
    let ghost whole = lines_cut(s, first as int, last as int, from, to);
    let mut out = String::new();
    proof {
        assert(out@ + whole =~= whole);
    }
    let mut line: usize = first;
    loop
        invariant_except_break
            out@ + lines_cut(s, line as int, last as int, from, to) == whole,
        invariant
            s == snapshot@,
            first <= line <= last < s.lines.len(),
            whole_lines ==> from == (|l: int| 0int) && to == (|l: int| model::line_len(s, l) as int),
            !whole_lines ==> from == (|l: int| left as int) && to == (|l: int| right as int),
        ensures
            out@ == whole,
        decreases last - line,
    {
        let ghost prev = out@;
        let l: usize = if whole_lines {
            0
        } else {
            left
        };
        let r: usize = if whole_lines {
            position::line_char_len(snapshot, line)
        } else {
            right
        };
        proof {
            assert(s.lines[line as int] == snapshot.lines@[line as int]@);
        }
        push_part(&mut out, &snapshot.lines[line], l, r, line < last);
        proof {
            let rest = lines_cut(s, line + 1, last as int, from, to);
            assert(out@ + rest =~= prev + lines_cut(s, line as int, last as int, from, to));
            if line == last {
                assert(rest =~= Seq::empty());
                assert(out@ + rest =~= out@);
            }
        }
        if line == last {
            break ;
        }
        line = line + 1;
    }
    out
}

/// The lines between two lines, whole.
pub fn yank_line_selection(snapshot: &PaneTextSnapshot, a: usize, b: usize) -> (r: String)
    requires
        a < snapshot@.lines.len(),
        b < snapshot@.lines.len(),
    ensures
        r@ == lines_between(snapshot@, a as int, b as int),
        (forall|l: int|
            0 <= l < snapshot@.lines.len() ==> yank_laws::one_line(
                (#[trigger] snapshot@.lines[l]).text,
            )) ==> {
            let first = if a <= b {
                a as int
            } else {
                b as int
            };
            let last = if a <= b {
                b as int
            } else {
                a as int
            };
            let lines = yank_laws::pieces(r@);
            &&& lines.len() == last - first + 1
            &&& forall|k: int|
                0 <= k <= last - first ==> #[trigger] lines[k] == snapshot@.lines[first + k].text
        },
{
    proof {
        if forall|l: int|
            0 <= l < snapshot@.lines.len() ==> yank_laws::one_line(
                (#[trigger] snapshot@.lines[l]).text,
            ) {
            yank_laws::law_line_selection_yanks_its_lines(snapshot@, a as int, b as int);
        }
    }
    if a <= b {
        yank_columns(snapshot, a, b, 0, 0, true)
    } else {
        yank_columns(snapshot, b, a, 0, 0, true)
    }
}

/// The columns between two places on every line between them.
pub fn yank_rect_selection(snapshot: &PaneTextSnapshot, a: CopyPoint, b: CopyPoint) -> (r: String)
    requires
        a.line < snapshot@.lines.len(),
        b.line < snapshot@.lines.len(),
    ensures
        r@ == block_between(snapshot@, a, b),
{
    let first: usize = if a.line <= b.line {
        a.line
    } else {
        b.line
    };
    let last: usize = if a.line >= b.line {
        a.line
    } else {
        b.line
    };
    let left: usize = if a.col <= b.col {
        a.col
    } else {
        b.col
    };
    let right: usize = if a.col >= b.col {
        a.col
    } else {
        b.col
    };
    yank_columns(snapshot, first, last, left, right, false)
}

/// Both ends of the selection stand on lines of the snapshot.
pub open spec fn selection_on_lines(s: CopyStateV) -> bool {
    s.anchor matches Some(a) ==> a.line < s.snapshot.lines.len() && s.cursor.line
        < s.snapshot.lines.len()
}

/// The text that the selection covers.
pub fn selection_text(state: &CopyModeState) -> (r: String)
    requires
        selection_on_lines(state@),
    ensures
        r@ == selected_text(state@),
{
    match state.anchor {
        None => String::new(),
        Some(anchor) => match state.selection_mode {
            SelectionMode::Char => yank_char_selection(&state.snapshot, anchor, state.cursor),
            SelectionMode::Line => yank_line_selection(
                &state.snapshot,
                anchor.line,
                state.cursor.line,
            ),
            SelectionMode::Rect => yank_rect_selection(&state.snapshot, anchor, state.cursor),
        },
    }
}

/// A selection covers the same text whichever end it was begun at.
pub proof fn law_selection_has_no_direction(s: SnapshotV, a: CopyPoint, b: CopyPoint)
    ensures
        text_between(s, a, b) == text_between(s, b, a),
        lines_between(s, a.line as int, b.line as int) == lines_between(
            s,
            b.line as int,
            a.line as int,
        ),
        block_between(s, a, b) == block_between(s, b, a),
{
    assert(earlier(a, b) == earlier(b, a));
    assert(later(a, b) == later(b, a));
}

} // verus!
