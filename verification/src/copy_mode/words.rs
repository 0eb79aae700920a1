//! Moving by words.

use crate::copy_mode::model;
use crate::copy_mode::position;
use crate::text;
use crate::copy_mode::model::{CopyPoint, PaneTextSnapshot, SnapshotV};
use vstd::prelude::*;

verus! {

/// What a character counts as where words are told apart.
#[derive(Clone, Copy, Debug, PartialEq, Eq, Structural)]
pub enum WordClass {
    Space,
    Keyword,
    Punct,
}

pub open spec fn class_of(c: char) -> WordClass {
    if text::white_space(c) {
        WordClass::Space
    } else if c == '_' || text::unicode_alphanumeric(c) {
        WordClass::Keyword
    } else {
        WordClass::Punct
    }
}

/// What a character counts as where words are told apart.
pub fn classify_char(ch: char) -> (r: WordClass)
    ensures
        r == class_of(ch),
{
    if text::is_whitespace(ch) {
        WordClass::Space
    } else if ch == '_' || text::is_alphanumeric(ch) {
        WordClass::Keyword
    } else {
        WordClass::Punct
    }
}

/// Reading order: `a` comes before `b`.
pub open spec fn before(a: CopyPoint, b: CopyPoint) -> bool {
    a.line < b.line || (a.line == b.line && a.col < b.col)
}

/// `a` is `b` or comes before it.
pub open spec fn up_to(a: CopyPoint, b: CopyPoint) -> bool {
    a == b || before(a, b)
}

/// Whether there is a character at a place.
pub open spec fn on_char(s: SnapshotV, p: CopyPoint) -> bool {
    p.line < s.lines.len() && p.col < s.lines[p.line as int].text.len()
}

pub open spec fn class_at(s: SnapshotV, p: CopyPoint) -> WordClass {
    class_of(s.lines[p.line as int].text[p.col as int])
}

/// The first place, in reading order, of those that `pred` picks.
pub open spec fn is_first(pred: spec_fn(CopyPoint) -> bool, p: CopyPoint) -> bool {
    pred(p) && forall|x: CopyPoint| #[trigger] pred(x) ==> up_to(p, x)
}

/// The last place, in reading order, of those that `pred` picks.
pub open spec fn is_last(pred: spec_fn(CopyPoint) -> bool, p: CopyPoint) -> bool {
    pred(p) && forall|x: CopyPoint| #[trigger] pred(x) ==> up_to(x, p)
}

/// The first place that `pred` picks, if it picks any.
pub open spec fn first_point(pred: spec_fn(CopyPoint) -> bool) -> Option<CopyPoint> {
    if exists|p: CopyPoint| is_first(pred, p) {
        Some(choose|p: CopyPoint| is_first(pred, p))
    } else {
        None
    }
}

/// The last place that `pred` picks, if it picks any.
pub open spec fn last_point(pred: spec_fn(CopyPoint) -> bool) -> Option<CopyPoint> {
    if exists|p: CopyPoint| is_last(pred, p) {
        Some(choose|p: CopyPoint| is_last(pred, p))
    } else {
        None
    }
}

pub proof fn lemma_first_point(pred: spec_fn(CopyPoint) -> bool, p: CopyPoint)
    requires
        is_first(pred, p),
    ensures
        first_point(pred) == Some(p),
{
    let q = choose|q: CopyPoint| is_first(pred, q);
    assert(up_to(p, q) && up_to(q, p));
}

pub proof fn lemma_no_first_point(pred: spec_fn(CopyPoint) -> bool)
    requires
        forall|x: CopyPoint| !#[trigger] pred(x),
    ensures
        first_point(pred) is None,
{
}

pub proof fn lemma_last_point(pred: spec_fn(CopyPoint) -> bool, p: CopyPoint)
    requires
        is_last(pred, p),
    ensures
        last_point(pred) == Some(p),
{
    let q = choose|q: CopyPoint| is_last(pred, q);
    assert(up_to(p, q) && up_to(q, p));
}

pub proof fn lemma_no_last_point(pred: spec_fn(CopyPoint) -> bool)
    requires
        forall|x: CopyPoint| !#[trigger] pred(x),
    ensures
        last_point(pred) is None,
{
}

/// The first character behind a place.
pub open spec fn next_char(s: SnapshotV, p: CopyPoint) -> Option<CopyPoint> {
    first_point(|x: CopyPoint| on_char(s, x) && before(p, x))
}

/// One column back; from the start of a line, the last character before it.
pub open spec fn prev_char(s: SnapshotV, p: CopyPoint) -> Option<CopyPoint> {
    if p.line >= s.lines.len() {
        None
    } else if p.col > 0 {
        Some(CopyPoint { line: p.line, col: (p.col - 1) as usize })
    } else {
        last_point(|x: CopyPoint| on_char(s, x) && before(x, p))
    }
}

/// Whether a run of characters of one class begins here on its line.
pub open spec fn token_start(s: SnapshotV, p: CopyPoint) -> bool {
    on_char(s, p) && (p.col == 0 || class_at(s, p) != class_at(
        s,
        CopyPoint { line: p.line, col: (p.col - 1) as usize },
    ))
}

/// Whether a run of characters of one class ends here on its line.
pub open spec fn token_end(s: SnapshotV, p: CopyPoint) -> bool {
    on_char(s, p) && (p.col + 1 == s.lines[p.line as int].text.len() || class_at(s, p) != class_at(
        s,
        CopyPoint { line: p.line, col: (p.col + 1) as usize },
    ))
}

/// Whether a word begins here: a run of characters of one class other than white space.
pub open spec fn word_begins(s: SnapshotV, p: CopyPoint) -> bool {
    token_start(s, p) && class_at(s, p) != WordClass::Space
}

/// Whether a word ends here.
pub open spec fn word_ends(s: SnapshotV, p: CopyPoint) -> bool {
    token_end(s, p) && class_at(s, p) != WordClass::Space
}

/// Where the next word begins: the first beginning of a word behind the cursor.
pub open spec fn next_word(s: SnapshotV, cursor: CopyPoint) -> Option<CopyPoint> {
    first_point(|x: CopyPoint| word_begins(s, x) && before(cursor, x))
}

/// Where the word at the cursor begins or, where the cursor is at its beginning or on none, the
/// word before it: the last beginning of a word before the cursor.
pub open spec fn prev_word(s: SnapshotV, cursor: CopyPoint) -> Option<CopyPoint> {
    last_point(|x: CopyPoint| word_begins(s, x) && before(x, cursor))
}

/// The last character of the word at the cursor or, where the cursor is on it or on none, of the
/// next word: the first end of a word behind the cursor.
pub open spec fn word_end(s: SnapshotV, cursor: CopyPoint) -> Option<CopyPoint> {
    first_point(|x: CopyPoint| word_ends(s, x) && before(cursor, x))
}

/// The class of the character at a place, if there is one.
pub fn char_class_at(snapshot: &PaneTextSnapshot, point: CopyPoint) -> (r: Option<WordClass>)
    ensures
        r == (if on_char(snapshot@, point) {
            Some(class_at(snapshot@, point))
        } else {
            None
        }),
{
    if point.line >= snapshot.lines.len() {
        return None;
    }
    proof {
        assert(snapshot@.lines[point.line as int] == snapshot.lines@[point.line as int]@);
    }
    let text = snapshot.lines[point.line].text.as_str();
    if point.col >= text.unicode_len() {
        return None;
    }
    Some(classify_char(text.get_char(point.col)))
}

/// The first character behind a place.
pub fn next_char_after(snapshot: &PaneTextSnapshot, point: CopyPoint) -> (r: Option<CopyPoint>)
    ensures
        r == next_char(snapshot@, point),
        match r {
            Some(q) => on_char(snapshot@, q) && before(point, q) && forall|x: CopyPoint|
                #[trigger] on_char(snapshot@, x) && before(point, x) ==> up_to(q, x),
            None => forall|x: CopyPoint| #[trigger] on_char(snapshot@, x) ==> !before(point, x),
        },
{
    let ghost s = snapshot@;
    let ghost pred = |x: CopyPoint| on_char(s, x) && before(point, x);
    let n: usize = snapshot.lines.len();
    if point.line >= n {
        proof {
            lemma_no_first_point(pred);
        }
        return None;
    }
    let len: usize = position::line_char_len(snapshot, point.line);
    if len > 0 && point.col < len - 1 {
        let q = CopyPoint { line: point.line, col: point.col + 1 };
        proof {
            assert(is_first(pred, q));
            lemma_first_point(pred, q);
        }
        return Some(q);
    }
    let mut line: usize = point.line + 1;
    while line < n
        invariant
            n == s.lines.len(),
            s == snapshot@,
            point.line < line <= n,
            pred == (|x: CopyPoint| on_char(s, x) && before(point, x)),
            forall|x: CopyPoint| #[trigger] on_char(s, x) && before(point, x) ==> x.line >= line,
        decreases n - line,
    {
        if position::line_char_len(snapshot, line) > 0 {
            let q = CopyPoint { line, col: 0 };
            proof {
                assert(on_char(s, q));
                assert(is_first(pred, q));
                lemma_first_point(pred, q);
            }
            return Some(q);
        }
        line = line + 1;
    }
    proof {
        lemma_no_first_point(pred);
    }
    None
}

/// One column back; from the start of a line, the last character before it.
pub fn prev_char_before(snapshot: &PaneTextSnapshot, point: CopyPoint) -> (r: Option<CopyPoint>)
    ensures
        r == prev_char(snapshot@, point),
        point.line < snapshot@.lines.len() && point.col <= snapshot@.lines[point.line as int].text.len() ==> match r {
            Some(q) => on_char(snapshot@, q) && before(q, point) && forall|x: CopyPoint|
                #[trigger] on_char(snapshot@, x) && before(x, point) ==> up_to(x, q),
            None => forall|x: CopyPoint| #[trigger] on_char(snapshot@, x) ==> !before(x, point),
        },
{
    let ghost s = snapshot@;
    let ghost pred = |x: CopyPoint| on_char(s, x) && before(x, point);
    if point.line >= snapshot.lines.len() {
        return None;
    }
    if point.col > 0 {
        return Some(CopyPoint { line: point.line, col: point.col - 1 });
    }
    let mut line: usize = point.line;
    while line > 0
        invariant
            s == snapshot@,
            line <= point.line < s.lines.len(),
            point.col == 0,
            pred == (|x: CopyPoint| on_char(s, x) && before(x, point)),
            forall|x: CopyPoint| #[trigger] on_char(s, x) && before(x, point) ==> x.line < line,
        decreases line,
    {
        line = line - 1;
        let len: usize = position::line_char_len(snapshot, line);
        if len > 0 {
            let q = CopyPoint { line, col: len - 1 };
            proof {
                assert(on_char(s, q));
                assert(is_last(pred, q));
                lemma_last_point(pred, q);
            }
            return Some(q);
        }
    }
    proof {
        lemma_no_last_point(pred);
    }
    None
}

/// Whether a run of characters of one class begins here on its line.
pub fn is_token_start(snapshot: &PaneTextSnapshot, point: CopyPoint) -> (r: bool)
    ensures
        r == token_start(snapshot@, point),
{
    let class = char_class_at(snapshot, point);
    if class.is_none() {
        return false;
    }
    if point.col == 0 {
        return true;
    }
    char_class_at(snapshot, CopyPoint { line: point.line, col: point.col - 1 }) != class
}

/// Whether a run of characters of one class ends here on its line.
pub fn is_token_end(snapshot: &PaneTextSnapshot, point: CopyPoint) -> (r: bool)
    ensures
        r == token_end(snapshot@, point),
{
    let class = char_class_at(snapshot, point);
    if class.is_none() {
        return false;
    }
    if point.col == position::line_char_len(snapshot, point.line) - 1 {
        return true;
    }
    char_class_at(snapshot, CopyPoint { line: point.line, col: point.col + 1 }) != class
}

/// Where the next word begins.
pub fn find_next_word_start(snapshot: &PaneTextSnapshot, cursor: CopyPoint) -> (r: Option<CopyPoint>)
    ensures
        r == next_word(snapshot@, cursor),
        r matches Some(q) ==> on_char(snapshot@, q),
{
    let ghost s = snapshot@;
    let ghost pred = |x: CopyPoint| word_begins(s, x) && before(cursor, x);
    let mut point = cursor;
    loop
        invariant
            s == snapshot@,
            up_to(cursor, point),
            pred == (|x: CopyPoint| word_begins(s, x) && before(cursor, x)),
            forall|x: CopyPoint| #[trigger] pred(x) ==> before(point, x),
        decreases s.lines.len() - point.line, model::line_len(s, point.line as int) - point.col,
    {
        match next_char_after(snapshot, point) {
            None => {
                proof {
                    assert forall|x: CopyPoint| !#[trigger] pred(x) by {
                        if pred(x) {
                            assert(on_char(s, x));
                        }
                    }
                    lemma_no_first_point(pred);
                }
                return None;
            },
            Some(next) => {
                proof {
                    assert forall|x: CopyPoint| #[trigger] pred(x) implies up_to(next, x) by {
                        assert(on_char(s, x));
                    }
                }
                if is_token_start(snapshot, next) && char_class_at(snapshot, next) != Some(
                    WordClass::Space,
                ) {
                    proof {
                        assert(is_first(pred, next));
                        lemma_first_point(pred, next);
                    }
                    return Some(next);
                }
                proof {
                    assert(!pred(next));
                }
                point = next;
            },
        }
    }
}

/// Where the word at or before the cursor begins.
pub fn find_prev_word_start(snapshot: &PaneTextSnapshot, cursor: CopyPoint) -> (r: Option<CopyPoint>)
    ensures
        r == prev_word(snapshot@, cursor),
        r matches Some(q) ==> on_char(snapshot@, q),
{
    let ghost s = snapshot@;
    let ghost pred = |x: CopyPoint| word_begins(s, x) && before(x, cursor);
    let n: usize = snapshot.lines.len();
    if n == 0 {
        proof {
            lemma_no_last_point(pred);
        }
        return None;
    }
    let inside: bool = cursor.line < n;
    let line: usize = if inside {
        cursor.line
    } else {
        n - 1
    };
    let len: usize = position::line_char_len(snapshot, line);
    let mut point = CopyPoint {
        line,
        col: if inside && cursor.col < len {
            cursor.col
        } else {
            len
        },
    };
    proof {
        assert forall|x: CopyPoint| #[trigger] pred(x) implies before(x, point) by {
            assert(on_char(s, x));
        }
    }
    loop
        invariant
            s == snapshot@,
            position::in_snapshot(s, point),
            up_to(point, cursor),
            pred == (|x: CopyPoint| word_begins(s, x) && before(x, cursor)),
            forall|x: CopyPoint| #[trigger] pred(x) ==> before(x, point),
        decreases point.line, point.col,
    {
        match prev_char_before(snapshot, point) {
            None => {
                proof {
                    assert forall|x: CopyPoint| !#[trigger] pred(x) by {
                        if pred(x) {
                            assert(on_char(s, x));
                        }
                    }
                    lemma_no_last_point(pred);
                }
                return None;
            },
            Some(prev) => {
                proof {
                    assert forall|x: CopyPoint| #[trigger] pred(x) implies up_to(x, prev) by {
                        assert(on_char(s, x));
                    }
                }
                if is_token_start(snapshot, prev) && char_class_at(snapshot, prev) != Some(
                    WordClass::Space,
                ) {
                    proof {
                        assert(is_last(pred, prev));
                        lemma_last_point(pred, prev);
                    }
                    return Some(prev);
                }
                proof {
                    assert(!pred(prev));
                }
                point = prev;
            },
        }
    }
}

/// The last character of the word at or behind the cursor.
pub fn find_word_end(snapshot: &PaneTextSnapshot, cursor: CopyPoint) -> (r: Option<CopyPoint>)
    ensures
        r == word_end(snapshot@, cursor),
        r matches Some(q) ==> on_char(snapshot@, q),
{
    let ghost s = snapshot@;
    let ghost pred = |x: CopyPoint| word_ends(s, x) && before(cursor, x);
    let mut point = cursor;
    loop
        invariant
            s == snapshot@,
            up_to(cursor, point),
            pred == (|x: CopyPoint| word_ends(s, x) && before(cursor, x)),
            forall|x: CopyPoint| #[trigger] pred(x) ==> before(point, x),
        decreases s.lines.len() - point.line, model::line_len(s, point.line as int) - point.col,
    {
        match next_char_after(snapshot, point) {
            None => {
                proof {
                    assert forall|x: CopyPoint| !#[trigger] pred(x) by {
                        if pred(x) {
                            assert(on_char(s, x));
                        }
                    }
                    lemma_no_first_point(pred);
                }
                return None;
            },
            Some(next) => {
                proof {
                    assert forall|x: CopyPoint| #[trigger] pred(x) implies up_to(next, x) by {
                        assert(on_char(s, x));
                    }
                }
                if is_token_end(snapshot, next) && char_class_at(snapshot, next) != Some(
                    WordClass::Space,
                ) {
                    proof {
                        assert(is_first(pred, next));
                        lemma_first_point(pred, next);
                    }
                    return Some(next);
                }
                proof {
                    assert(!pred(next));
                }
                point = next;
            },
        }
    }
}

} // verus!
