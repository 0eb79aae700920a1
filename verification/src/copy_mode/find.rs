//! Searching a snapshot.

use crate::text;
use crate::copy_mode::model::{CopyPoint, LineV, PaneTextSnapshot, SearchMatch, SnapshotV};
use vstd::prelude::*;

verus! {

/// Whether the query stands in the text at position `i`.
pub open spec fn occurs_at(text: Seq<char>, query: Seq<char>, i: int) -> bool {
    0 <= i && i + query.len() <= text.len() && text.subrange(i, i + query.len()) == query
}

/// The occurrences of the query in one line, from left to right, each from behind the one before.
pub open spec fn line_matches(text: Seq<char>, index: int, query: Seq<char>, from: int) -> Seq<
    SearchMatch,
>
    decreases text.len() - from,
{
    if query.len() == 0 || from + query.len() > text.len() {
        Seq::empty()
    } else if occurs_at(text, query, from) {
        seq![
            SearchMatch {
                line: index as usize,
                start: from as usize,
                end: (from + query.len()) as usize,
            },
        ] + line_matches(text, index, query, from + query.len())
    } else {
        line_matches(text, index, query, from + 1)
    }
}

/// The occurrences of the query in the first `n` lines.
pub open spec fn matches_in(lines: Seq<LineV>, query: Seq<char>, n: int) -> Seq<SearchMatch>
    decreases n,
{
    if n <= 0 {
        Seq::empty()
    } else {
        matches_in(lines, query, n - 1) + line_matches(lines[n - 1].text, n - 1, query, 0)
    }
}

/// The occurrences of the query in a snapshot; an empty query has none.
pub open spec fn all_matches(snapshot: SnapshotV, query: Seq<char>) -> Seq<SearchMatch> {
    matches_in(snapshot.lines, query, snapshot.lines.len() as int)
}

/// Whether a match is at the cursor or behind it.
pub open spec fn match_from(m: SearchMatch, cursor: CopyPoint) -> bool {
    m.line > cursor.line || (m.line == cursor.line && m.start >= cursor.col)
}

/// Whether a match is at the cursor or before it.
pub open spec fn match_up_to(m: SearchMatch, cursor: CopyPoint) -> bool {
    m.line < cursor.line || (m.line == cursor.line && m.start <= cursor.col)
}

/// Index of the first match at or behind the cursor, the first of all where there is none.
pub open spec fn match_forward(matches: Seq<SearchMatch>, cursor: CopyPoint, from: int) -> int
    decreases matches.len() - from,
{
    if from >= matches.len() {
        0
    } else if match_from(matches[from], cursor) {
        from
    } else {
        match_forward(matches, cursor, from + 1)
    }
}

/// Index of the last match at or before the cursor among the first `n`, the last of all where
/// there is none.
pub open spec fn match_backward(matches: Seq<SearchMatch>, cursor: CopyPoint, n: int) -> int
    decreases n,
{
    if n <= 0 {
        text::max_int(matches.len() - 1, 0)
    } else if match_up_to(matches[n - 1], cursor) {
        n - 1
    } else {
        match_backward(matches, cursor, n - 1)
    }
}

/// Index of the match that a search begins at.
pub open spec fn first_match(matches: Seq<SearchMatch>, cursor: CopyPoint, forward: bool) -> int {
    if forward {
        match_forward(matches, cursor, 0)
    } else {
        match_backward(matches, cursor, matches.len() as int)
    }
}

/// Every match is an occurrence of the query, and the matches of a line follow each other without
/// overlap.
pub proof fn law_line_matches(text: Seq<char>, index: int, query: Seq<char>, from: int)
    requires
        0 <= from,
        text.len() <= usize::MAX,
    ensures
        ({
            let ms = line_matches(text, index, query, from);
            &&& forall|i: int|
                #![trigger ms[i]]
                0 <= i < ms.len() ==> ms[i].line == index as usize && from <= ms[i].start
                    && ms[i].end == ms[i].start + query.len() && occurs_at(
                    text,
                    query,
                    ms[i].start as int,
                )
            &&& forall|i: int, j: int|
                #![trigger ms[i], ms[j]]
                0 <= i < j < ms.len() ==> ms[i].end <= ms[j].start
        }),
    decreases text.len() - from,
{
    if query.len() == 0 || from + query.len() > text.len() {
    } else if occurs_at(text, query, from) {
        law_line_matches(text, index, query, from + query.len());
        let rest = line_matches(text, index, query, from + query.len());
        let ms = line_matches(text, index, query, from);
        assert(forall|k: int| 1 <= k < ms.len() ==> ms[k] == rest[k - 1]);
        assert forall|i: int| #![trigger ms[i]] 0 <= i < ms.len() implies ms[i].line
            == index as usize && from <= ms[i].start && ms[i].end == ms[i].start + query.len()
            && occurs_at(text, query, ms[i].start as int) by {
            if i > 0 {
                assert(ms[i] == rest[i - 1]);
            }
        }
        assert forall|i: int, j: int|
            #![trigger ms[i], ms[j]]
            0 <= i < j < ms.len() implies ms[i].end <= ms[j].start by {
            if i == 0 {
                assert(ms[j] == rest[j - 1]);
            } else {
                assert(ms[i] == rest[i - 1] && ms[j] == rest[j - 1]);
            }
        }
    } else {
        law_line_matches(text, index, query, from + 1);
        let rest = line_matches(text, index, query, from + 1);
        let ms = line_matches(text, index, query, from);
        assert(ms == rest);
        assert forall|i: int| #![trigger ms[i]] 0 <= i < ms.len() implies ms[i].line
            == index as usize && from <= ms[i].start && ms[i].end == ms[i].start + query.len()
            && occurs_at(text, query, ms[i].start as int) by {
            assert(rest[i] == ms[i]);
        }
    }
}

/// No occurrence is passed over: each one overlaps a match that begins at it or before it.
pub proof fn law_line_matches_complete(
    text: Seq<char>,
    index: int,
    query: Seq<char>,
    from: int,
    at: int,
)
    requires
        0 <= from <= at,
        text.len() <= usize::MAX,
        query.len() > 0,
        occurs_at(text, query, at),
    ensures
        exists|i: int|
            #![trigger line_matches(text, index, query, from)[i]]
            0 <= i < line_matches(text, index, query, from).len() && line_matches(
                text,
                index,
                query,
                from,
            )[i].start <= at < line_matches(text, index, query, from)[i].end,
    decreases text.len() - from,
{
    let ms = line_matches(text, index, query, from);
    if occurs_at(text, query, from) {
        assert(ms[0].start == from);
        if at >= from + query.len() {
            law_line_matches_complete(text, index, query, from + query.len(), at);
            let rest = line_matches(text, index, query, from + query.len());
            let i = choose|i: int|
                #![trigger rest[i]]
                0 <= i < rest.len() && rest[i].start <= at < rest[i].end;
            assert(ms[i + 1] == rest[i]);
        }
    } else {
        law_line_matches_complete(text, index, query, from + 1, at);
    }
}

/// Matches of a snapshot lie on its lines.
pub proof fn lemma_matches_on_lines(lines: Seq<LineV>, query: Seq<char>, n: int)
    requires
        0 <= n <= lines.len() <= usize::MAX,
        forall|i: int| 0 <= i < lines.len() ==> (#[trigger] lines[i]).text.len() <= usize::MAX,
    ensures
        forall|i: int|
            0 <= i < matches_in(lines, query, n).len() ==> (#[trigger] matches_in(
                lines,
                query,
                n,
            )[i]).line < n,
    decreases n,
{
    if n > 0 {
        lemma_matches_on_lines(lines, query, n - 1);
        law_line_matches(lines[n - 1].text, n - 1, query, 0);
        let before = matches_in(lines, query, n - 1);
        let here = line_matches(lines[n - 1].text, n - 1, query, 0);
        assert forall|i: int| 0 <= i < matches_in(lines, query, n).len() implies (
        #[trigger] matches_in(lines, query, n)[i]).line < n by {
            if i < before.len() {
                assert(matches_in(lines, query, n)[i] == before[i]);
            } else {
                assert(matches_in(lines, query, n)[i] == here[i - before.len()]);
            }
        }
    }
}

fn query_at(chars: &Vec<char>, query: &Vec<char>, at: usize) -> (r: bool)
    requires
        at + query@.len() <= chars@.len(),
    ensures
        r == occurs_at(chars@, query@, at as int),
{
    let n: usize = chars.len();
    let mut i: usize = 0;
    while i < query.len()
        invariant
            n == chars@.len(),
            at + query@.len() <= n,
            i <= query@.len(),
            forall|k: int| 0 <= k < i ==> #[trigger] query@[k] == chars@[at + k],
        decreases query@.len() - i,
    {
        if chars[at + i] != query[i] {
            proof {
                if occurs_at(chars@, query@, at as int) {
                    assert(chars@.subrange(at as int, at + query@.len())[i as int] == query@[i as int]);
                }
            }
            return false;
        }
        i = i + 1;
    }
    proof {
        assert(chars@.subrange(at as int, at + query@.len()) =~= query@);
    }
    true
}

/// Every place where the query stands, line by line.
pub fn build_search_matches(snapshot: &PaneTextSnapshot, query: &str) -> (r: Vec<SearchMatch>)
    ensures
        r@ == all_matches(snapshot@, query@),
        forall|i: int| 0 <= i < r@.len() ==> (#[trigger] r@[i]).line < snapshot@.lines.len(),
{
    let wanted = text::chars_of(query);
    let q: usize = wanted.len();
    let n: usize = snapshot.lines.len();
    let ghost lines = snapshot@.lines;
    let mut matches: Vec<SearchMatch> = Vec::new();
    let mut line: usize = 0;
    while line < n
        invariant
            n == snapshot.lines@.len(),
            lines == snapshot@.lines,
            line <= n,
            q == wanted@.len(),
            matches@ == matches_in(lines, wanted@, line as int),
            forall|k: int| 0 <= k < line ==> (#[trigger] lines[k]).text.len() <= usize::MAX,
        decreases n - line,
    {
        let chars = text::chars_of(snapshot.lines[line].text.as_str());
        let len: usize = chars.len();
        let ghost before = matches@;
        proof {
            assert(lines[line as int].text == chars@);
        }
        let mut offset: usize = 0;
        while q > 0 && q <= len && offset <= len - q
            invariant
                q == wanted@.len(),
                len == chars@.len(),
                offset <= len,
                matches@ + line_matches(chars@, line as int, wanted@, offset as int) == before
                    + line_matches(chars@, line as int, wanted@, 0),
            decreases len - offset,
        {
            let ghost prev = matches@;
            let ghost rest = line_matches(chars@, line as int, wanted@, offset + q);
            if query_at(&chars, &wanted, offset) {
                let m = SearchMatch { line, start: offset, end: offset + q };
                matches.push(m);
                proof {
                    assert(prev.push(m) + rest =~= prev + (seq![m] + rest));
                }
                offset = offset + q;
            } else {
                offset = offset + 1;
            }
        }
        proof {
            assert(line_matches(chars@, line as int, wanted@, offset as int) =~= Seq::empty());
            assert(matches@ =~= before + line_matches(chars@, line as int, wanted@, 0));
        }
        line = line + 1;
    }
    proof {
        lemma_matches_on_lines(lines, wanted@, n as int);
    }
    matches
}

/// Index of the match that a search from the cursor begins at.
pub fn find_match_index(matches: &[SearchMatch], cursor: CopyPoint, forward: bool) -> (r: usize)
    ensures
        r == first_match(matches@, cursor, forward),
        matches@.len() > 0 ==> r < matches@.len(),
{
    let n: usize = matches.len();
    if forward {
        let mut i: usize = 0;
        while i < n
            invariant
                n == matches@.len(),
                i <= n,
                forward,
                match_forward(matches@, cursor, i as int) == match_forward(matches@, cursor, 0),
            decreases n - i,
        {
            let m = matches[i];
            if m.line > cursor.line || (m.line == cursor.line && m.start >= cursor.col) {
                return i;
            }
            i = i + 1;
        }
        0
    } else {
        let mut i: usize = n;
        while i > 0
            invariant
                n == matches@.len(),
                i <= n,
                !forward,
                match_backward(matches@, cursor, i as int) == match_backward(
                    matches@,
                    cursor,
                    n as int,
                ),
            decreases i,
        {
            let m = matches[i - 1];
            if m.line < cursor.line || (m.line == cursor.line && m.start <= cursor.col) {
                return i - 1;
            }
            i = i - 1;
        }
        if n == 0 {
            0
        } else {
            n - 1
        }
    }
}

} // verus!
