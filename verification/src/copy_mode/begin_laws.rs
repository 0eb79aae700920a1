//! How copy mode begins, and what stays when the text is read anew.

use crate::copy_mode;
use crate::copy_mode::find;
use crate::copy_mode::model::{CopyPoint, CopySnapshotSource, CopyStateV, SnapshotV};
use vstd::prelude::*;

verus! {

/// Whether a place lies on a line of a text, at most behind its last character.
pub open spec fn on_text(text: SnapshotV, p: CopyPoint) -> bool {
    p.line < text.lines.len() && p.col <= text.lines[p.line as int].text.len()
}

/// The place behind the last character of a text.
pub open spec fn behind_all(text: SnapshotV, p: CopyPoint) -> bool {
    p.line == text.lines.len() - 1 && p.col == text.lines.last().text.len()
}

/// Copy mode begins where the cursor of the pane is, with nothing selected and nothing searched
/// for, on the text that was read.
pub proof fn law_copy_mode_begins_at_the_cursor(
    text: SnapshotV,
    source: CopySnapshotSource,
    width: int,
    height: int,
)
    requires
        on_text(text, CopyPoint { line: text.cursor_line, col: text.cursor_col }),
        text.lines.len() <= usize::MAX,
    ensures
        ({
            let s = copy_mode::entered(text, source, width, height);
            &&& s.snapshot == text
            &&& s.cursor == CopyPoint { line: text.cursor_line, col: text.cursor_col }
            &&& s.anchor is None
            &&& s.search_matches.len() == 0
            &&& s.wrapped.rows.len() <= usize::MAX && height >= 1 ==> (s.scroll_top == 0
                || s.scroll_top + height == s.wrapped.rows.len())
        }),
{
}

/// With the text read anew, the cursor and the selection keep their places as far as the text still
/// has them, and what was searched for is found in the new text. A cursor that was at the very end
/// with nothing selected is at the end of the new text.
pub proof fn law_places_stay_when_the_text_is_read_anew(
    s: CopyStateV,
    text: SnapshotV,
    width: int,
    height: int,
)
    requires
        s.snapshot.lines.len() > 0,
        text.lines.len() > 0,
        text.lines.len() <= usize::MAX,
        s.snapshot.lines.len() <= usize::MAX,
        text.lines.last().text.len() <= usize::MAX,
        s.snapshot.lines.last().text.len() <= usize::MAX,
    ensures
        ({
            let r = copy_mode::refreshed(s, text, width, height);
            let follows = s.anchor is None && behind_all(s.snapshot, s.cursor);
            &&& r.snapshot == text
            &&& r.search_matches == find::all_matches(text, s.search_query)
            &&& follows ==> behind_all(text, r.cursor)
            &&& !follows && on_text(text, s.cursor) ==> r.cursor == s.cursor
            &&& s.anchor is None ==> r.anchor is None
            &&& s.anchor matches Some(a) ==> (on_text(text, a) ==> r.anchor == Some(a))
            &&& r.selection_mode == s.selection_mode
        }),
{
}

} // verus!
