//! Copy mode: reading, searching and selecting what a pane has shown.

pub mod model;
pub mod motion_laws;
pub mod position;
pub mod render;
pub mod begin_laws;
pub mod find;
pub mod laws;
pub mod snapshot;
pub mod snapshot_laws;
pub mod words;
pub mod wrap;
pub mod yank;
pub mod view_laws;
pub mod yank_laws;

use crate::text;
use crate::copy_mode::model::{CopyModeState, CopyPoint, CopySnapshotSource, CopyStateV, PaneTextSnapshot, SelectionMode, SnapshotLine, SnapshotV};
use crate::copy_mode::render::CopyRenderView;
use vstd::prelude::*;

verus! {

/// What copy mode uses of a pane: the terminal screen, the text buffer (with whether it reflows)
/// and the recent output, each where it could be had; the size it was last laid out for; and the
/// state of copy mode while the pane is in it.
pub struct Pane {
    pub screen: Option<vt100::Screen>,
    pub text_buffer: Option<(bool, PaneTextSnapshot)>,
    pub output_ring: Option<Vec<u8>>,
    pub last_rows: u16,
    pub last_cols: u16,
    pub copy_state: Option<CopyModeState>,
}

impl Pane {
    /// The state of copy mode, if the pane is in it.
    pub open spec fn copy(self) -> Option<CopyStateV> {
        match self.copy_state {
            Some(s) => Some(s@),
            None => None,
        }
    }

    /// Columns to lay text out for, at least one.
    pub open spec fn width(self) -> int {
        text::max_int(self.last_cols as int, 1)
    }

    /// Rows on screen, at least one.
    pub open spec fn height(self) -> int {
        text::max_int(self.last_rows as int, 1)
    }

    /// Whether nothing but the state of copy mode differs.
    pub open spec fn same_pane(self, other: Pane) -> bool {
        &&& self.screen == other.screen
        &&& self.text_buffer == other.text_buffer
        &&& self.output_ring == other.output_ring
        &&& self.last_rows == other.last_rows
        &&& self.last_cols == other.last_cols
    }

    /// Whether nothing differs but the state of copy mode and how the screen came to be held,
    /// which shows the same.
    pub open spec fn same_content(self, other: Pane) -> bool {
        &&& self.screen is Some <==> other.screen is Some
        &&& self.screen is Some ==> snapshot::same_screen(self.screen->0, other.screen->0) && snapshot::screen_offset(
            self.screen->0,
        ) == snapshot::screen_offset(other.screen->0)
        &&& self.text_buffer == other.text_buffer
        &&& self.output_ring == other.output_ring
        &&& self.last_rows == other.last_rows
        &&& self.last_cols == other.last_cols
    }

    /// The text of the terminal: of the screen while the alternate screen is in use, else of the
    /// output replayed, else of the screen.
    pub open spec fn terminal_text(self) -> Option<SnapshotV> {
        let on_screen = match self.screen {
            Some(s) => Some(
                snapshot::screen_text(snapshot::screen_rows(s), snapshot::screen_history(s), snapshot::screen_size(s).0 as nat, snapshot::screen_cursor(s)),
            ),
            None => None,
        };
        let alternate = self.screen matches Some(s) && snapshot::screen_alternate(s);
        if !alternate && self.output_ring is Some && self.output_ring->0@.len() > 0 {
            Some(snapshot::ring_text(self.output_ring->0@, self.last_rows))
        } else {
            on_screen
        }
    }

    /// The text that copy mode reads, and from where.
    pub open spec fn copy_text(self) -> Option<(CopySnapshotSource, SnapshotV)> {
        snapshot::chosen_snapshot(snapshot::buffer_view(self.text_buffer), self.terminal_text())
    }

    /// The text that copy mode would read has a line.
    pub open spec fn readable(self) -> bool {
        self.copy_text() matches Some(x) ==> x.1.lines.len() > 0
    }

    /// The state of copy mode, if there is one, is sound.
    pub open spec fn sound(self) -> bool {
        self.copy() matches Some(s) ==> copy_ok(s)
    }
}

/// What holds of copy mode between any two operations: rows are laid out, and the cursor, the
/// selection and the matches stand on lines of the snapshot.
pub open spec fn copy_ok(s: CopyStateV) -> bool {
    &&& position::state_ok(s)
    &&& s.wrapped.rows.len() > 0
    &&& s.cursor.line < s.snapshot.lines.len()
    &&& s.anchor matches Some(a) ==> a.line < s.snapshot.lines.len()
    &&& matches_ok(s)
}

/// The matches stand on lines of the snapshot, and the current one is one of them.
pub open spec fn matches_ok(s: CopyStateV) -> bool {
    &&& forall|i: int|
        0 <= i < s.search_matches.len() ==> (#[trigger] s.search_matches[i]).line
            < s.snapshot.lines.len()
    &&& s.search_matches.len() > 0 ==> s.search_idx < s.search_matches.len()
}

/// Copy mode entered on a text: scrolled to its last page.
pub open spec fn entered(
    text: SnapshotV,
    source: CopySnapshotSource,
    width: int,
    height: int,
) -> CopyStateV {
    let laid = position::relaid(model::fresh_state(text, source), width, height);
    position::with_column(
        CopyStateV {
            scroll_top: text::max_int(laid.wrapped.rows.len() - text::max_int(height, 1), 0) as usize,
            ..laid
        },
    )
}

/// Copy mode with the text read anew. A cursor at the very end, with nothing selected, stays at
/// the end; otherwise cursor and selection keep their place as far as the text still has it.
pub open spec fn refreshed(s: CopyStateV, text: SnapshotV, width: int, height: int) -> CopyStateV {
    let follow = s.anchor is None && s.cursor == position::end_point(s.snapshot);
    let cursor = if follow {
        position::end_point(text)
    } else {
        position::clamped(text, s.cursor)
    };
    let matches = find::all_matches(text, s.search_query);
    let read = CopyStateV {
        snapshot: text,
        cursor,
        anchor: match s.anchor {
            Some(a) => Some(position::clamped(text, a)),
            None => None,
        },
        search_matches: matches,
        search_idx: if matches.len() == 0 {
            0
        } else {
            find::first_match(matches, cursor, s.search_forward) as usize
        },
        ..s
    };
    let laid = position::relaid(read, width, height);
    let placed = if follow {
        CopyStateV {
            scroll_top: text::max_int(laid.wrapped.rows.len() - text::max_int(height, 1), 0) as usize,
            ..laid
        }
    } else {
        laid
    };
    position::scrolled_to_cursor(position::with_column(placed), height)
}

/// Copy mode laid out anew for a size: the text stays as it was read, and so do the selection and
/// what was searched for. A cursor at the very end, with nothing selected, stays on the last page.
pub open spec fn resized(s: CopyStateV, width: int, height: int) -> CopyStateV {
    let w = text::max_int(width, 1) as usize;
    let laid = position::relaid(
        CopyStateV { wrapped: wrap::wrapped(s.snapshot, w), ..s },
        width,
        height,
    );
    let follow = s.anchor is None && s.cursor == position::end_point(s.snapshot);
    let placed = if follow {
        CopyStateV {
            scroll_top: text::max_int(laid.wrapped.rows.len() - text::max_int(height, 1), 0) as usize,
            ..laid
        }
    } else {
        laid
    };
    position::scrolled_to_cursor(position::with_column(placed), height)
}

/// One place to the left, across line ends.
pub open spec fn left_of(s: CopyStateV) -> CopyPoint {
    if s.cursor.col > 0 {
        position::point_at(s.cursor.line as int, s.cursor.col - 1)
    } else if s.cursor.line > 0 {
        position::point_at(s.cursor.line - 1, model::line_len(s.snapshot, s.cursor.line - 1) as int)
    } else {
        s.cursor
    }
}

/// One place to the right, across line ends.
pub open spec fn right_of(s: CopyStateV) -> CopyPoint {
    if s.cursor.col < model::line_len(s.snapshot, s.cursor.line as int) {
        position::point_at(s.cursor.line as int, s.cursor.col + 1)
    } else if s.cursor.line + 1 < s.snapshot.lines.len() {
        position::point_at(s.cursor.line + 1, 0)
    } else {
        s.cursor
    }
}

/// The row the cursor is shown on.
pub open spec fn cursor_row(s: CopyStateV) -> int {
    position::display_position(s.snapshot, s.wrapped, s.cursor).0 as int
}

/// The cursor moved to another row, keeping to its column.
pub open spec fn row_put(s: CopyStateV, row: int, height: int) -> CopyStateV {
    position::scrolled_to_cursor(
        CopyStateV {
            cursor: position::point_shown(s.snapshot, s.wrapped, row, s.preferred_column as int),
            ..s
        },
        height,
    )
}

/// Whether a row shows a line of the snapshot. Only the row behind the last line, and rows laid
/// out for lines that are gone, do not.
pub open spec fn row_has_line(s: CopyStateV, row: int) -> bool {
    s.wrapped.rows[row].line < s.snapshot.lines.len()
}

/// The cursor one row up, where there is one.
pub open spec fn moved_up(s: CopyStateV, width: int, height: int) -> CopyStateV {
    let laid = position::relaid(s, width, height);
    if cursor_row(laid) > 0 {
        row_put(laid, cursor_row(laid) - 1, height)
    } else {
        position::scrolled_to_cursor(laid, height)
    }
}

/// The cursor one row down, where there is one.
pub open spec fn moved_down(s: CopyStateV, width: int, height: int) -> CopyStateV {
    let laid = position::relaid(s, width, height);
    if cursor_row(laid) + 1 < laid.wrapped.rows.len() {
        row_put(laid, cursor_row(laid) + 1, height)
    } else {
        position::scrolled_to_cursor(laid, height)
    }
}

/// The row that a page further down ends at.
pub open spec fn page_down_row(s: CopyStateV, height: int) -> int {
    text::min_int(cursor_row(s) + text::max_int(height, 1), s.wrapped.rows.len() - 1)
}

/// The row that a page further up ends at.
pub open spec fn page_up_row(s: CopyStateV, height: int) -> int {
    text::max_int(cursor_row(s) - text::max_int(height, 1), 0)
}

/// The cursor at the current match.
pub open spec fn jumped(s: CopyStateV, width: int, height: int) -> CopyStateV {
    let laid = position::relaid(s, width, height);
    if laid.search_idx < laid.search_matches.len() {
        let m = laid.search_matches[laid.search_idx as int];
        position::scrolled_to_cursor(
            position::with_column(CopyStateV { cursor: CopyPoint { line: m.line, col: m.start }, ..laid }),
            height,
        )
    } else {
        laid
    }
}

/// Copy mode with a new search: the matches of the query, and the cursor at the first one in the
/// search's direction.
pub open spec fn searched(
    s: CopyStateV,
    query: Seq<char>,
    forward: bool,
    width: int,
    height: int,
) -> CopyStateV {
    let matches = find::all_matches(s.snapshot, query);
    let asked = CopyStateV {
        search_query: query,
        search_forward: forward,
        search_matches: matches,
        search_idx: if matches.len() == 0 {
            0
        } else {
            find::first_match(matches, s.cursor, forward) as usize
        },
        ..s
    };
    if matches.len() == 0 {
        asked
    } else {
        jumped(asked, width, height)
    }
}

/// The index of the next match, around the end.
pub open spec fn index_after(index: int, count: int) -> int {
    (index + 1) % count
}

/// The index of the match before, around the start.
pub open spec fn index_before(index: int, count: int) -> int {
    if index == 0 {
        count - 1
    } else {
        index - 1
    }
}

/// The match that repeating a search goes to: on in its own direction, or back against it.
pub open spec fn stepped_index(s: CopyStateV, onward: bool) -> int {
    if onward == s.search_forward {
        index_after(s.search_idx as int, s.search_matches.len() as int)
    } else {
        index_before(s.search_idx as int, s.search_matches.len() as int)
    }
}

/// The search repeated: the cursor at the match that this goes to.
pub open spec fn stepped(s: CopyStateV, onward: bool, width: int, height: int) -> CopyStateV {
    if s.search_matches.len() == 0 {
        s
    } else {
        jumped(CopyStateV { search_idx: stepped_index(s, onward) as usize, ..s }, width, height)
    }
}

/// A copy of a snapshot.
pub fn copy_snapshot(snapshot: &PaneTextSnapshot) -> (r: PaneTextSnapshot)
    ensures
        r@ == snapshot@,
{
    let mut lines: Vec<SnapshotLine> = Vec::new();
    let mut i: usize = 0;
    while i < snapshot.lines.len()
        invariant
            i <= snapshot.lines@.len(),
            lines@.len() == i,
            forall|k: int| 0 <= k < i ==> (#[trigger] lines@[k])@ == snapshot.lines@[k]@,
        decreases snapshot.lines@.len() - i,
    {
        let line = &snapshot.lines[i];
        lines.push(SnapshotLine { text: line.text.clone(), terminated: line.terminated });
        i = i + 1;
    }
    let r = PaneTextSnapshot {
        lines,
        cursor_line: snapshot.cursor_line,
        cursor_col: snapshot.cursor_col,
    };
    proof {
        assert(r@ =~= snapshot@);
    }
    r
}

/// Reads the text that copy mode works on.
pub fn snapshot_for_copy_mode(pane: &mut Pane, preferred_source: Option<CopySnapshotSource>) -> (r:
    Option<(CopySnapshotSource, PaneTextSnapshot)>)
    requires
        old(pane).readable(),
    ensures
        (match r {
            Some(x) => Some((x.0, x.1@)),
            None => None,
        }) == old(pane).copy_text(),
        final(pane).same_content(*old(pane)),
        final(pane).copy_state == old(pane).copy_state,
{
    let alternate: bool = snapshot::in_alternate_screen(&pane.screen);
    let mut parser_snapshot: Option<PaneTextSnapshot> = None;
    if !alternate {
        if let Some(ring) = &pane.output_ring {
            parser_snapshot = snapshot::snapshot_from_output_ring(ring.as_slice(), pane.last_rows);
        }
    }
    if parser_snapshot.is_none() {
        match &mut pane.screen {
            Some(screen) => {
                parser_snapshot = Some(snapshot::snapshot_from_screen(screen));
            },
            None => {},
        }
    }
    let buffer_snapshot: Option<(bool, PaneTextSnapshot)> = match &pane.text_buffer {
        Some((reflow, text)) => Some((*reflow, copy_snapshot(text))),
        None => None,
    };
    snapshot::select_snapshot_for_copy_mode(buffer_snapshot, parser_snapshot, alternate, preferred_source)
}

/// Enters copy mode, unless there is no text to read.
pub fn enter(pane: &mut Pane) -> (r: bool)
    requires
        old(pane).readable(),
    ensures
        r == (old(pane).copy_text() is Some),
        final(pane).same_content(*old(pane)),
        old(pane).copy_text() matches Some(x) ==> final(pane).copy() == Some(
            entered(x.1, x.0, old(pane).last_cols as int, old(pane).height()),
        ),
        old(pane).copy_text() is None ==> final(pane).copy_state == old(pane).copy_state,
        r ==> final(pane).sound(),
{
    let (source, text) = match snapshot_for_copy_mode(pane, None) {
        Some(x) => x,
        None => {
            return false;
        },
    };
    let mut state = CopyModeState::new_with_source(text, source);
    let height: usize = if pane.last_rows < 1 {
        1
    } else {
        pane.last_rows as usize
    };
    position::rebuild_wrapped(&mut state, pane.last_cols as usize, height);
    let ghost laid = state@;
    let rows: usize = state.wrapped.rows.len();
    state.scroll_top = if rows > height {
        rows - height
    } else {
        0
    };
    state.preferred_column = position::current_display_position(&state).1;
    proof {
        let x = old(pane).copy_text()->0;
        assert(state@ =~= entered(x.1, x.0, old(pane).last_cols as int, old(pane).height()));
    }
    pane.copy_state = Some(state);
    true
}

/// Leaves copy mode.
pub fn exit(pane: &mut Pane)
    ensures
        final(pane).copy() is None,
        final(pane).same_pane(*old(pane)),
{
    pane.copy_state = None;
}

fn refresh_snapshot_with(
    state: &mut CopyModeState,
    snapshot: PaneTextSnapshot,
    width: usize,
    height: usize,
)
    requires
        position::state_ok(old(state)@),
        snapshot@.lines.len() > 0,
    ensures
        final(state)@ == refreshed(old(state)@, snapshot@, width as int, height as int),
        copy_ok(final(state)@),
{
    let ghost before = state@;
    let ghost text = snapshot@;
    let follow: bool = state.anchor.is_none() && state.cursor == position::last_cursor_point(&state.snapshot);
    state.cursor = if follow {
        position::last_cursor_point(&snapshot)
    } else {
        position::clamp_point(&snapshot, state.cursor)
    };
    state.anchor = match state.anchor {
        Some(a) => Some(position::clamp_point(&snapshot, a)),
        None => None,
    };
    state.snapshot = snapshot;
    state.search_matches = find::build_search_matches(&state.snapshot, state.search_query.as_str());
    state.search_idx = if state.search_matches.len() == 0 {
        0
    } else {
        find::find_match_index(state.search_matches.as_slice(), state.cursor, state.search_forward)
    };
    position::rebuild_wrapped(state, width, height);
    if follow {
        let rows: usize = state.wrapped.rows.len();
        let h: usize = if height < 1 {
            1
        } else {
            height
        };
        state.scroll_top = if rows > h {
            rows - h
        } else {
            0
        };
    }
    state.preferred_column = position::current_display_position(state).1;
    position::ensure_cursor_visible(state, height);
    proof {
        assert(state@ =~= refreshed(before, text, width as int, height as int));
    }
}

/// Puts a newly read text in place of the old one.
pub fn refresh_snapshot(
    state: &mut CopyModeState,
    snapshot: PaneTextSnapshot,
    width: usize,
    height: usize,
)
    requires
        position::state_ok(old(state)@),
        snapshot@.lines.len() > 0,
    ensures
        final(state)@ == refreshed(old(state)@, snapshot@, width as int, height as int),
        copy_ok(final(state)@),
{
    refresh_snapshot_with(state, snapshot, width, height)
}

/// Columns and rows to lay a pane out for.
pub fn layout_size(pane: &Pane) -> (r: (usize, usize))
    ensures
        r.0 == pane.width(),
        r.1 == pane.height(),
{
    let width: usize = if pane.last_cols < 1 {
        1
    } else {
        pane.last_cols as usize
    };
    let height: usize = if pane.last_rows < 1 {
        1
    } else {
        pane.last_rows as usize
    };
    (width, height)
}

/// Lays the text that was read out for the pane's size.
pub fn refresh_layout(pane: &mut Pane)
    requires
        old(pane).sound(),
    ensures
        final(pane).same_pane(*old(pane)),
        final(pane).sound(),
        final(pane).copy() == (match old(pane).copy() {
            None => None,
            Some(s) => Some(resized(s, old(pane).width(), old(pane).height())),
        }),
{
    let (width, height) = layout_size(pane);
    match &mut pane.copy_state {
        Some(state) => {
            let ghost before = state@;
            let follow: bool = state.anchor.is_none() && state.cursor
                == position::last_cursor_point(&state.snapshot);
            state.wrapped = wrap::build_wrapped_snapshot(&state.snapshot, width);
            proof {
                position::lemma_wrapped_placed(before.snapshot, width);
                assert(state@ =~= CopyStateV {
                    wrapped: wrap::wrapped(before.snapshot, width),
                    ..before
                });
            }
            position::rebuild_wrapped(state, width, height);
            let ghost laid = state@;
            if follow {
                let rows: usize = state.wrapped.rows.len();
                state.scroll_top = if rows > height {
                    rows - height
                } else {
                    0
                };
            }
            let ghost placed = state@;
            state.preferred_column = position::current_display_position(state).1;
            proof {
                assert(state@ =~= position::with_column(placed));
            }
            position::ensure_cursor_visible(state, height);
            proof {
                assert(state@ =~= resized(before, width as int, height as int));
            }
        },
        None => {},
    }
}

/// Puts the cursor somewhere and brings the screen after it.
fn put_cursor(state: &mut CopyModeState, point: CopyPoint, width: usize, height: usize)
    requires
        copy_ok(old(state)@),
    ensures
        final(state)@ == position::cursor_put(old(state)@, point, width as int, height as int),
        copy_ok(final(state)@),
        position::in_snapshot(final(state)@.snapshot, final(state)@.cursor),
{
    let ghost before = state@;
    state.cursor = point;
    proof {
        assert(state@ =~= CopyStateV { cursor: point, ..before });
    }
    position::rebuild_wrapped(state, width, height);
    let ghost laid = state@;
    state.preferred_column = position::current_display_position(state).1;
    proof {
        assert(state@ =~= position::with_column(laid));
    }
    position::ensure_cursor_visible(state, height);
}

/// Moves the cursor one place to the left.
pub fn move_left(pane: &mut Pane)
    requires
        old(pane).sound(),
    ensures
        final(pane).same_pane(*old(pane)),
        final(pane).sound(),
        final(pane).copy() == (match old(pane).copy() {
            None => None,
            Some(s) => {
                let laid = position::relaid(s, old(pane).width(), old(pane).height());
                Some(position::cursor_put(laid, left_of(laid), old(pane).width(), old(pane).height()))
            },
        }),
{
    let (width, height) = layout_size(pane);
    match &mut pane.copy_state {
        Some(state) => {
            position::rebuild_wrapped(state, width, height);
            let cursor = state.cursor;
            let to = if cursor.col > 0 {
                CopyPoint { line: cursor.line, col: cursor.col - 1 }
            } else if cursor.line > 0 {
                CopyPoint {
                    line: cursor.line - 1,
                    col: position::line_char_len(&state.snapshot, cursor.line - 1),
                }
            } else {
                cursor
            };
            put_cursor(state, to, width, height);
        },
        None => {},
    }
}

/// Moves the cursor one place to the right.
pub fn move_right(pane: &mut Pane)
    requires
        old(pane).sound(),
    ensures
        final(pane).same_pane(*old(pane)),
        final(pane).sound(),
        final(pane).copy() == (match old(pane).copy() {
            None => None,
            Some(s) => {
                let laid = position::relaid(s, old(pane).width(), old(pane).height());
                Some(position::cursor_put(laid, right_of(laid), old(pane).width(), old(pane).height()))
            },
        }),
{
    let (width, height) = layout_size(pane);
    match &mut pane.copy_state {
        Some(state) => {
            position::rebuild_wrapped(state, width, height);
            let cursor = state.cursor;
            let count: usize = state.snapshot.lines.len();
            let to = if cursor.col < position::line_char_len(&state.snapshot, cursor.line) {
                CopyPoint { line: cursor.line, col: cursor.col + 1 }
            } else if cursor.line < count - 1 {
                CopyPoint { line: cursor.line + 1, col: 0 }
            } else {
                cursor
            };
            put_cursor(state, to, width, height);
        },
        None => {},
    }
}

/// Moves the cursor to a row, keeping to its column.
fn put_row(state: &mut CopyModeState, row: usize, height: usize)
    requires
        copy_ok(old(state)@),
        row < old(state)@.wrapped.rows.len(),
        row_has_line(old(state)@, row as int),
    ensures
        final(state)@ == row_put(old(state)@, row as int, height as int),
        copy_ok(final(state)@),
{
    let ghost before = state@;
    state.cursor = position::point_from_display_position(state, row, state.preferred_column);
    proof {
        assert(state@ =~= CopyStateV {
            cursor: position::point_shown(
                before.snapshot,
                before.wrapped,
                row as int,
                before.preferred_column as int,
            ),
            ..before
        });
    }
    position::ensure_cursor_visible(state, height);
}

/// Moves the cursor one row up.
pub fn move_up(pane: &mut Pane)
    requires
        old(pane).sound(),
        old(pane).copy() matches Some(s) ==> {
            let laid = position::relaid(s, old(pane).width(), old(pane).height());
            cursor_row(laid) > 0 ==> row_has_line(laid, cursor_row(laid) - 1)
        },
    ensures
        final(pane).same_pane(*old(pane)),
        final(pane).sound(),
        final(pane).copy() == (match old(pane).copy() {
            None => None,
            Some(s) => Some(moved_up(s, old(pane).width(), old(pane).height())),
        }),
{
    let (width, height) = layout_size(pane);
    match &mut pane.copy_state {
        Some(state) => {
            position::rebuild_wrapped(state, width, height);
            let row: usize = position::current_display_position(state).0;
            if row > 0 {
                put_row(state, row - 1, height);
            } else {
                position::ensure_cursor_visible(state, height);
            }
        },
        None => {},
    }
}

/// Moves the cursor one row down.
pub fn move_down(pane: &mut Pane)
    requires
        old(pane).sound(),
        old(pane).copy() matches Some(s) ==> {
            let laid = position::relaid(s, old(pane).width(), old(pane).height());
            cursor_row(laid) + 1 < laid.wrapped.rows.len() ==> row_has_line(
                laid,
                cursor_row(laid) + 1,
            )
        },
    ensures
        final(pane).same_pane(*old(pane)),
        final(pane).sound(),
        final(pane).copy() == (match old(pane).copy() {
            None => None,
            Some(s) => Some(moved_down(s, old(pane).width(), old(pane).height())),
        }),
{
    let (width, height) = layout_size(pane);
    match &mut pane.copy_state {
        Some(state) => {
            position::rebuild_wrapped(state, width, height);
            let row: usize = position::current_display_position(state).0;
            let rows: usize = state.wrapped.rows.len();
            if row < rows - 1 {
                put_row(state, row + 1, height);
            } else {
                position::ensure_cursor_visible(state, height);
            }
        },
        None => {},
    }
}

/// Moves the cursor one page up.
pub fn page_up(pane: &mut Pane)
    requires
        old(pane).sound(),
        old(pane).copy() matches Some(s) ==> {
            let laid = position::relaid(s, old(pane).width(), old(pane).height());
            row_has_line(laid, page_up_row(laid, old(pane).height()))
        },
    ensures
        final(pane).same_pane(*old(pane)),
        final(pane).sound(),
        final(pane).copy() == (match old(pane).copy() {
            None => None,
            Some(s) => {
                let laid = position::relaid(s, old(pane).width(), old(pane).height());
                Some(row_put(laid, page_up_row(laid, old(pane).height()), old(pane).height()))
            },
        }),
{
    let (width, height) = layout_size(pane);
    match &mut pane.copy_state {
        Some(state) => {
            position::rebuild_wrapped(state, width, height);
            let row: usize = position::current_display_position(state).0;
            let target: usize = if row > height {
                row - height
            } else {
                0
            };
            put_row(state, target, height);
        },
        None => {},
    }
}

/// Moves the cursor one page down.
pub fn page_down(pane: &mut Pane)
    requires
        old(pane).sound(),
        old(pane).copy() matches Some(s) ==> {
            let laid = position::relaid(s, old(pane).width(), old(pane).height());
            row_has_line(laid, page_down_row(laid, old(pane).height()))
        },
    ensures
        final(pane).same_pane(*old(pane)),
        final(pane).sound(),
        final(pane).copy() == (match old(pane).copy() {
            None => None,
            Some(s) => {
                let laid = position::relaid(s, old(pane).width(), old(pane).height());
                Some(row_put(laid, page_down_row(laid, old(pane).height()), old(pane).height()))
            },
        }),
{
    let (width, height) = layout_size(pane);
    match &mut pane.copy_state {
        Some(state) => {
            position::rebuild_wrapped(state, width, height);
            let row: usize = position::current_display_position(state).0;
            let last: usize = state.wrapped.rows.len() - 1;
            let target: usize = if last - row > height {
                row + height
            } else {
                last
            };
            put_row(state, target, height);
        },
        None => {},
    }
}

/// Scrolls the view up, entering copy mode first where the pane is not in it. False where it
/// cannot be entered.
pub fn scroll_up(pane: &mut Pane, lines: usize) -> (r: bool)
    requires
        old(pane).sound(),
        old(pane).copy() is None ==> old(pane).readable(),
    ensures
        final(pane).same_content(*old(pane)),
        final(pane).sound(),
        r == (old(pane).copy() is Some || old(pane).copy_text() is Some),
        final(pane).copy() == ({
            let shown = match old(pane).copy() {
                Some(s) => Some(s),
                None => match old(pane).copy_text() {
                    Some(x) => Some(
                        entered(x.1, x.0, old(pane).last_cols as int, old(pane).height()),
                    ),
                    None => None,
                },
            };
            match shown {
                None => None,
                Some(s) => {
                    let laid = position::relaid(s, old(pane).width(), old(pane).height());
                    Some(
                        CopyStateV {
                            scroll_top: text::max_int(laid.scroll_top - lines, 0) as usize,
                            ..laid
                        },
                    )
                },
            }
        }),
{
    if pane.copy_state.is_none() {
        if !enter(pane) {
            return false;
        }
    }
    let (width, height) = layout_size(pane);
    match &mut pane.copy_state {
        Some(state) => {
            position::rebuild_wrapped(state, width, height);
            let ghost laid = state@;
            state.scroll_top = state.scroll_top.saturating_sub(lines);
            proof {
                assert(state@ =~= CopyStateV {
                    scroll_top: text::max_int(laid.scroll_top - lines, 0) as usize,
                    ..laid
                });
            }
        },
        None => {},
    }
    true
}

/// Scrolls the view down; at the bottom copy mode is left. True while it goes on.
pub fn scroll_down(pane: &mut Pane, lines: usize) -> (r: bool)
    requires
        old(pane).sound(),
    ensures
        final(pane).same_pane(*old(pane)),
        final(pane).sound(),
        r == (final(pane).copy() is Some),
        final(pane).copy() == (match old(pane).copy() {
            None => None,
            Some(s) => {
                let laid = position::relaid(s, old(pane).width(), old(pane).height());
                let most = text::max_int(laid.wrapped.rows.len() - old(pane).height(), 0);
                if laid.scroll_top + lines >= most {
                    None
                } else {
                    Some(CopyStateV { scroll_top: (laid.scroll_top + lines) as usize, ..laid })
                }
            },
        }),
{
    let (width, height) = layout_size(pane);
    let mut done: bool = true;
    match &mut pane.copy_state {
        Some(state) => {
            position::rebuild_wrapped(state, width, height);
            let ghost laid = state@;
            let rows: usize = state.wrapped.rows.len();
            let most: usize = if rows > height {
                rows - height
            } else {
                0
            };
            if state.scroll_top < most && lines < most - state.scroll_top {
                state.scroll_top = state.scroll_top + lines;
                done = false;
                proof {
                    assert(state@ =~= CopyStateV {
                        scroll_top: (laid.scroll_top + lines) as usize,
                        ..laid
                    });
                }
            }
        },
        None => {},
    }
    if done {
        exit(pane);
    }
    !done
}

/// How far the view is scrolled: rows above it out of the most there can be.
pub fn scroll_ratio(pane: &Pane) -> (r: Option<(usize, usize)>)
    ensures
        r == (match pane.copy() {
            Some(s) => render::ratio_of(s, pane.height()),
            None => None,
        }),
{
    let (_, height) = layout_size(pane);
    match &pane.copy_state {
        Some(state) => render::state_scroll_ratio(state, height),
        None => None,
    }
}

/// The state at the very top.
pub open spec fn at_top(s: CopyStateV, width: int, height: int) -> CopyStateV {
    let laid = position::relaid(CopyStateV { cursor: position::point_at(0, 0), ..s }, width, height);
    position::scrolled_to_cursor(CopyStateV { scroll_top: 0, preferred_column: 0, ..laid }, height)
}

/// Moves the cursor to the first place of the text.
pub fn move_to_top(pane: &mut Pane)
    requires
        old(pane).sound(),
    ensures
        final(pane).same_pane(*old(pane)),
        final(pane).sound(),
        final(pane).copy() == (match old(pane).copy() {
            None => None,
            Some(s) => {
                let laid = position::relaid(s, old(pane).width(), old(pane).height());
                Some(at_top(laid, old(pane).width(), old(pane).height()))
            },
        }),
        final(pane).copy() matches Some(r) ==> r.cursor.line == 0 && r.cursor.col == 0,
{
    let (width, height) = layout_size(pane);
    match &mut pane.copy_state {
        Some(state) => {
            position::rebuild_wrapped(state, width, height);
            let ghost laid = state@;
            state.cursor = CopyPoint { line: 0, col: 0 };
            proof {
                assert(state@ =~= CopyStateV { cursor: position::point_at(0, 0), ..laid });
            }
            position::rebuild_wrapped(state, width, height);
            let ghost moved = state@;
            state.scroll_top = 0;
            state.preferred_column = 0;
            proof {
                assert(state@ =~= CopyStateV { scroll_top: 0, preferred_column: 0, ..moved });
            }
            position::ensure_cursor_visible(state, height);
        },
        None => {},
    }
}

/// Moves the cursor to the end of the text.
pub fn move_to_bottom(pane: &mut Pane)
    requires
        old(pane).sound(),
    ensures
        final(pane).same_pane(*old(pane)),
        final(pane).sound(),
        final(pane).copy() == (match old(pane).copy() {
            None => None,
            Some(s) => {
                let laid = position::relaid(s, old(pane).width(), old(pane).height());
                Some(
                    position::cursor_put(
                        laid,
                        position::end_point(laid.snapshot),
                        old(pane).width(),
                        old(pane).height(),
                    ),
                )
            },
        }),
        final(pane).copy() matches Some(r) ==> r.cursor.line + 1 == r.snapshot.lines.len()
            && r.cursor.col == r.snapshot.lines[r.cursor.line as int].text.len(),
{
    let (width, height) = layout_size(pane);
    match &mut pane.copy_state {
        Some(state) => {
            position::rebuild_wrapped(state, width, height);
            let to = position::last_cursor_point(&state.snapshot);
            put_cursor(state, to, width, height);
        },
        None => {},
    }
}

/// The state with the cursor at the start of its line.
pub open spec fn at_line_start(s: CopyStateV, width: int, height: int) -> CopyStateV {
    let laid = position::relaid(
        CopyStateV { cursor: position::point_at(s.cursor.line as int, 0), ..s },
        width,
        height,
    );
    position::scrolled_to_cursor(CopyStateV { preferred_column: 0, ..laid }, height)
}

/// Moves the cursor to the start of its line.
pub fn move_to_line_start(pane: &mut Pane)
    requires
        old(pane).sound(),
    ensures
        final(pane).same_pane(*old(pane)),
        final(pane).sound(),
        final(pane).copy() == (match old(pane).copy() {
            None => None,
            Some(s) => {
                let laid = position::relaid(s, old(pane).width(), old(pane).height());
                Some(at_line_start(laid, old(pane).width(), old(pane).height()))
            },
        }),
        final(pane).copy() matches Some(r) ==> r.cursor.line == old(pane).copy()->0.cursor.line
            && r.cursor.col == 0,
{
    let (width, height) = layout_size(pane);
    match &mut pane.copy_state {
        Some(state) => {
            position::rebuild_wrapped(state, width, height);
            let ghost laid = state@;
            state.cursor = CopyPoint { line: state.cursor.line, col: 0 };
            proof {
                assert(state@ =~= CopyStateV {
                    cursor: position::point_at(laid.cursor.line as int, 0),
                    ..laid
                });
            }
            position::rebuild_wrapped(state, width, height);
            let ghost moved = state@;
            state.preferred_column = 0;
            proof {
                assert(state@ =~= CopyStateV { preferred_column: 0, ..moved });
            }
            position::ensure_cursor_visible(state, height);
        },
        None => {},
    }
}

/// Moves the cursor to the end of its line.
pub fn move_to_line_end(pane: &mut Pane)
    requires
        old(pane).sound(),
    ensures
        final(pane).same_pane(*old(pane)),
        final(pane).sound(),
        final(pane).copy() == (match old(pane).copy() {
            None => None,
            Some(s) => {
                let laid = position::relaid(s, old(pane).width(), old(pane).height());
                let line = laid.cursor.line as int;
                Some(
                    position::cursor_put(
                        laid,
                        position::point_at(line, model::line_len(laid.snapshot, line) as int),
                        old(pane).width(),
                        old(pane).height(),
                    ),
                )
            },
        }),
        final(pane).copy() matches Some(r) ==> r.cursor.line == old(pane).copy()->0.cursor.line
            && r.cursor.col == r.snapshot.lines[r.cursor.line as int].text.len(),
{
    let (width, height) = layout_size(pane);
    match &mut pane.copy_state {
        Some(state) => {
            position::rebuild_wrapped(state, width, height);
            let line: usize = state.cursor.line;
            let to = CopyPoint { line, col: position::line_char_len(&state.snapshot, line) };
            put_cursor(state, to, width, height);
        },
        None => {},
    }
}

/// Moves the cursor to where the word at or before it begins, to the top where there is none.
pub fn move_word_backward(pane: &mut Pane)
    requires
        old(pane).sound(),
    ensures
        final(pane).same_pane(*old(pane)),
        final(pane).sound(),
        final(pane).copy() == (match old(pane).copy() {
            None => None,
            Some(s) => {
                let laid = position::relaid(s, old(pane).width(), old(pane).height());
                let to = match words::prev_word(laid.snapshot, laid.cursor) {
                    Some(p) => p,
                    None => position::point_at(0, 0),
                };
                Some(position::cursor_put(laid, to, old(pane).width(), old(pane).height()))
            },
        }),
{
    let (width, height) = layout_size(pane);
    match &mut pane.copy_state {
        Some(state) => {
            position::rebuild_wrapped(state, width, height);
            let to = match words::find_prev_word_start(&state.snapshot, state.cursor) {
                Some(p) => p,
                None => CopyPoint { line: 0, col: 0 },
            };
            put_cursor(state, to, width, height);
        },
        None => {},
    }
}

/// Moves the cursor to where the next word begins, to the end where there is none.
pub fn move_word_forward(pane: &mut Pane)
    requires
        old(pane).sound(),
    ensures
        final(pane).same_pane(*old(pane)),
        final(pane).sound(),
        final(pane).copy() == (match old(pane).copy() {
            None => None,
            Some(s) => {
                let laid = position::relaid(s, old(pane).width(), old(pane).height());
                let to = match words::next_word(laid.snapshot, laid.cursor) {
                    Some(p) => p,
                    None => position::end_point(laid.snapshot),
                };
                Some(position::cursor_put(laid, to, old(pane).width(), old(pane).height()))
            },
        }),
{
    let (width, height) = layout_size(pane);
    match &mut pane.copy_state {
        Some(state) => {
            position::rebuild_wrapped(state, width, height);
            let to = match words::find_next_word_start(&state.snapshot, state.cursor) {
                Some(p) => p,
                None => position::last_cursor_point(&state.snapshot),
            };
            put_cursor(state, to, width, height);
        },
        None => {},
    }
}

/// Moves the cursor to the last character of a word, nowhere where there is none.
pub fn move_word_end(pane: &mut Pane)
    requires
        old(pane).sound(),
    ensures
        final(pane).same_pane(*old(pane)),
        final(pane).sound(),
        final(pane).copy() == (match old(pane).copy() {
            None => None,
            Some(s) => {
                let laid = position::relaid(s, old(pane).width(), old(pane).height());
                let to = match words::word_end(laid.snapshot, laid.cursor) {
                    Some(p) => p,
                    None => laid.cursor,
                };
                Some(position::cursor_put(laid, to, old(pane).width(), old(pane).height()))
            },
        }),
{
    let (width, height) = layout_size(pane);
    match &mut pane.copy_state {
        Some(state) => {
            position::rebuild_wrapped(state, width, height);
            let to = match words::find_word_end(&state.snapshot, state.cursor) {
                Some(p) => p,
                None => state.cursor,
            };
            put_cursor(state, to, width, height);
        },
        None => {},
    }
}

/// The state with a selection begun at the cursor.
pub open spec fn selecting(s: CopyStateV, mode: SelectionMode, width: int, height: int) -> CopyStateV {
    position::scrolled_to_cursor(
        position::relaid(CopyStateV { anchor: Some(s.cursor), selection_mode: mode, ..s }, width, height),
        height,
    )
}

/// Begins a selection at the cursor.
pub fn start_selection(pane: &mut Pane, mode: SelectionMode)
    requires
        old(pane).sound(),
    ensures
        final(pane).same_pane(*old(pane)),
        final(pane).sound(),
        final(pane).copy() == (match old(pane).copy() {
            None => None,
            Some(s) => {
                let laid = position::relaid(s, old(pane).width(), old(pane).height());
                Some(selecting(laid, mode, old(pane).width(), old(pane).height()))
            },
        }),
{
    let (width, height) = layout_size(pane);
    match &mut pane.copy_state {
        Some(state) => {
            position::rebuild_wrapped(state, width, height);
            let ghost laid = state@;
            state.anchor = Some(state.cursor);
            state.selection_mode = mode;
            proof {
                assert(state@ =~= CopyStateV {
                    anchor: Some(laid.cursor),
                    selection_mode: mode,
                    ..laid
                });
            }
            position::rebuild_wrapped(state, width, height);
            position::ensure_cursor_visible(state, height);
        },
        None => {},
    }
}

/// Drops the selection.
pub fn clear_selection(pane: &mut Pane)
    requires
        old(pane).sound(),
    ensures
        final(pane).same_pane(*old(pane)),
        final(pane).sound(),
        final(pane).copy() == (match old(pane).copy() {
            None => None,
            Some(s) => Some(CopyStateV { anchor: None, ..s }),
        }),
{
    match &mut pane.copy_state {
        Some(state) => {
            let ghost before = state@;
            state.anchor = None;
            proof {
                assert(state@ =~= CopyStateV { anchor: None, ..before });
            }
        },
        None => {},
    }
}

fn jump_to_match(state: &mut CopyModeState, width: usize, height: usize)
    requires
        position::state_ok(old(state)@),
        matches_ok(old(state)@),
        old(state)@.anchor matches Some(a) ==> a.line < old(state)@.snapshot.lines.len(),
    ensures
        final(state)@ == jumped(old(state)@, width as int, height as int),
        copy_ok(final(state)@),
{
    position::rebuild_wrapped(state, width, height);
    if state.search_idx < state.search_matches.len() {
        let ghost laid = state@;
        let m = state.search_matches[state.search_idx];
        state.cursor = CopyPoint { line: m.line, col: m.start };
        let ghost moved = state@;
        proof {
            assert(moved =~= CopyStateV {
                cursor: CopyPoint { line: m.line, col: m.start },
                ..laid
            });
        }
        state.preferred_column = position::current_display_position(state).1;
        proof {
            assert(state@ =~= position::with_column(moved));
        }
        position::ensure_cursor_visible(state, height);
    }
}

/// Looks for a text and moves the cursor to the nearest occurrence in the given direction. False
/// where there is none, or outside copy mode.
pub fn search(pane: &mut Pane, query: String, forward: bool) -> (r: bool)
    requires
        old(pane).sound(),
    ensures
        final(pane).same_pane(*old(pane)),
        final(pane).sound(),
        final(pane).copy() == (match old(pane).copy() {
            None => None,
            Some(s) => Some(
                searched(s, query@, forward, old(pane).width(), old(pane).height()),
            ),
        }),
        r == (old(pane).copy() matches Some(s) && find::all_matches(s.snapshot, query@).len() > 0),
{
    let (width, height) = layout_size(pane);
    match &mut pane.copy_state {
        Some(state) => {
            let ghost before = state@;
            state.search_query = query;
            state.search_forward = forward;
            state.search_matches = find::build_search_matches(
                &state.snapshot,
                state.search_query.as_str(),
            );
            if state.search_matches.len() == 0 {
                state.search_idx = 0;
                proof {
                    assert(state@ =~= searched(
                        before,
                        query@,
                        forward,
                        width as int,
                        height as int,
                    ));
                }
                false
            } else {
                state.search_idx = find::find_match_index(
                    state.search_matches.as_slice(),
                    state.cursor,
                    forward,
                );
                proof {
                    let matches = find::all_matches(before.snapshot, query@);
                    assert(state@ =~= CopyStateV {
                        search_query: query@,
                        search_forward: forward,
                        search_matches: matches,
                        search_idx: find::first_match(matches, before.cursor, forward) as usize,
                        ..before
                    });
                }
                jump_to_match(state, width, height);
                true
            }
        },
        None => false,
    }
}

fn step_search(pane: &mut Pane, onward: bool) -> (r: bool)
    requires
        old(pane).sound(),
    ensures
        final(pane).same_pane(*old(pane)),
        final(pane).sound(),
        r == (old(pane).copy() matches Some(s) && s.search_matches.len() > 0),
        final(pane).copy() == (match old(pane).copy() {
            None => None,
            Some(s) => Some(stepped(s, onward, old(pane).width(), old(pane).height())),
        }),
{
    let (width, height) = layout_size(pane);
    match &mut pane.copy_state {
        Some(state) => {
            let count: usize = state.search_matches.len();
            if count == 0 {
                return false;
            }
            let ghost before = state@;
            let at: usize = state.search_idx;
            state.search_idx = if onward == state.search_forward {
                if at + 1 == count {
                    0
                } else {
                    at + 1
                }
            } else if at == 0 {
                count - 1
            } else {
                at - 1
            };
            proof {
                assert(state.search_idx == stepped_index(before, onward)) by {
                    if onward == before.search_forward && at + 1 < count {
                        vstd::arithmetic::div_mod::lemma_small_mod((at + 1) as nat, count as nat);
                    } else if onward == before.search_forward {
                        vstd::arithmetic::div_mod::lemma_mod_self_0(count as int);
                    }
                }
                assert(state@ =~= CopyStateV {
                    search_idx: stepped_index(before, onward) as usize,
                    ..before
                });
            }
            jump_to_match(state, width, height);
            true
        },
        None => false,
    }
}

/// Goes on to the next match in the search's direction.
pub fn search_next(pane: &mut Pane) -> (r: bool)
    requires
        old(pane).sound(),
    ensures
        final(pane).same_pane(*old(pane)),
        final(pane).sound(),
        r == (old(pane).copy() matches Some(s) && s.search_matches.len() > 0),
        final(pane).copy() == (match old(pane).copy() {
            None => None,
            Some(s) => Some(stepped(s, true, old(pane).width(), old(pane).height())),
        }),
{
    step_search(pane, true)
}

/// Goes back to the match before, against the search's direction.
pub fn search_prev(pane: &mut Pane) -> (r: bool)
    requires
        old(pane).sound(),
    ensures
        final(pane).same_pane(*old(pane)),
        final(pane).sound(),
        r == (old(pane).copy() matches Some(s) && s.search_matches.len() > 0),
        final(pane).copy() == (match old(pane).copy() {
            None => None,
            Some(s) => Some(stepped(s, false, old(pane).width(), old(pane).height())),
        }),
{
    step_search(pane, false)
}

/// The text that the selection covers, empty without one.
pub fn yank_selection(pane: &mut Pane) -> (r: String)
    requires
        old(pane).sound(),
    ensures
        *final(pane) == *old(pane),
        r@ == (match old(pane).copy() {
            Some(s) => yank::selected_text(s),
            None => Seq::empty(),
        }),
{
    match &pane.copy_state {
        Some(state) => yank::selection_text(state),
        None => String::new(),
    }
}

/// What copy mode shows; nothing outside it, and nothing while the rows are laid out for another
/// width.
pub fn render_view(pane: &Pane) -> (r: Option<CopyRenderView>)
    requires
        pane.sound(),
    ensures
        (match r {
            Some(v) => Some(v@),
            None => None,
        }) == (match pane.copy() {
            Some(s) => if s.wrapped.width == pane.width() {
                Some(render::view_of(s, pane.height()))
            } else {
                None
            },
            None => None,
        }),
{
    let (width, height) = layout_size(pane);
    match &pane.copy_state {
        Some(state) => {
            if state.wrapped.width != width {
                None
            } else {
                Some(render::render_state(state, height))
            }
        },
        None => None,
    }
}

/// Laying out twice is laying out once.
pub proof fn law_relaid_once(s: CopyStateV, width: int, height: int)
    requires
        s.snapshot.lines.len() > 0,
        s.wrapped.rows.len() > 0 || wrap::wrapped(s.snapshot, text::max_int(width, 1) as usize).rows.len() > 0,
        width <= usize::MAX,
        0 <= s.snapshot.lines.len() <= usize::MAX,
        model::line_len(s.snapshot, text::min_int(s.cursor.line as int, s.snapshot.lines.len() - 1)) <= usize::MAX,
    ensures
        position::relaid(position::relaid(s, width, height), width, height) == position::relaid(s, width, height),
{
    let once = position::relaid(s, width, height);
    assert(position::clamped(s.snapshot, once.cursor) == once.cursor);
    assert(position::relaid(once, width, height) =~= once);
}

/// Laying out anew for a width changes only the rows: the text, the selection's other end and what was
/// searched for stay, and the cursor stays at its character.
pub proof fn law_relaying_keeps_the_text(s: CopyStateV, width: int, height: int)
    ensures
        ({
            let r = position::relaid(s, width, height);
            &&& r.snapshot == s.snapshot
            &&& r.anchor == s.anchor
            &&& r.search_query == s.search_query
            &&& r.search_matches == s.search_matches
            &&& position::clamped(s.snapshot, s.cursor) == s.cursor ==> r.cursor == s.cursor
        }),
{
}

/// After a move, the cursor's row is among the rows on screen.
pub proof fn law_cursor_is_on_screen(s: CopyStateV, height: int)
    requires
        copy_ok(s),
    ensures
        ({
            let shown = position::scrolled_to_cursor(s, height);
            shown.scroll_top <= cursor_row(shown) < shown.scroll_top + text::max_int(height, 1)
        }),
{
}

/// Going on to the next match and back again ends at the same match, and so does going back and
/// on again.
pub proof fn law_search_steps_undo(s: CopyStateV, onward: bool)
    requires
        matches_ok(s),
        0 < s.search_matches.len() <= usize::MAX,
    ensures
        ({
            let once = CopyStateV { search_idx: stepped_index(s, onward) as usize, ..s };
            stepped_index(once, !onward) == s.search_idx
        }),
{
    let count = s.search_matches.len() as int;
    let at = s.search_idx as int;
    if at + 1 < count {
        vstd::arithmetic::div_mod::lemma_small_mod((at + 1) as nat, count as nat);
    } else {
        vstd::arithmetic::div_mod::lemma_mod_self_0(count);
    }
    if at > 0 {
        vstd::arithmetic::div_mod::lemma_small_mod(at as nat, count as nat);
    } else {
        vstd::arithmetic::div_mod::lemma_mod_self_0(count);
    }
}

} // verus!
