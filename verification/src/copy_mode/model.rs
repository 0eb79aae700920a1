//! The data of copy mode and what it stands for.

use vstd::prelude::*;

verus! {

/// A place in the text: a line, and a character of that line or its end.
#[derive(Clone, Copy, Debug, PartialEq, Eq, Structural)]
pub struct CopyPoint {
    pub line: usize,
    pub col: usize,
}

/// Where the text of a snapshot was read from.
#[derive(Clone, Copy, Debug, PartialEq, Eq, Structural)]
pub enum CopySnapshotSource {
    Parser,
    Buffer,
}

/// What a selection covers between its two ends.
#[derive(Clone, Copy, Debug, PartialEq, Eq, Structural)]
pub enum SelectionMode {
    Char,
    Line,
    Rect,
}

/// One logical line of a pane.
#[derive(Debug)]
pub struct SnapshotLine {
    pub text: String,
    pub terminated: bool,
}

/// The logical lines of a pane and its cursor among them.
#[derive(Debug)]
pub struct PaneTextSnapshot {
    pub lines: Vec<SnapshotLine>,
    pub cursor_line: usize,
    pub cursor_col: usize,
}

/// One row on screen: the characters `start_col..end_col` of a line.
#[derive(Debug)]
pub struct WrappedRow {
    pub line: usize,
    pub start_col: usize,
    pub end_col: usize,
    pub text: String,
}

/// A snapshot laid out for a width, with the rows that each line takes.
#[derive(Debug)]
pub struct WrappedSnapshot {
    pub width: usize,
    pub rows: Vec<WrappedRow>,
    pub line_ranges: Vec<(usize, usize)>,
}

/// An occurrence of the search text.
#[derive(Clone, Copy, Debug, PartialEq, Eq, Structural)]
pub struct SearchMatch {
    pub line: usize,
    pub start: usize,
    pub end: usize,
}

/// What copy mode remembers of one pane.
#[derive(Debug)]
pub struct CopyModeState {
    pub snapshot: PaneTextSnapshot,
    pub snapshot_source: CopySnapshotSource,
    pub wrapped: WrappedSnapshot,
    pub cursor: CopyPoint,
    pub anchor: Option<CopyPoint>,
    pub selection_mode: SelectionMode,
    pub scroll_top: usize,
    pub preferred_column: usize,
    pub search_query: String,
    pub search_forward: bool,
    pub search_matches: Vec<SearchMatch>,
    pub search_idx: usize,
}

#[verifier::ext_equal]
pub struct LineV {
    pub text: Seq<char>,
    pub terminated: bool,
}

#[verifier::ext_equal]
pub struct SnapshotV {
    pub lines: Seq<LineV>,
    pub cursor_line: usize,
    pub cursor_col: usize,
}

#[verifier::ext_equal]
pub struct RowV {
    pub line: usize,
    pub start_col: usize,
    pub end_col: usize,
    pub text: Seq<char>,
}

#[verifier::ext_equal]
pub struct WrappedV {
    pub width: usize,
    pub rows: Seq<RowV>,
    pub line_ranges: Seq<(usize, usize)>,
}

#[verifier::ext_equal]
pub struct CopyStateV {
    pub snapshot: SnapshotV,
    pub snapshot_source: CopySnapshotSource,
    pub wrapped: WrappedV,
    pub cursor: CopyPoint,
    pub anchor: Option<CopyPoint>,
    pub selection_mode: SelectionMode,
    pub scroll_top: usize,
    pub preferred_column: usize,
    pub search_query: Seq<char>,
    pub search_forward: bool,
    pub search_matches: Seq<SearchMatch>,
    pub search_idx: usize,
}

impl View for SnapshotLine {
    type V = LineV;

    open spec fn view(&self) -> LineV {
        LineV { text: self.text@, terminated: self.terminated }
    }
}

impl View for PaneTextSnapshot {
    type V = SnapshotV;

    open spec fn view(&self) -> SnapshotV {
        SnapshotV {
            lines: Seq::new(self.lines@.len(), |i: int| self.lines@[i]@),
            cursor_line: self.cursor_line,
            cursor_col: self.cursor_col,
        }
    }
}

impl View for WrappedRow {
    type V = RowV;

    open spec fn view(&self) -> RowV {
        RowV {
            line: self.line,
            start_col: self.start_col,
            end_col: self.end_col,
            text: self.text@,
        }
    }
}

impl View for WrappedSnapshot {
    type V = WrappedV;

    open spec fn view(&self) -> WrappedV {
        WrappedV {
            width: self.width,
            rows: Seq::new(self.rows@.len(), |i: int| self.rows@[i]@),
            line_ranges: self.line_ranges@,
        }
    }
}

impl View for CopyModeState {
    type V = CopyStateV;

    open spec fn view(&self) -> CopyStateV {
        CopyStateV {
            snapshot: self.snapshot@,
            snapshot_source: self.snapshot_source,
            wrapped: self.wrapped@,
            cursor: self.cursor,
            anchor: self.anchor,
            selection_mode: self.selection_mode,
            scroll_top: self.scroll_top,
            preferred_column: self.preferred_column,
            search_query: self.search_query@,
            search_forward: self.search_forward,
            search_matches: self.search_matches@,
            search_idx: self.search_idx,
        }
    }
}

/// The text of a line of a snapshot.
pub open spec fn line_text(snapshot: SnapshotV, line: int) -> Seq<char> {
    snapshot.lines[line].text
}

/// Characters in a line, none where there is no such line.
pub open spec fn line_len(snapshot: SnapshotV, line: int) -> nat {
    if 0 <= line < snapshot.lines.len() {
        snapshot.lines[line].text.len()
    } else {
        0
    }
}

/// Copy mode as it begins on a snapshot: the cursor where the pane had it, nothing selected and
/// nothing searched for.
pub open spec fn fresh_state(snapshot: SnapshotV, source: CopySnapshotSource) -> CopyStateV {
    CopyStateV {
        snapshot,
        snapshot_source: source,
        wrapped: WrappedV { width: 0, rows: Seq::empty(), line_ranges: Seq::empty() },
        cursor: CopyPoint { line: snapshot.cursor_line, col: snapshot.cursor_col },
        anchor: None,
        selection_mode: SelectionMode::Char,
        scroll_top: 0,
        preferred_column: 0,
        search_query: Seq::empty(),
        search_forward: true,
        search_matches: Seq::empty(),
        search_idx: 0,
    }
}

impl CopyModeState {
    /// Copy mode on a snapshot read from the given source.
    pub fn new_with_source(snapshot: PaneTextSnapshot, source: CopySnapshotSource) -> (r: Self)
        ensures
            r@ == fresh_state(snapshot@, source),
    {
        let cursor = CopyPoint { line: snapshot.cursor_line, col: snapshot.cursor_col };
        CopyModeState {
            snapshot,
            snapshot_source: source,
            wrapped: WrappedSnapshot { width: 0, rows: Vec::new(), line_ranges: Vec::new() },
            cursor,
            anchor: None,
            selection_mode: SelectionMode::Char,
            scroll_top: 0,
            preferred_column: 0,
            search_query: String::new(),
            search_forward: true,
            search_matches: Vec::new(),
            search_idx: 0,
        }
    }

    /// Copy mode on a snapshot of the pane's own text buffer.
    pub fn new(snapshot: PaneTextSnapshot) -> (r: Self)
        ensures
            r@ == fresh_state(snapshot@, CopySnapshotSource::Buffer),
    {
        CopyModeState::new_with_source(snapshot, CopySnapshotSource::Buffer)
    }
}

} // verus!
