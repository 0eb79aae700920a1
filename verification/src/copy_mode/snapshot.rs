//! Reading a pane's text back from a terminal screen.

use crate::copy_mode::position;
use crate::text;
use crate::copy_mode::model::{CopySnapshotSource, LineV, PaneTextSnapshot, SnapshotLine, SnapshotV};
use vstd::prelude::*;

verus! {

/// A terminal screen with its scrollback, as `vt100` keeps it.
#[verifier::external_type_specification]
#[verifier::external_body]
pub struct ExScreen(vt100::Screen);

/// The rows of a screen from the oldest of the scrollback to the last one of the grid: the text in
/// the screen's columns, of which one is taken where there is none, and whether the row runs on
/// into the next one.
pub uninterp spec fn screen_rows(s: vt100::Screen) -> Seq<(Seq<char>, bool)>;

/// How many of these rows are scrollback.
pub uninterp spec fn screen_history(s: vt100::Screen) -> usize;

/// How many rows of scrollback are scrolled into view.
pub uninterp spec fn screen_offset(s: vt100::Screen) -> usize;

/// Rows and columns.
pub uninterp spec fn screen_size(s: vt100::Screen) -> (u16, u16);

/// Row and column of the cursor.
pub uninterp spec fn screen_cursor(s: vt100::Screen) -> (u16, u16);

/// Whether the alternate screen is in use.
pub uninterp spec fn screen_alternate(s: vt100::Screen) -> bool;

/// Whether two screens are the same but for what is scrolled into view.
pub open spec fn same_screen(a: vt100::Screen, b: vt100::Screen) -> bool {
    &&& screen_rows(a) == screen_rows(b)
    &&& screen_history(a) == screen_history(b)
    &&& screen_size(a) == screen_size(b)
    &&& screen_cursor(a) == screen_cursor(b)
    &&& screen_alternate(a) == screen_alternate(b)
}

/// `vt100::Screen::scrollback`: how many rows are scrolled into view, never more than there are.
#[verifier::external_body]
fn scrollback(screen: &vt100::Screen) -> (r: usize)
    ensures
        r == screen_offset(*screen),
        r <= screen_history(*screen) <= screen_rows(*screen).len(),
{
    screen.scrollback()
}

/// `vt100::Screen::set_scrollback`: scrolls that many rows into view, or all there are, and
/// changes nothing else.
#[verifier::external_body]
fn set_scrollback(screen: &mut vt100::Screen, rows: usize)
    ensures
        same_screen(*final(screen), *old(screen)),
        screen_offset(*final(screen)) == text::min_int(rows as int, screen_history(*old(screen)) as int),
{
    screen.set_scrollback(rows)
}

/// `vt100::Screen::size`: rows and columns.
#[verifier::external_body]
fn size(screen: &vt100::Screen) -> (r: (u16, u16))
    ensures
        r == screen_size(*screen),
{
    screen.size()
}

/// `vt100::Screen::cursor_position`: row and column of the cursor.
#[verifier::external_body]
fn cursor_position(screen: &vt100::Screen) -> (r: (u16, u16))
    ensures
        r == screen_cursor(*screen),
{
    screen.cursor_position()
}

/// `vt100::Screen::alternate_screen`: whether the alternate screen is in use.
#[verifier::external_body]
fn alternate_screen(screen: &vt100::Screen) -> (r: bool)
    ensures
        r == screen_alternate(*screen),
{
    screen.alternate_screen()
}

/// The rows in view: as many as the grid has, counted from the top of what is scrolled in.
pub open spec fn row_in_view(s: vt100::Screen, row: int) -> Option<(Seq<char>, bool)> {
    let index = screen_history(s) - screen_offset(s) + row;
    if 0 <= row < screen_rows(s).len() - screen_history(s) {
        Some(screen_rows(s)[index])
    } else {
        None
    }
}

/// `vt100::Screen::rows`: the text of one of the rows in view, over all the screen's columns, and
/// over one column of a screen that has none.
#[verifier::external_body]
fn row_text(screen: &vt100::Screen, row: u16, cols: u16) -> (r: Option<String>)
    requires
        cols == text::max_int(screen_size(*screen).1 as int, 1),
    ensures
        r is Some <==> row_in_view(*screen, row as int) is Some,
        r matches Some(t) ==> row_in_view(*screen, row as int) matches Some(x) && t@ == x.0,
{
    screen.rows(0, cols).nth(usize::from(row))
}

/// `vt100::Screen::row_wrapped`: whether one of the rows in view runs on into the next one.
#[verifier::external_body]
fn row_wrapped(screen: &vt100::Screen, row: u16) -> (r: bool)
    ensures
        r == (row_in_view(*screen, row as int) matches Some(x) && x.1),
{
    screen.row_wrapped(row)
}

/// The rows of a new screen of the given size and scrollback after it has taken in some output.
pub uninterp spec fn replayed_rows(rows: u16, cols: u16, scrollback: usize, output: Seq<u8>) -> Seq<
    (Seq<char>, bool),
>;

/// How many of these rows are scrollback, and where the cursor is.
pub uninterp spec fn replayed_place(rows: u16, cols: u16, scrollback: usize, output: Seq<u8>) -> (
    usize,
    (u16, u16),
);

/// `vt100::Parser::process` on a new parser: the screen that some output leaves behind. What the
/// rows hold and where the cursor ends up is `vt100`'s emulation of a terminal; the size is the
/// one asked for, and nothing is scrolled into view. (`process` can panic on other sizes: a single
/// column has no room for a wide character, a single row none for the row that a text runs on from,
/// and a tab goes eight columns on from any column before it is cut back to the last one.)
#[verifier::external_body]
fn replay(rows: u16, cols: u16, scrollback_len: usize, output: &[u8]) -> (r: vt100::Screen)
    requires
        rows > 1,
        1 < cols <= 65527,
    ensures
        screen_rows(r) == replayed_rows(rows, cols, scrollback_len, output@),
        (screen_history(r), screen_cursor(r)) == replayed_place(
            rows,
            cols,
            scrollback_len,
            output@,
        ),
        screen_size(r) == (rows, cols),
        screen_offset(r) == 0,
{
    let mut parser = vt100::Parser::new(rows, cols, scrollback_len);
    parser.process(output);
    parser.screen().clone()
}

/// One row as it is kept: text without the blanks behind it, and whether it runs on.
#[derive(Debug)]
pub struct ScreenSnapshotRow {
    pub text: String,
    pub wrapped: bool,
}

impl View for ScreenSnapshotRow {
    type V = (Seq<char>, bool);

    open spec fn view(&self) -> (Seq<char>, bool) {
        (self.text@, self.wrapped)
    }
}

pub open spec fn row_views(rows: Seq<ScreenSnapshotRow>) -> Seq<(Seq<char>, bool)> {
    Seq::new(rows.len(), |i: int| rows[i]@)
}

/// A row without the blanks behind its text, but never cut below `width` columns, one for each
/// blank that is taken away.
pub open spec fn unpadded(text: Seq<char>, columns_left: nat, width: nat) -> Seq<char>
    decreases text.len(),
{
    if text.len() > 0 && text.last() == ' ' && columns_left > width {
        unpadded(text.drop_last(), (columns_left - 1) as nat, width)
    } else {
        text
    }
}

/// A row of a screen as it is kept.
pub open spec fn kept_row(row: (Seq<char>, bool), width: nat) -> (Seq<char>, bool) {
    (unpadded(row.0, text::clip(text::columns(row.0)) as nat, width), row.1)
}

/// Rows without the blank ones behind the cursor's row.
pub open spec fn without_blank_tail(rows: Seq<(Seq<char>, bool)>, cursor_row: int) -> Seq<
    (Seq<char>, bool),
>
    decreases rows.len(),
{
    if rows.len() > 0 && rows.len() > cursor_row + 1 && !rows.last().1 && rows.last().0.len() == 0 {
        without_blank_tail(rows.drop_last(), cursor_row)
    } else {
        rows
    }
}

/// Rows put together into lines while they are read: lines so far, the line under way, and the
/// cursor once its row has come.
pub struct Joining {
    pub lines: Seq<LineV>,
    pub open_line: Seq<char>,
    pub cursor: Option<(usize, usize)>,
}

/// The first `n` rows put together: a row that runs on is continued by the next one.
pub open spec fn joining(
    rows: Seq<(Seq<char>, bool)>,
    n: int,
    cursor_row: int,
    cursor_col: int,
) -> Joining
    decreases n,
{
    if n <= 0 {
        Joining { lines: Seq::empty(), open_line: Seq::empty(), cursor: None }
    } else {
        let j = joining(rows, n - 1, cursor_row, cursor_col);
        let row = rows[n - 1];
        let text = j.open_line + row.0;
        Joining {
            lines: if row.1 {
                j.lines
            } else {
                j.lines.push(LineV { text, terminated: n < rows.len() })
            },
            open_line: if row.1 {
                text
            } else {
                Seq::empty()
            },
            cursor: if n - 1 == cursor_row {
                Some(
                    (
                        j.lines.len() as usize,
                        text::clip((j.open_line.len() + position::fitting(row.0, 0, cursor_col)) as nat),
                    ),
                )
            } else {
                j.cursor
            },
        }
    }
}

/// The lines that rows of a screen make up, and the cursor among them. A line still under way at
/// the end is kept; without any row there is one empty line.
pub open spec fn lines_of_rows(
    rows: Seq<(Seq<char>, bool)>,
    cursor_row: int,
    cursor_col: int,
) -> SnapshotV {
    let j = joining(rows, rows.len() as int, cursor_row, cursor_col);
    let open = j.open_line.len() > 0 || j.lines.len() == 0;
    let at = match j.cursor {
        Some(c) => c,
        None => if open {
            (j.lines.len() as usize, j.open_line.len() as usize)
        } else {
            (0usize, 0usize)
        },
    };
    SnapshotV {
        lines: if open {
            j.lines.push(LineV { text: j.open_line, terminated: false })
        } else {
            j.lines
        },
        cursor_line: at.0,
        cursor_col: at.1,
    }
}

/// The rows that are kept of a screen: the scrollback, then the rows of the grid.
pub open spec fn kept_rows(
    rows: Seq<(Seq<char>, bool)>,
    history: usize,
    height: nat,
    cursor: (u16, u16),
) -> Seq<(Seq<char>, bool)> {
    let grid = rows.len() - history;
    let count = if grid <= 0 {
        0
    } else {
        history + text::min_int(text::max_int(height as int, 1), grid)
    };
    Seq::new(
        count as nat,
        |i: int|
            kept_row(
                rows[i],
                if i == history + cursor.0 {
                    cursor.1 as nat
                } else {
                    0
                },
            ),
    )
}

/// The text of a screen of which `history` rows are scrollback.
pub open spec fn screen_text(
    rows: Seq<(Seq<char>, bool)>,
    history: usize,
    height: nat,
    cursor: (u16, u16),
) -> SnapshotV {
    let cursor_row = text::clip((history + cursor.0) as nat) as int;
    lines_of_rows(
        without_blank_tail(kept_rows(rows, history, height, cursor), cursor_row),
        cursor_row,
        cursor.1 as int,
    )
}

/// A row of text without the blanks behind it.
pub fn trim_screen_row(row: &str, min_width: usize) -> (r: String)
    ensures
        r@ == unpadded(row@, text::clip(text::columns(row@)) as nat, min_width as nat),
{
    let mut chars = text::chars_of(row);
    let mut width: usize = text::text_width(chars.as_slice());
    while chars.len() > 0 && chars[chars.len() - 1] == ' ' && width > min_width
        invariant
            unpadded(chars@, width as nat, min_width as nat) == unpadded(
                row@,
                text::clip(text::columns(row@)) as nat,
                min_width as nat,
            ),
        decreases chars@.len(),
    {
        proof {
            assert(chars@.drop_last() =~= chars@.subrange(0, chars@.len() - 1));
        }
        chars.pop();
        width = width - 1;
    }
    text::string_of(chars.as_slice())
}

fn snapshot_visible_row(screen: &vt100::Screen, row: u16, cols: u16, min_width: usize) -> (r: Option<
    ScreenSnapshotRow,
>)
    requires
        cols == text::max_int(screen_size(*screen).1 as int, 1),
    ensures
        r is Some <==> row_in_view(*screen, row as int) is Some,
        r matches Some(x) ==> x@ == kept_row(
            row_in_view(*screen, row as int)->0,
            min_width as nat,
        ),
{
    match row_text(screen, row, cols) {
        None => None,
        Some(text) => Some(
            ScreenSnapshotRow {
                text: trim_screen_row(text.as_str(), min_width),
                wrapped: row_wrapped(screen, row),
            },
        ),
    }
}

/// Takes away the blank rows behind the cursor's row.
pub fn trim_viewport_blank_tail(rows: &mut Vec<ScreenSnapshotRow>, cursor_row: usize)
    ensures
        row_views(final(rows)@) == without_blank_tail(row_views(old(rows)@), cursor_row as int),
{
    let ghost all = row_views(rows@);
    loop
        invariant
            without_blank_tail(row_views(rows@), cursor_row as int) == without_blank_tail(
                all,
                cursor_row as int,
            ),
        ensures
            row_views(rows@) == without_blank_tail(all, cursor_row as int),
        decreases rows@.len(),
    {
        let n: usize = rows.len();
        if n == 0 || n - 1 <= cursor_row {
            break ;
        }
        proof {
            assert(row_views(rows@).last() == rows@[n - 1]@);
            assert(row_views(rows@).drop_last() =~= row_views(rows@.subrange(0, n - 1)));
        }
        if rows[n - 1].wrapped || !rows[n - 1].text.as_str().is_empty() {
            break ;
        }
        rows.pop();
        proof {
            assert(rows@ =~= rows@.subrange(0, n - 1));
        }
    }
}

/// The lines that rows of a screen make up, and the cursor among them.
pub fn snapshot_from_physical_rows(rows: &[ScreenSnapshotRow], cursor_row: usize, cursor_col: usize)
    -> (r: PaneTextSnapshot)
    ensures
        r@ == lines_of_rows(row_views(rows@), cursor_row as int, cursor_col as int),
        r@.lines.len() > 0,
{
    let n: usize = rows.len();
    let ghost all = row_views(rows@);
    let mut lines: Vec<SnapshotLine> = Vec::new();
    let mut open_line = String::new();
    let mut at: Option<(usize, usize)> = None;
    proof {
        assert(line_views(lines) =~= Seq::empty());
    }
    let mut i: usize = 0;
    while i < n
        invariant
            n == rows@.len(),
            all == row_views(rows@),
            i <= n,
            ({
                let j = joining(all, i as int, cursor_row as int, cursor_col as int);
                j.lines == line_views(lines) && j.open_line == open_line@ && j.cursor == at
            }),
        decreases n - i,
    {
        let row = &rows[i];
        proof {
            assert(all[i as int] == row@);
        }
        if i == cursor_row {
            let chars = text::chars_of(row.text.as_str());
            let before: usize = open_line.as_str().unicode_len();
            let inside: usize = position::char_index_for_display_col(chars.as_slice(), cursor_col);
            at = Some((lines.len(), before.saturating_add(inside)));
        }
        open_line.append(row.text.as_str());
        if !row.wrapped {
            let ghost before = line_views(lines);
            let line = SnapshotLine { text: open_line, terminated: i + 1 < n };
            let ghost line_v = line@;
            lines.push(line);
            open_line = String::new();
            proof {
                assert(line_views(lines) =~= before.push(line_v));
            }
        }
        i = i + 1;
    }
    let mut cursor_line: usize = 0;
    let mut cursor_chars: usize = 0;
    if let Some((l, c)) = at {
        cursor_line = l;
        cursor_chars = c;
    }
    if !open_line.as_str().is_empty() || lines.len() == 0 {
        if at.is_none() {
            cursor_line = lines.len();
            cursor_chars = open_line.as_str().unicode_len();
        }
        let ghost before = line_views(lines);
        let line = SnapshotLine { text: open_line, terminated: false };
        let ghost line_v = line@;
        lines.push(line);
        proof {
            assert(line_views(lines) =~= before.push(line_v));
        }
    }
    let r = PaneTextSnapshot { lines, cursor_line, cursor_col: cursor_chars };
    proof {
        assert(r@.lines =~= line_views(r.lines));
        assert(r@ =~= lines_of_rows(all, cursor_row as int, cursor_col as int));
    }
    r
}

spec fn line_views(lines: Vec<SnapshotLine>) -> Seq<LineV> {
    Seq::new(lines@.len(), |i: int| lines@[i]@)
}

/// The text of a screen, scrollback included. The screen is scrolled while it is read and left as
/// it was.
pub fn snapshot_from_screen(screen: &mut vt100::Screen) -> (r: PaneTextSnapshot)
    ensures
        r@ == screen_text(
            screen_rows(*old(screen)),
            screen_history(*old(screen)),
            screen_size(*old(screen)).0 as nat,
            screen_cursor(*old(screen)),
        ),
        r@.lines.len() > 0,
        same_screen(*final(screen), *old(screen)),
        screen_offset(*final(screen)) == screen_offset(*old(screen)),
{
    let ghost before = *screen;
    let ghost all = screen_rows(*screen);
    let original: usize = scrollback(screen);
    set_scrollback(screen, usize::MAX);
    let history: usize = scrollback(screen);
    set_scrollback(screen, 0);
    let (height, cols) = size(screen);
    let height: u16 = if height < 1 {
        1
    } else {
        height
    };
    let cols: u16 = if cols < 1 {
        1
    } else {
        cols
    };
    let (cursor_row, cursor_col) = cursor_position(screen);
    let cursor_physical_row: usize = history.saturating_add(cursor_row as usize);
    let ghost kept = kept_rows(all, history, height as nat, (cursor_row, cursor_col));
    let mut rows: Vec<ScreenSnapshotRow> = Vec::new();
    proof {
        assert(row_views(rows@) =~= kept.take(0));
        assert(kept_rows(
            all,
            screen_history(before),
            screen_size(before).0 as nat,
            screen_cursor(before),
        ) =~= kept);
    }
    let mut offset: usize = history;
    while offset > 0
        invariant
            same_screen(*screen, before),
            all == screen_rows(before),
            history == screen_history(before),
            offset <= history <= all.len(),
            cols == text::max_int(screen_size(before).1 as int, 1),
            height >= 1,
            kept == kept_rows(all, history, height as nat, (cursor_row, cursor_col)),
            all.len() > history ==> row_views(rows@) == kept.take(history - offset),
            all.len() <= history ==> rows@.len() == 0,
        decreases offset,
    {
        set_scrollback(screen, offset);
        let ghost seen = rows@;
        if let Some(row) = snapshot_visible_row(screen, 0, cols, 0) {
            let ghost row_v = row@;
            rows.push(row);
            proof {
                let at = history - offset;
                assert(row_views(rows@) =~= row_views(seen).push(row_v));
                assert(kept[at] == row_v);
                assert(kept.take(at + 1) =~= kept.take(at).push(row_v));
            }
        }
        offset = offset - 1;
    }
    set_scrollback(screen, 0);
    let mut i: u16 = 0;
    while i < height
        invariant
            same_screen(*screen, before),
            screen_offset(*screen) == 0,
            all == screen_rows(before),
            history == screen_history(before),
            history <= all.len(),
            cols == text::max_int(screen_size(before).1 as int, 1),
            i <= height,
            height >= 1,
            kept == kept_rows(all, history, height as nat, (cursor_row, cursor_col)),
            all.len() > history ==> row_views(rows@) == kept.take(
                history + text::min_int(i as int, all.len() - history),
            ),
            all.len() <= history ==> rows@.len() == 0,
        decreases height - i,
    {
        let min_width: usize = if i == cursor_row {
            cursor_col as usize
        } else {
            0
        };
        let ghost seen = rows@;
        if let Some(row) = snapshot_visible_row(screen, i, cols, min_width) {
            let ghost row_v = row@;
            rows.push(row);
            proof {
                let at = history + i;
                assert(row_views(rows@) =~= row_views(seen).push(row_v));
                assert(kept[at] == row_v);
                assert(kept.take(at + 1) =~= kept.take(at).push(row_v));
            }
        }
        i = i + 1;
    }
    proof {
        if all.len() > history {
            assert(kept.take(history + text::min_int(i as int, all.len() - history)) =~= kept);
        } else {
            assert(row_views(rows@) =~= kept);
        }
    }
    trim_viewport_blank_tail(&mut rows, cursor_physical_row);
    set_scrollback(screen, original);
    snapshot_from_physical_rows(rows.as_slice(), cursor_physical_row, cursor_col as usize)
}

/// The screen that replayed output is read from: wide enough not to wrap most lines, and at least
/// an ordinary terminal's height.
pub open spec fn ring_text(output: Seq<u8>, last_rows: u16) -> SnapshotV {
    let rows = text::max_int(last_rows as int, 24) as u16;
    let place = replayed_place(rows, 500, 2000, output);
    screen_text(replayed_rows(rows, 500, 2000, output), place.0, rows as nat, place.1)
}

/// The text that replaying a pane's recent output gives; nothing where there is no output.
pub fn snapshot_from_output_ring(output: &[u8], last_rows: u16) -> (r: Option<PaneTextSnapshot>)
    ensures
        r is None <==> output@.len() == 0,
        r matches Some(s) ==> s@ == ring_text(output@, last_rows) && s@.lines.len() > 0,
{
    if output.len() == 0 {
        return None;
    }
    let rows: u16 = if last_rows < 24 {
        24
    } else {
        last_rows
    };
    let mut screen = replay(rows, 500, 2000, output);
    Some(snapshot_from_screen(&mut screen))
}

/// Which of the two snapshots copy mode reads: the one of the terminal where there is one.
pub open spec fn chosen_snapshot(
    buffer: Option<SnapshotV>,
    parser: Option<SnapshotV>,
) -> Option<(CopySnapshotSource, SnapshotV)> {
    match (parser, buffer) {
        (Some(p), _) => Some((CopySnapshotSource::Parser, p)),
        (None, Some(b)) => Some((CopySnapshotSource::Buffer, b)),
        (None, None) => None,
    }
}

/// What an optional snapshot stands for.
pub open spec fn snapshot_view(s: Option<PaneTextSnapshot>) -> Option<SnapshotV> {
    match s {
        Some(x) => Some(x@),
        None => None,
    }
}

/// What an optional buffer snapshot stands for, whether or not the buffer reflows.
pub open spec fn buffer_view(s: Option<(bool, PaneTextSnapshot)>) -> Option<SnapshotV> {
    match s {
        Some(x) => Some(x.1@),
        None => None,
    }
}

/// Chooses between the text buffer's and the terminal's snapshot: the terminal's where there is
/// one, whether or not the alternate screen is in use and whichever was read before.
pub fn select_snapshot_for_copy_mode(
    buffer_snapshot: Option<(bool, PaneTextSnapshot)>,
    parser_snapshot: Option<PaneTextSnapshot>,
    alternate_screen: bool,
    preferred_source: Option<CopySnapshotSource>,
) -> (r: Option<(CopySnapshotSource, PaneTextSnapshot)>)
    ensures
        (match r {
            Some(x) => Some((x.0, x.1@)),
            None => None,
        }) == chosen_snapshot(buffer_view(buffer_snapshot), snapshot_view(parser_snapshot)),
{
    if let Some(snapshot) = parser_snapshot {
        return Some((CopySnapshotSource::Parser, snapshot));
    }
    match buffer_snapshot {
        Some((_, snapshot)) => Some((CopySnapshotSource::Buffer, snapshot)),
        None => None,
    }
}

/// Whether the alternate screen is in use; not where there is no screen.
pub fn in_alternate_screen(screen: &Option<vt100::Screen>) -> (r: bool)
    ensures
        r == (*screen matches Some(s) && screen_alternate(s)),
{
    match screen {
        Some(s) => alternate_screen(s),
        None => false,
    }
}

} // verus!
