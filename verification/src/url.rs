//! Links in a pane's text.

use crate::commands;
use crate::draw;
use crate::frame;
use crate::geometry;
use crate::selection;
use crate::text;
use crate::frame::{FrameData, LayoutJson};
use crate::geometry::Rect;
use vstd::prelude::*;

verus! {

/// The places where a pattern matches a text, in order and without overlap: each with the text in
/// front of it and the matched text. None where the pattern cannot be read.
pub uninterp spec fn pattern_matches(pattern: Seq<char>, line: Seq<char>) -> Option<
    Seq<(Seq<char>, Seq<char>)>,
>;

pub open spec fn match_texts(v: Seq<(String, String)>) -> Seq<(Seq<char>, Seq<char>)> {
    Seq::new(v.len(), |i: int| (v[i].0@, v[i].1@))
}

pub open spec fn found_texts(r: Option<Vec<(String, String)>>) -> Option<
    Seq<(Seq<char>, Seq<char>)>,
> {
    match r {
        Some(v) => Some(match_texts(v@)),
        None => None,
    }
}

/// Whether a text begins with another.
pub open spec fn is_start(head: Seq<char>, line: Seq<char>) -> bool {
    head.len() <= line.len() && line.take(head.len() as int) == head
}

/// `Regex::new` and `Regex::find_iter` of the `regex` crate: the successive matches of a pattern,
/// each given as the text in front of it and the match itself. Both stand in the text where they
/// are said to.
#[verifier::external_body]
fn find_matches(pattern: &str, line: &str) -> (r: Option<Vec<(String, String)>>)
    ensures
        found_texts(r) == pattern_matches(pattern@, line@) && (r matches Some(v) ==> forall|i: int|
            0 <= i < v@.len() ==> is_start((#[trigger] v@[i]).0@ + v@[i].1@, line@)),
{
    let re = regex::Regex::new(pattern).ok()?;
    Some(
        re.find_iter(line).map(
            |m| (line[..m.start()].to_string(), m.as_str().to_string()),
        ).collect(),
    )
}

/// The pattern of a link: the protocol, and what follows up to white space, a bracket or a quote.
pub open spec fn link_pattern() -> Seq<char> {
    "https?://[^\\s<>\"'()\\[\\]{}|\\\\^`\\x{FF08}\\x{FF09}\\x{3001}\\x{3002}\\x{FF0C}\\x{FF1B}]+"@
}

/// Punctuation that ends a sentence rather than a link.
pub open spec fn closing_mark(c: char) -> bool {
    c == '.' || c == ',' || c == ';' || c == ':' || c == '!' || c == '?'
}

/// A link without the punctuation at its end.
pub open spec fn bare_link(s: Seq<char>) -> Seq<char>
    decreases s.len(),
{
    if s.len() > 0 && closing_mark(s.last()) {
        bare_link(s.drop_last())
    } else {
        s
    }
}

/// Whether a match covers a column.
pub open spec fn covers_column(m: (Seq<char>, Seq<char>), col: int) -> bool {
    text::clip(text::columns(m.0)) <= col < text::clip(text::columns(m.0) + text::columns(m.1))
}

/// The link that covers a column, from the match `i` on.
pub open spec fn link_at(matches: Seq<(Seq<char>, Seq<char>)>, col: int, i: int) -> Option<Seq<char>>
    decreases matches.len() - i,
{
    if i < 0 || i >= matches.len() {
        None
    } else if covers_column(matches[i], col) {
        Some(bare_link(matches[i].1))
    } else {
        link_at(matches, col, i + 1)
    }
}

/// The link that covers a column, among the links of a line.
pub fn link_at_column(matches: &Vec<(String, String)>, col: usize) -> (r: Option<String>)
    ensures
        commands::opt_text(r) == link_at(match_texts(matches@), col as int, 0),
{
    let ghost all = match_texts(matches@);
    let mut i: usize = 0;
    while i < matches.len()
        invariant
            i <= matches@.len(),
            all == match_texts(matches@),
            link_at(all, col as int, i as int) == link_at(all, col as int, 0),
        decreases matches@.len() - i,
    {
        proof {
            assert(all[i as int] == (matches@[i as int].0@, matches@[i as int].1@));
        }
        let m = &matches[i];
        let start: usize = draw::unicode_display_width(m.0.as_str());
        let end: usize = start.saturating_add(draw::unicode_display_width(m.1.as_str()));
        if col >= start && col < end {
            let chars = text::chars_of(m.1.as_str());
            let ghost s = m.1@;
            let mut n: usize = chars.len();
            proof {
                assert(s.take(n as int) =~= s);
            }
            while n > 0 && is_closing_mark(chars[n - 1])
                invariant
                    chars@ == s,
                    n <= s.len(),
                    bare_link(s.take(n as int)) == bare_link(s),
                decreases n,
            {
                proof {
                    assert(s.take(n as int).drop_last() =~= s.take(n - 1));
                }
                n = n - 1;
            }
            proof {
                assert(text::cut(s, 0, n as int) =~= s.take(n as int));
            }
            return Some(text::slice_of(chars.as_slice(), 0, n));
        }
        i = i + 1;
    }
    None
}

fn is_closing_mark(c: char) -> (r: bool)
    ensures
        r == closing_mark(c),
{
    c == '.' || c == ',' || c == ';' || c == ':' || c == '!' || c == '?'
}

/// The link on a line that covers a column.
pub open spec fn link_in_line(line: Seq<char>, col: int) -> Option<Seq<char>> {
    match pattern_matches(link_pattern(), line) {
        Some(found) => link_at(found, col, 0),
        None => None,
    }
}

/// The link under a cell of the active pane.
pub open spec fn link_under(
    layout: LayoutJson,
    row: u16,
    col: u16,
    hide_borders: bool,
    area: Rect,
) -> Option<Seq<char>> {
    let f = frame::active_content(layout, area, hide_borders, true);
    let texts = frame::found_rows(f.0);
    let line = row - f.1.y;
    if !selection::cell_in(f.1, col as int, row as int) || line >= texts.len() {
        None
    } else {
        link_in_line(texts[line].text, col - f.1.x)
    }
}

/// The link under a cell of the active pane.
pub fn detect_url_at_click(
    fd: &FrameData,
    screen_row: u16,
    screen_col: u16,
    hide_borders: bool,
    cols: u16,
    rows: u16,
    sidebar_visible: bool,
) -> (r: Option<String>)
    ensures
        commands::opt_text(r) == link_under(
            fd.layout,
            screen_row,
            screen_col,
            hide_borders,
            geometry::areas_of(cols, rows, sidebar_visible).layout,
        ),
{
    match selection::pane_coords_at_screen(
        fd,
        screen_row,
        screen_col,
        hide_borders,
        cols,
        rows,
        sidebar_visible,
    ) {
        None => None,
        Some((texts, _area, pane_row, pane_col)) => {
            if pane_row >= texts.len() {
                return None;
            }
            proof {
                assert(frame::content_views(texts@)[pane_row as int] == texts@[pane_row as int]@);
            }
            let pattern = "https?://[^\\s<>\"'()\\[\\]{}|\\\\^`\\x{FF08}\\x{FF09}\\x{3001}\\x{3002}\\x{FF0C}\\x{FF1B}]+";
            match find_matches(pattern, texts[pane_row].text.as_str()) {
                Some(found) => link_at_column(&found, pane_col),
                None => None,
            }
        },
    }
}

/// A link short enough for the status bar.
pub open spec fn short_link(url: Seq<char>) -> Seq<char> {
    if url.len() <= 50 {
        url
    } else {
        url.take(50) + "..."@
    }
}

/// A link short enough for the status bar.
pub fn truncate_status_url(url: &str) -> (r: String)
    ensures
        r@ == short_link(url@),
{
    let chars = text::chars_of(url);
    if chars.len() <= 50 {
        return text::string_of(chars.as_slice());
    }
    let mut out = text::slice_of(chars.as_slice(), 0, 50);
    proof {
        assert(text::cut(url@, 0, 50) =~= url@.take(50));
    }
    out.append("...");
    out
}

} // verus!
