//! What is drawn on the terminal, as a plan: pieces of text with their styles and places.

use crate::commands;
use crate::copy_mode::position;
use crate::style;
use crate::text;
use crate::geometry::Rect;
use crate::style::{Color, SpanStyle};
use vstd::prelude::*;

verus! {

/// Text of one style.
#[derive(Debug)]
pub struct StyledSpan {
    pub text: String,
    pub style: SpanStyle,
}

#[verifier::ext_equal]
pub struct SpanV {
    pub text: Seq<char>,
    pub style: SpanStyle,
}

impl View for StyledSpan {
    type V = SpanV;

    open spec fn view(&self) -> SpanV {
        SpanV { text: self.text@, style: self.style }
    }
}

pub open spec fn span_views(spans: Seq<StyledSpan>) -> Seq<SpanV> {
    Seq::new(spans.len(), |i: int| spans[i]@)
}

/// One step of drawing. Steps are drawn in order, later ones over earlier ones.
#[derive(Debug)]
pub enum Draw {
    /// Blanks over the whole area.
    Fill { area: Rect, style: SpanStyle },
    /// One line of text over a style for the whole area.
    Line { area: Rect, spans: Vec<StyledSpan>, base: SpanStyle },
    /// Lines of text from one of them on.
    Lines { area: Rect, lines: Vec<String>, style: SpanStyle, scroll: u16 },
    /// A vertical line.
    Rule { x: u16, y: u16, height: u16, style: SpanStyle },
    /// A framed panel with a title.
    Panel { area: Rect, title: String, rounded: bool, border: SpanStyle, fill: SpanStyle },
    /// The cells around an area.
    Border { area: Rect, color: Color },
    /// Cells that are sent to the terminal in any case.
    Repaint(Rect),
    /// Cells that are never sent to the terminal.
    Skip(Rect),
    /// Cells set back to blanks without style.
    Clear(Rect),
    /// A scroll bar at the right edge; how far it is scrolled is given by the bits of a fraction.
    Scrollbar { area: Rect, ratio: u32 },
    /// The place of the cursor.
    Cursor { x: u16, y: u16 },
}

#[verifier::ext_equal]
pub enum DrawV {
    Fill { area: Rect, style: SpanStyle },
    Line { area: Rect, spans: Seq<SpanV>, base: SpanStyle },
    Lines { area: Rect, lines: Seq<Seq<char>>, style: SpanStyle, scroll: u16 },
    Rule { x: u16, y: u16, height: u16, style: SpanStyle },
    Panel { area: Rect, title: Seq<char>, rounded: bool, border: SpanStyle, fill: SpanStyle },
    Border { area: Rect, color: Color },
    Repaint(Rect),
    Skip(Rect),
    Clear(Rect),
    Scrollbar { area: Rect, ratio: u32 },
    Cursor { x: u16, y: u16 },
}

impl View for Draw {
    type V = DrawV;

    open spec fn view(&self) -> DrawV {
        match *self {
            Draw::Fill { area, style } => DrawV::Fill { area, style },
            Draw::Line { area, spans, base } => DrawV::Line { area, spans: span_views(spans@), base },
            Draw::Lines { area, lines, style, scroll } => DrawV::Lines {
                area,
                lines: commands::texts(lines@),
                style,
                scroll,
            },
            Draw::Rule { x, y, height, style } => DrawV::Rule { x, y, height, style },
            Draw::Panel { area, title, rounded, border, fill } => DrawV::Panel {
                area,
                title: title@,
                rounded,
                border,
                fill,
            },
            Draw::Border { area, color } => DrawV::Border { area, color },
            Draw::Repaint(area) => DrawV::Repaint(area),
            Draw::Skip(area) => DrawV::Skip(area),
            Draw::Clear(area) => DrawV::Clear(area),
            Draw::Scrollbar { area, ratio } => DrawV::Scrollbar { area, ratio },
            Draw::Cursor { x, y } => DrawV::Cursor { x, y },
        }
    }
}

/// What a plan stands for.
pub open spec fn draws(plan: Seq<Draw>) -> Seq<DrawV> {
    Seq::new(plan.len(), |i: int| plan[i]@)
}

/// Adds one step to a plan.
pub fn add_draw(plan: &mut Vec<Draw>, step: Draw)
    ensures
        draws(final(plan)@) == draws(old(plan)@).push(step@),
{
    let ghost before = plan@;
    plan.push(step);
    proof {
        assert(draws(plan@) =~= draws(before).push(step@));
    }
}

/// Adds a span to a line.
pub fn add_span(spans: &mut Vec<StyledSpan>, text: String, style: SpanStyle)
    ensures
        span_views(final(spans)@) == span_views(old(spans)@).push(SpanV { text: text@, style }),
{
    let ghost before = spans@;
    spans.push(StyledSpan { text, style });
    proof {
        assert(span_views(spans@) =~= span_views(before).push(SpanV { text: text@, style }));
    }
}

/// Blanks.
pub open spec fn spaces(n: int) -> Seq<char> {
    Seq::new(text::max_int(n, 0) as nat, |i: int| ' ')
}

/// Blanks.
pub fn blank(n: usize) -> (r: String)
    ensures
        r@ == spaces(n as int),
{
    let mut out = String::new();
    let mut i: usize = 0;
    while i < n
        invariant
            i <= n,
            out@ == spaces(i as int),
        decreases n - i,
    {
        out.push(' ');
        proof {
            assert(spaces(i as int).push(' ') =~= spaces(i + 1));
        }
        i = i + 1;
    }
    proof {
        assert(spaces(0) =~= Seq::empty());
    }
    out
}

/// One line of plain text over a style for the whole area.
pub open spec fn plain_line(area: Rect, text: Seq<char>, style: SpanStyle) -> DrawV {
    DrawV::Line { area, spans: seq![SpanV { text, style: style::no_style() }], base: style }
}

/// One line of plain text over a style for the whole area.
pub fn text_line(area: Rect, text: String, style: SpanStyle) -> (r: Draw)
    ensures
        r@ == plain_line(area, text@, style),
{
    let mut spans: Vec<StyledSpan> = Vec::new();
    add_span(&mut spans, text, SpanStyle::none());
    proof {
        assert(span_views(Seq::<StyledSpan>::empty()) =~= Seq::empty());
        assert(span_views(spans@) =~= seq![SpanV { text: text@, style: style::no_style() }]);
    }
    Draw::Line { area, spans, base: style }
}

/// As much of a text as fits into columns, from the front.
pub open spec fn fitted(s: Seq<char>, max: int) -> Seq<char> {
    if max <= 0 {
        Seq::empty()
    } else {
        s.take(position::fitting(s, 0, max))
    }
}

/// As much of a text as fits into columns, from the front.
pub fn truncate_to_width(s: &str, max_display_cols: usize) -> (r: String)
    ensures
        r@ == fitted(s@, max_display_cols as int),
{
    if max_display_cols == 0 {
        return String::new();
    }
    let chars = text::chars_of(s);
    let n: usize = position::char_index_for_display_col(chars.as_slice(), max_display_cols);
    proof {
        assert(text::cut(s@, 0, n as int) =~= s@.take(n as int));
    }
    text::slice_of(chars.as_slice(), 0, n)
}

/// Columns of a text on screen, as far as a machine number reaches.
pub fn unicode_display_width(s: &str) -> (r: usize)
    ensures
        r == text::clip(text::columns(s@)),
{
    text::text_width(text::chars_of(s).as_slice())
}

proof fn lemma_fitting_bounds(s: Seq<char>, from: int, max: int)
    requires
        0 <= from <= s.len(),
        text::columns(s.take(from)) <= max,
    ensures
        from <= position::fitting(s, from, max) <= s.len(),
        text::columns(s.take(position::fitting(s, from, max))) <= max,
    decreases s.len() - from,
{
    if from < s.len() && text::columns(s.take(from + 1)) <= max {
        lemma_fitting_bounds(s, from + 1, max);
    }
}

/// What is kept of a text fits into the columns.
pub proof fn law_fitted_fits(s: Seq<char>, max: int)
    requires
        max >= 0,
    ensures
        text::columns(fitted(s, max)) <= max,
{
    if max > 0 {
        assert(s.take(0) =~= Seq::empty());
        lemma_fitting_bounds(s, 0, max);
    }
}

/// Where the longest end of a text begins that fits into columns, from `from` on leftwards.
pub open spec fn end_from(s: Seq<char>, from: int, max: int) -> int
    decreases from,
{
    if 0 < from <= s.len() && text::columns(s.skip(from - 1)) <= max {
        end_from(s, from - 1, max)
    } else {
        from
    }
}

/// As much of a text as fits into columns, from the end, with a mark for what is left out.
pub open spec fn end_fitted(s: Seq<char>, max: int) -> Seq<char> {
    if max <= 0 {
        Seq::empty()
    } else if text::clip(text::columns(s)) <= max {
        s
    } else if max == 1 {
        seq!['…']
    } else {
        seq!['…'] + s.skip(end_from(s, s.len() as int, max - 1))
    }
}

/// As much of a text as fits into columns, from the end, with a mark for what is left out.
pub fn truncate_left_to_width(s: &str, max_display_cols: usize) -> (r: String)
    ensures
        r@ == end_fitted(s@, max_display_cols as int),
{
    let mut out = String::new();
    if max_display_cols == 0 {
        return out;
    }
    let chars = text::chars_of(s);
    if text::text_width(chars.as_slice()) <= max_display_cols {
        proof {
            assert(chars@ =~= s@);
        }
        return text::string_of(chars.as_slice());
    }
    out.push('…');
    proof {
        assert(out@ =~= seq!['…']);
    }
    if max_display_cols == 1 {
        return out;
    }
    let room: usize = max_display_cols - 1;
    let mut from: usize = chars.len();
    let mut used: usize = 0;
    proof {
        assert(s@.skip(s@.len() as int) =~= Seq::empty());
    }
    while from > 0
        invariant_except_break
            chars@ == s@,
            from <= s@.len(),
            used <= room,
            used == text::columns(s@.skip(from as int)),
            end_from(s@, from as int, room as int) == end_from(s@, s@.len() as int, room as int),
        ensures
            from == end_from(s@, s@.len() as int, room as int),
            from <= s@.len(),
        decreases from,
    {
        let w: usize = text::char_width(chars[from - 1]);
        proof {
            let c = s@[from - 1];
            assert(s@.skip(from - 1) =~= seq![c] + s@.skip(from as int));
            text::lemma_columns_add(seq![c], s@.skip(from as int));
            reveal_with_fuel(text::columns, 2);
            assert(seq![c].drop_last() =~= Seq::empty());
        }
        if w > room - used {
            break;
        }
        used = used + w;
        from = from - 1;
    }
    out.append(text::slice_of(chars.as_slice(), from, chars.len()).as_str());
    proof {
        assert(text::cut(s@, from as int, s@.len() as int) =~= s@.skip(from as int));
    }
    out
}

} // verus!
