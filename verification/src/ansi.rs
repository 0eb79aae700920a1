//! Painting a pane's cells straight onto the terminal, for the mouse selection over panes that the
//! server draws itself.

use crate::commands;
use crate::draw;
use crate::frame;
use crate::navigation;
use crate::selection;
use crate::style;
use crate::text;
use crate::frame::{CellRunJson, FrameData, LayoutJson, RowRunsJson};
use crate::geometry::Rect;
use crate::style::{Color, SpanStyle};
use vstd::prelude::*;

verus! {

/// Moves the cursor to a cell.
pub open spec fn cup(x: int, y: int) -> Seq<char> {
    seq!['\x1b', '['] + text::decimal((y + 1) as nat) + seq![';'] + text::decimal((x + 1) as nat) + seq!['H']
}

/// Sets every style back.
pub open spec fn style_reset() -> Seq<char> {
    seq!['\x1b', '[', 'm']
}

/// Moves the cursor to a cell and sets every style back.
pub open spec fn go_to(x: int, y: int) -> Seq<char> {
    cup(x, y) + style_reset()
}

/// Erases cells from the cursor on without moving it.
pub open spec fn erase_cells(n: nat) -> Seq<char> {
    seq!['\x1b', '['] + text::decimal(n) + seq!['X']
}

fn push_cup(out: &mut String, x: u16, y: u16)
    ensures
        final(out)@ == old(out)@ + cup(x as int, y as int),
{
    let ghost before = out@;
    out.push('\x1b');
    out.push('[');
    text::push_decimal(out, y as u64 + 1);
    out.push(';');
    text::push_decimal(out, x as u64 + 1);
    out.push('H');
    proof {
        assert(out@ =~= before + cup(x as int, y as int));
    }
}

fn push_reset(out: &mut String)
    ensures
        final(out)@ == old(out)@ + style_reset(),
{
    let ghost before = out@;
    out.push('\x1b');
    out.push('[');
    out.push('m');
    proof {
        assert(out@ =~= before + style_reset());
    }
}

fn push_go_to(out: &mut String, x: u16, y: u16)
    ensures
        final(out)@ == old(out)@ + go_to(x as int, y as int),
{
    let ghost before = out@;
    push_cup(out, x, y);
    push_reset(out);
    proof {
        assert(out@ =~= before + go_to(x as int, y as int));
    }
}

fn push_erase(out: &mut String, n: u16)
    ensures
        final(out)@ == old(out)@ + erase_cells(n as nat),
{
    let ghost before = out@;
    out.push('\x1b');
    out.push('[');
    text::push_decimal(out, n as u64);
    out.push('X');
    proof {
        assert(out@ =~= before + erase_cells(n as nat));
    }
}

/// The number of a colour among the sixteen that every terminal has, counted from a base.
pub open spec fn basic_number(c: Color) -> Option<nat> {
    match c {
        Color::Black => Some(0),
        Color::Red => Some(1),
        Color::Green => Some(2),
        Color::Yellow => Some(3),
        Color::Blue => Some(4),
        Color::Magenta => Some(5),
        Color::Cyan => Some(6),
        Color::Gray => Some(7),
        Color::DarkGray => Some(60),
        Color::LightRed => Some(61),
        Color::LightGreen => Some(62),
        Color::LightYellow => Some(63),
        Color::LightBlue => Some(64),
        Color::LightMagenta => Some(65),
        Color::LightCyan => Some(66),
        Color::White => Some(67),
        _ => None,
    }
}

fn basic_code(c: Color) -> (r: Option<u64>)
    ensures
        (match r {
            Some(n) => Some(n as nat),
            None => None,
        }) == basic_number(c),
        r matches Some(n) ==> n <= 67,
{
    match c {
        Color::Black => Some(0),
        Color::Red => Some(1),
        Color::Green => Some(2),
        Color::Yellow => Some(3),
        Color::Blue => Some(4),
        Color::Magenta => Some(5),
        Color::Cyan => Some(6),
        Color::Gray => Some(7),
        Color::DarkGray => Some(60),
        Color::LightRed => Some(61),
        Color::LightGreen => Some(62),
        Color::LightYellow => Some(63),
        Color::LightBlue => Some(64),
        Color::LightMagenta => Some(65),
        Color::LightCyan => Some(66),
        Color::White => Some(67),
        _ => None,
    }
}

/// Sets one attribute or basic colour.
pub open spec fn sgr(n: nat) -> Seq<char> {
    seq!['\x1b', '['] + text::decimal(n) + seq!['m']
}

/// Sets a colour, in front (30) or behind (40); the terminal's own needs nothing after a reset.
pub open spec fn color_code(c: Color, base: nat) -> Seq<char> {
    match c {
        Color::Reset => Seq::empty(),
        Color::Indexed(n) => seq!['\x1b', '['] + text::decimal((base + 8) as nat) + seq![';', '5', ';']
            + text::decimal(n as nat) + seq!['m'],
        Color::Rgb(r, g, b) => seq!['\x1b', '['] + text::decimal((base + 8) as nat) + seq![';', '2', ';']
            + text::decimal(r as nat) + seq![';'] + text::decimal(g as nat) + seq![';'] + text::decimal(b as nat)
            + seq!['m'],
        _ => match basic_number(c) {
            Some(n) => sgr(base + n),
            None => Seq::empty(),
        },
    }
}

fn push_sgr(out: &mut String, n: u64)
    ensures
        final(out)@ == old(out)@ + sgr(n as nat),
{
    let ghost before = out@;
    out.push('\x1b');
    out.push('[');
    text::push_decimal(out, n);
    out.push('m');
    proof {
        assert(out@ =~= before + sgr(n as nat));
    }
}

fn push_color(out: &mut String, c: Color, base: u64)
    requires
        base <= 40,
    ensures
        final(out)@ == old(out)@ + color_code(c, base as nat),
{
    let ghost before = out@;
    match c {
        Color::Reset => {},
        Color::Indexed(n) => {
            out.push('\x1b');
            out.push('[');
            text::push_decimal(out, base + 8);
            out.push(';');
            out.push('5');
            out.push(';');
            text::push_decimal(out, n as u64);
            out.push('m');
        },
        Color::Rgb(r, g, b) => {
            out.push('\x1b');
            out.push('[');
            text::push_decimal(out, base + 8);
            out.push(';');
            out.push('2');
            out.push(';');
            text::push_decimal(out, r as u64);
            out.push(';');
            text::push_decimal(out, g as u64);
            out.push(';');
            text::push_decimal(out, b as u64);
            out.push('m');
        },
        _ => {
            if let Some(n) = basic_code(c) {
                push_sgr(out, base + n);
            }
        },
    }
    proof {
        assert(out@ =~= before + color_code(c, base as nat));
    }
}

/// The style of a cell after a reset.
pub open spec fn plain_cell() -> SpanStyle {
    style::colored(Some(Color::Reset), Some(Color::Reset), false)
}

/// The style of a selected cell.
pub open spec fn highlight() -> SpanStyle {
    style::colored(Some(Color::Black), Some(Color::Cyan), false)
}

pub open spec fn flag_code(set: bool, n: nat) -> Seq<char> {
    if set {
        sgr(n)
    } else {
        Seq::empty()
    }
}

pub open spec fn opt_color_code(c: Option<Color>, base: nat) -> Seq<char> {
    match c {
        Some(c) => color_code(c, base),
        None => Seq::empty(),
    }
}

/// Sets everything that a style has beyond a reset.
pub open spec fn style_codes(s: SpanStyle) -> Seq<char> {
    flag_code(s.bold, 1) + flag_code(s.dim, 2) + flag_code(s.italic, 3) + flag_code(
        s.underlined,
        4,
    ) + flag_code(s.reversed, 7) + opt_color_code(s.fg, 30) + opt_color_code(s.bg, 40)
}

/// Goes from one style to another: nothing between equal ones, else a reset, unless the first is
/// what a reset gives, and what the second has beyond it.
pub open spec fn style_change(from: SpanStyle, to: SpanStyle) -> Seq<char> {
    if from == to {
        Seq::empty()
    } else {
        (if from == plain_cell() {
            Seq::empty()
        } else {
            style_reset()
        }) + style_codes(to)
    }
}

fn push_flag(out: &mut String, set: bool, n: u64)
    ensures
        final(out)@ == old(out)@ + flag_code(set, n as nat),
{
    if set {
        push_sgr(out, n);
    } else {
        proof {
            assert(out@ + Seq::<char>::empty() =~= out@);
        }
    }
}

fn push_opt_color(out: &mut String, c: Option<Color>, base: u64)
    requires
        base <= 40,
    ensures
        final(out)@ == old(out)@ + opt_color_code(c, base as nat),
{
    match c {
        Some(c) => push_color(out, c, base),
        None => {
            proof {
                assert(out@ + Seq::<char>::empty() =~= out@);
            }
        },
    }
}

fn push_codes(out: &mut String, to: SpanStyle)
    ensures
        final(out)@ == old(out)@ + style_codes(to),
{
    let ghost b = out@;
    let ghost f1 = flag_code(to.bold, 1);
    let ghost f2 = f1 + flag_code(to.dim, 2);
    let ghost f3 = f2 + flag_code(to.italic, 3);
    let ghost f4 = f3 + flag_code(to.underlined, 4);
    let ghost f5 = f4 + flag_code(to.reversed, 7);
    let ghost f6 = f5 + opt_color_code(to.fg, 30);
    push_flag(out, to.bold, 1);
    push_flag(out, to.dim, 2);
    push_flag(out, to.italic, 3);
    push_flag(out, to.underlined, 4);
    push_flag(out, to.reversed, 7);
    push_opt_color(out, to.fg, 30);
    push_opt_color(out, to.bg, 40);
    proof {
        text::lemma_concat(b, f1, flag_code(to.dim, 2));
        text::lemma_concat(b, f2, flag_code(to.italic, 3));
        text::lemma_concat(b, f3, flag_code(to.underlined, 4));
        text::lemma_concat(b, f4, flag_code(to.reversed, 7));
        text::lemma_concat(b, f5, opt_color_code(to.fg, 30));
        text::lemma_concat(b, f6, opt_color_code(to.bg, 40));
    }
}

fn push_style(out: &mut String, from: SpanStyle, to: SpanStyle)
    ensures
        final(out)@ == old(out)@ + style_change(from, to),
{
    let ghost before = out@;
    if from == to {
        proof {
            assert(before + Seq::<char>::empty() =~= before);
        }
        return ;
    }
    if from != plain_style() {
        push_reset(out);
    }
    let ghost reset = if from == plain_cell() {
        Seq::empty()
    } else {
        style_reset()
    };
    proof {
        assert(out@ =~= before + reset);
    }
    push_codes(out, to);
    proof {
        assert(before + reset + style_codes(to) =~= before + (reset + style_codes(to)));
    }
}

fn plain_style() -> (r: SpanStyle)
    ensures
        r == plain_cell(),
{
    SpanStyle::of(Some(Color::Reset), Some(Color::Reset), false)
}

fn highlight_style() -> (r: SpanStyle)
    ensures
        r == highlight(),
{
    SpanStyle::of(Some(Color::Black), Some(Color::Cyan), false)
}

/// The style of each character of a run.
pub open spec fn run_styles(run: CellRunJson) -> Seq<SpanStyle> {
    Seq::new(run.text@.len(), |i: int| style::run_style(run.fg@, run.bg@, run.flags))
}

/// The style of each character of the first `n` runs of a row.
pub open spec fn row_styles(runs: Seq<CellRunJson>, n: int) -> Seq<SpanStyle>
    decreases n,
{
    if n <= 0 {
        Seq::empty()
    } else {
        row_styles(runs, n - 1) + run_styles(runs[n - 1])
    }
}

/// The characters of a row, each with its style.
struct Glyphs {
    chars: Vec<char>,
    styles: Vec<SpanStyle>,
}

fn push_run(out: &mut Glyphs, run: &CellRunJson)
    requires
        old(out).chars@.len() == old(out).styles@.len(),
    ensures
        final(out).chars@ == old(out).chars@ + run.text@,
        final(out).styles@ == old(out).styles@ + run_styles(*run),
{
    let style = style::style_of_run(run.fg.as_str(), run.bg.as_str(), run.flags);
    let chars = text::chars_of(run.text.as_str());
    let ghost had = *out;
    let ghost more = run_styles(*run);
    let mut k: usize = 0;
    proof {
        assert(had.chars@ + chars@.take(0) =~= had.chars@);
        assert(had.styles@ + more.take(0) =~= had.styles@);
    }
    while k < chars.len()
        invariant
            k <= chars@.len(),
            chars@ == run.text@,
            more == run_styles(*run),
            style == style::run_style(run.fg@, run.bg@, run.flags),
            out.chars@ == had.chars@ + chars@.take(k as int),
            out.styles@ == had.styles@ + more.take(k as int),
        decreases chars@.len() - k,
    {
        out.chars.push(chars[k]);
        out.styles.push(style);
        proof {
            assert(out.chars@ =~= had.chars@ + chars@.take(k + 1));
            assert(out.styles@ =~= had.styles@ + more.take(k + 1));
        }
        k = k + 1;
    }
    proof {
        assert(chars@.take(chars@.len() as int) =~= chars@);
        assert(more.take(chars@.len() as int) =~= more);
    }
}

fn glyphs_of(runs: &Vec<CellRunJson>) -> (r: Glyphs)
    ensures
        r.chars@ == frame::runs_text(runs@, runs@.len() as int),
        r.styles@ == row_styles(runs@, runs@.len() as int),
        r.chars@.len() == r.styles@.len(),
{
    let mut out = Glyphs { chars: Vec::new(), styles: Vec::new() };
    let mut i: usize = 0;
    while i < runs.len()
        invariant
            i <= runs@.len(),
            out.chars@ == frame::runs_text(runs@, i as int),
            out.styles@ == row_styles(runs@, i as int),
            out.chars@.len() == out.styles@.len(),
        decreases runs@.len() - i,
    {
        push_run(&mut out, &runs[i]);
        i = i + 1;
    }
    out
}

/// Where a row is painted: its cell at the left edge, its row, and how many columns it has.
#[derive(Clone, Copy, Debug)]
pub struct RowPlace {
    pub x: u16,
    pub y: u16,
    pub width: u16,
}

/// The glyphs of a row from `i` on, the first at column `col`, as far as they lie between two
/// columns, each put at its own cell with its own style.
pub open spec fn restored(
    chars: Seq<char>,
    styles: Seq<SpanStyle>,
    i: int,
    col: int,
    at: RowPlace,
    begin: int,
    end: int,
) -> Seq<char>
    decreases chars.len() - i,
{
    if i < 0 || i >= chars.len() || col >= at.width || col >= end {
        Seq::empty()
    } else {
        let next = col + text::columns_of(chars[i]);
        let rest = restored(chars, styles, i + 1, next, at, begin, end);
        if next > end || next <= begin {
            rest
        } else {
            go_to(navigation::sat16(at.x + col), at.y as int) + style_change(plain_cell(), styles[i])
                + seq![chars[i]] + rest
        }
    }
}

fn push_restored(out: &mut String, glyphs: &Glyphs, at: RowPlace, begin: usize, end: usize)
    requires
        glyphs.chars@.len() == glyphs.styles@.len(),
    ensures
        final(out)@ == old(out)@ + restored(glyphs.chars@, glyphs.styles@, 0, 0, at, begin as int, end as int),
{
    let ghost before = out@;
    let ghost all = restored(glyphs.chars@, glyphs.styles@, 0, 0, at, begin as int, end as int);
    let mut col: usize = 0;
    let mut i: usize = 0;
    while i < glyphs.chars.len() && col < at.width as usize && col < end
        invariant
            i <= glyphs.chars@.len(),
            glyphs.chars@.len() == glyphs.styles@.len(),
            before == old(out)@,
            all == restored(glyphs.chars@, glyphs.styles@, 0, 0, at, begin as int, end as int),
            out@ + restored(glyphs.chars@, glyphs.styles@, i as int, col as int, at, begin as int, end as int) == before
                + all,
        decreases glyphs.chars@.len() - i,
    {
        let c: char = glyphs.chars[i];
        let own: SpanStyle = glyphs.styles[i];
        let w: usize = text::char_width(c);
        let ghost rest = restored(
            glyphs.chars@,
            glyphs.styles@,
            i + 1,
            col + text::columns_of(c),
            at,
            begin as int,
            end as int,
        );
        let ghost had = out@;
        if w > end - col {
            if w >= usize::MAX - col {
                proof {
                    assert(rest =~= Seq::empty());
                    assert(out@ + Seq::<char>::empty() =~= out@);
                }
                return ;
            }
        } else if col + w > begin {
            push_go_to(out, at.x.saturating_add(col as u16), at.y);
            push_style(out, plain_style(), own);
            out.push(c);
            proof {
                let a = go_to(navigation::sat16(at.x + col), at.y as int);
                let b = style_change(plain_cell(), own);
                assert(out@ =~= had + (a + b + seq![c]));
                assert(had + (a + b + seq![c]) + rest =~= had + (a + b + seq![c] + rest));
            }
        }
        col = col + w;
        i = i + 1;
    }
    proof {
        assert(out@ + Seq::<char>::empty() =~= out@);
    }
}

/// The first `n` rows of a stretch of cells put back, from the row `top` on.
pub open spec fn restored_rows(
    rows: Seq<RowRunsJson>,
    area: Rect,
    top: int,
    left: int,
    bottom: int,
    right: int,
    n: int,
) -> Seq<char>
    decreases n,
{
    if n <= 0 {
        Seq::empty()
    } else {
        let y = top + n - 1;
        let line = y - area.y;
        restored_rows(rows, area, top, left, bottom, right, n - 1) + (if line >= rows.len() {
            Seq::empty()
        } else {
            let runs = rows[line].runs@;
            restored(
                frame::runs_text(runs, runs.len() as int),
                row_styles(runs, runs.len() as int),
                0,
                0,
                RowPlace { x: area.x, y: y as u16, width: area.width },
                if y == top {
                    left - area.x
                } else {
                    0
                },
                text::min_int(
                    if y == bottom {
                        right - area.x
                    } else {
                        area.width as int
                    },
                    area.width as int,
                ),
            )
        })
    }
}

/// A stretch of cells put back as the layout has them.
pub open spec fn restored_cells(
    rows: Seq<RowRunsJson>,
    area: Rect,
    start_row: u16,
    start_col: u16,
    end_row: u16,
    end_col: u16,
) -> Seq<char> {
    let top = selection::row_within(area, start_row as int);
    let bottom = selection::row_within(area, end_row as int);
    let left = text::min_int(
        text::max_int(start_col as int, area.x as int),
        navigation::sat16(area.x + text::max_int(area.width - 1, 0)),
    );
    let right = selection::col_within(area, end_col as int);
    if start_row > end_row || (start_row == end_row && start_col >= end_col) || (top == bottom
        && left >= right) {
        Seq::empty()
    } else {
        restored_rows(rows, area, top, left, bottom, right, bottom - top + 1)
    }
}

/// A stretch of cells put back as the layout has them.
pub fn write_rows_v2_rect_ansi(
    rows_v2: &[RowRunsJson],
    content_area: Rect,
    start_row: u16,
    start_col: u16,
    end_row: u16,
    end_col: u16,
) -> (r: String)
    ensures
        r@ == restored_cells(rows_v2@, content_area, start_row, start_col, end_row, end_col),
{
    let mut out = String::new();
    if start_row > end_row || (start_row == end_row && start_col >= end_col) {
        return out;
    }
    let top: u16 = selection::clamp_row(content_area, start_row);
    let bottom: u16 = selection::clamp_row(content_area, end_row);
    let right: u16 = selection::clamp_col(content_area, end_col);
    let last: u16 = content_area.x.saturating_add(content_area.width.saturating_sub(1));
    let at_least: u16 = if start_col < content_area.x {
        content_area.x
    } else {
        start_col
    };
    let left: u16 = if at_least > last {
        last
    } else {
        at_least
    };
    if top == bottom && left >= right {
        return out;
    }
    let mut y: u32 = top as u32;
    while y <= bottom as u32
        invariant
            top <= y <= bottom + 1,
            top >= content_area.y,
            left >= content_area.x,
            right >= content_area.x,
            out@ == restored_rows(
                rows_v2@,
                content_area,
                top as int,
                left as int,
                bottom as int,
                right as int,
                y - top,
            ),
        decreases bottom + 1 - y,
    {
        let line: usize = (y - content_area.y as u32) as usize;
        let ghost before = out@;
        if line < rows_v2.len() {
            let glyphs = glyphs_of(&rows_v2[line].runs);
            let begin: usize = if y == top as u32 {
                (left - content_area.x) as usize
            } else {
                0
            };
            let edge: u16 = if y == bottom as u32 {
                right - content_area.x
            } else {
                content_area.width
            };
            let end: usize = if edge < content_area.width {
                edge as usize
            } else {
                content_area.width as usize
            };
            let place = RowPlace { x: content_area.x, y: y as u16, width: content_area.width };
            if begin < end {
                push_restored(&mut out, &glyphs, place, begin, end);
            } else {
                proof {
                    lemma_nothing_restored(glyphs.chars@, glyphs.styles@, 0, 0, place, begin as int, end as int);
                    assert(before + Seq::<char>::empty() =~= before);
                }
            }
        } else {
            proof {
                assert(before + Seq::<char>::empty() =~= before);
            }
        }
        y = y + 1;
    }
    out
}

proof fn lemma_nothing_restored(
    chars: Seq<char>,
    styles: Seq<SpanStyle>,
    i: int,
    col: int,
    at: RowPlace,
    begin: int,
    end: int,
)
    requires
        begin >= end,
        0 <= i,
    ensures
        restored(chars, styles, i, col, at, begin, end) == Seq::<char>::empty(),
    decreases chars.len() - i,
{
    if i < chars.len() && col < at.width && col < end {
        lemma_nothing_restored(chars, styles, i + 1, col + text::columns_of(chars[i]), at, begin, end);
    }
}

/// Whether a selection that covers the columns from `begin` up to `end` covers a column.
pub open spec fn covered(begin: int, end: int, col: int) -> bool {
    begin < end && begin <= col < end
}

/// Goes to a cell of a row, which for the first one is done already.
pub open spec fn step_to(at: RowPlace, col: int) -> Seq<char> {
    if col > 0 {
        cup(navigation::sat16(at.x + col), at.y as int)
    } else {
        Seq::empty()
    }
}

/// Blanks from a column on up to the edge of a row, selected or plain.
pub open spec fn painted_blanks(
    col: int,
    current: SpanStyle,
    at: RowPlace,
    begin: int,
    end: int,
) -> Seq<char>
    decreases at.width - col,
{
    if col < 0 || col >= at.width {
        Seq::empty()
    } else {
        let style = if covered(begin, end, navigation::sat16(at.x + col)) {
            highlight()
        } else {
            plain_cell()
        };
        step_to(at, col) + style_change(current, style) + seq![' '] + painted_blanks(
            col + 1,
            style,
            at,
            begin,
            end,
        )
    }
}

/// The glyphs of a row from `i` on, the first at column `col`, each at its own cell and selected
/// or in its own style; then blanks up to the edge. A glyph that would stand over the edge is left
/// out.
pub open spec fn painted(
    chars: Seq<char>,
    styles: Seq<SpanStyle>,
    i: int,
    col: int,
    current: SpanStyle,
    at: RowPlace,
    begin: int,
    end: int,
) -> Seq<char>
    decreases chars.len() - i,
{
    if i < 0 || i >= chars.len() || col >= at.width {
        painted_blanks(col, current, at, begin, end)
    } else {
        let next = col + text::columns_of(chars[i]);
        if next > at.width {
            step_to(at, col) + painted(chars, styles, i + 1, next, current, at, begin, end)
        } else {
            let style = if covered(begin, end, navigation::sat16(at.x + col)) {
                highlight()
            } else {
                styles[i]
            };
            step_to(at, col) + style_change(current, style) + seq![chars[i]] + painted(
                chars,
                styles,
                i + 1,
                next,
                style,
                at,
                begin,
                end,
            )
        }
    }
}

/// A whole row: erased, then painted.
pub open spec fn painted_row(chars: Seq<char>, styles: Seq<SpanStyle>, at: RowPlace, begin: int, end: int) -> Seq<char> {
    go_to(at.x as int, at.y as int) + erase_cells(at.width as nat) + painted(
        chars,
        styles,
        0,
        0,
        plain_cell(),
        at,
        begin,
        end,
    )
}

fn push_step(out: &mut String, at: RowPlace, col: usize)
    requires
        col <= 65535,
    ensures
        final(out)@ == old(out)@ + step_to(at, col as int),
{
    if col > 0 {
        push_cup(out, at.x.saturating_add(col as u16), at.y);
    } else {
        proof {
            assert(out@ + Seq::<char>::empty() =~= out@);
        }
    }
}

fn is_covered(at: RowPlace, col: usize, begin: u16, end: u16) -> (r: bool)
    requires
        col <= 65535,
    ensures
        r == covered(begin as int, end as int, navigation::sat16(at.x + col)),
{
    let x: u16 = at.x.saturating_add(col as u16);
    begin < end && x >= begin && x < end
}

fn push_blanks(out: &mut String, from: usize, style: SpanStyle, at: RowPlace, begin: u16, end: u16)
    ensures
        final(out)@ == old(out)@ + painted_blanks(
            from as int,
            style,
            at,
            begin as int,
            end as int,
        ),
{
    let ghost before = out@;
    let ghost all = painted_blanks(from as int, style, at, begin as int, end as int);
    let mut col: usize = from;
    let mut current: SpanStyle = style;
    while col < at.width as usize
        invariant
            out@ + painted_blanks(col as int, current, at, begin as int, end as int) == before + all,
        decreases at.width - col,
    {
        let ghost had = out@;
        let ghost was = current;
        push_step(out, at, col);
        let next: SpanStyle = if is_covered(at, col, begin, end) {
            highlight_style()
        } else {
            plain_style()
        };
        push_style(out, current, next);
        out.push(' ');
        proof {
            let a = step_to(at, col as int);
            let b = style_change(was, next);
            let rest = painted_blanks(col + 1, next, at, begin as int, end as int);
            assert(out@ =~= had + (a + b + seq![' ']));
            assert(had + (a + b + seq![' ']) + rest =~= had + (a + b + seq![' '] + rest));
        }
        current = next;
        col = col + 1;
    }
    proof {
        assert(out@ + Seq::<char>::empty() =~= out@);
    }
}

fn push_row(out: &mut String, glyphs: &Glyphs, at: RowPlace, begin: u16, end: u16)
    requires
        glyphs.chars@.len() == glyphs.styles@.len(),
    ensures
        final(out)@ == old(out)@ + painted_row(glyphs.chars@, glyphs.styles@, at, begin as int, end as int),
{
    let ghost start = out@;
    let ghost b = begin as int;
    let ghost e = end as int;
    push_go_to(out, at.x, at.y);
    push_erase(out, at.width);
    let ghost before = out@;
    let ghost all = painted(glyphs.chars@, glyphs.styles@, 0, 0, plain_cell(), at, b, e);
    let width: usize = at.width as usize;
    let mut current: SpanStyle = plain_style();
    let mut col: usize = 0;
    let mut i: usize = 0;
    while i < glyphs.chars.len() && col < width
        invariant
            i <= glyphs.chars@.len(),
            glyphs.chars@.len() == glyphs.styles@.len(),
            width == at.width,
            b == begin,
            e == end,
            start == old(out)@,
            before == start + go_to(at.x as int, at.y as int) + erase_cells(at.width as nat),
            all == painted(glyphs.chars@, glyphs.styles@, 0, 0, plain_cell(), at, b, e),
            out@ + painted(glyphs.chars@, glyphs.styles@, i as int, col as int, current, at, b, e) == before + all,
        decreases glyphs.chars@.len() - i,
    {
        let c: char = glyphs.chars[i];
        let own: SpanStyle = glyphs.styles[i];
        let w: usize = text::char_width(c);
        let ghost had = out@;
        let ghost was = current;
        push_step(out, at, col);
        let ghost a = step_to(at, col as int);
        let ghost next = col + text::columns_of(c);
        if w > width - col {
            proof {
                let rest = painted(glyphs.chars@, glyphs.styles@, i + 1, next, was, at, b, e);
                assert(had + a + rest =~= had + (a + rest));
                lemma_painted_past_edge(glyphs.chars@, glyphs.styles@, i + 1, next, was, at, b, e);
                assert(out@ + Seq::<char>::empty() =~= out@);
                assert(start + (go_to(at.x as int, at.y as int) + erase_cells(at.width as nat)
                    + all) =~= before + all);
            }
            return ;
        }
        let style: SpanStyle = if is_covered(at, col, begin, end) {
            highlight_style()
        } else {
            own
        };
        push_style(out, current, style);
        out.push(c);
        proof {
            let change = style_change(was, style);
            let rest = painted(glyphs.chars@, glyphs.styles@, i + 1, next, style, at, b, e);
            assert(out@ =~= had + (a + change + seq![c]));
            assert(had + (a + change + seq![c]) + rest =~= had + (a + change + seq![c] + rest));
        }
        current = style;
        col = col + w;
        i = i + 1;
    }
    push_blanks(out, col, current, at, begin, end);
    proof {
        assert(start + (go_to(at.x as int, at.y as int) + erase_cells(at.width as nat) + all)
            =~= before + all);
    }
}

proof fn lemma_painted_past_edge(
    chars: Seq<char>,
    styles: Seq<SpanStyle>,
    i: int,
    col: int,
    current: SpanStyle,
    at: RowPlace,
    begin: int,
    end: int,
)
    requires
        col >= at.width,
    ensures
        painted(chars, styles, i, col, current, at, begin, end) == Seq::<char>::empty(),
{
}

/// The rows and columns of a selection over a pane.
#[derive(Clone, Copy, Debug, PartialEq, Eq, Structural)]
pub struct PaneSelection {
    pub start_row: u16,
    pub start_col: u16,
    pub end_row: u16,
    pub end_col: u16,
}

/// The columns of a row that a selection covers, first and one past the last.
pub open spec fn covered_columns(sel: PaneSelection, area: Rect, y: int) -> (int, int) {
    if y < sel.start_row || y > sel.end_row {
        (0, 0)
    } else {
        (
            text::max_int(
                (if y == sel.start_row {
                    sel.start_col
                } else {
                    area.x
                }) as int,
                area.x as int,
            ),
            text::min_int(
                (if y == sel.end_row {
                    sel.end_col as int
                } else {
                    navigation::sat16(area.x + area.width)
                }),
                navigation::sat16(area.x + area.width),
            ),
        )
    }
}

/// The first `n` rows of a pane from the row `top` on, with the selection.
pub open spec fn painted_rows(
    rows: Seq<RowRunsJson>,
    area: Rect,
    top: int,
    sel: PaneSelection,
    n: int,
) -> Seq<char>
    decreases n,
{
    if n <= 0 {
        Seq::empty()
    } else {
        let y = top + n - 1;
        let line = y - area.y;
        let hl = covered_columns(sel, area, y);
        painted_rows(rows, area, top, sel, n - 1) + (if line >= rows.len() {
            Seq::empty()
        } else {
            let runs = rows[line].runs@;
            painted_row(
                frame::runs_text(runs, runs.len() as int),
                row_styles(runs, runs.len() as int),
                RowPlace { x: area.x, y: y as u16, width: area.width },
                hl.0,
                hl.1,
            )
        })
    }
}

/// Rows of the active pane painted with the selection over them; nothing without such a pane.
pub open spec fn painted_selection(
    layout: LayoutJson,
    area: Rect,
    hide_borders: bool,
    from: u16,
    to: u16,
    sel: PaneSelection,
) -> Option<Seq<char>> {
    let f = frame::active_content(layout, area, hide_borders, false);
    let top = selection::row_within(f.1, from as int);
    let bottom = selection::row_within(f.1, to as int);
    match f.0 {
        Some(pane) => if f.1.width == 0 || f.1.height == 0 || top > bottom {
            None
        } else {
            Some(painted_rows(frame::rows_of(pane), f.1, top, sel, bottom - top + 1) + style_reset())
        },
        None => None,
    }
}

/// Rows of the active pane painted with the selection over them.
pub fn write_active_pane_selection_ansi(
    fd: &FrameData,
    layout_area: Rect,
    hide_borders: bool,
    repaint_start_row: u16,
    repaint_end_row: u16,
    sel: PaneSelection,
) -> (r: Option<String>)
    ensures
        commands::opt_text(r) == painted_selection(
            fd.layout,
            layout_area,
            hide_borders,
            repaint_start_row,
            repaint_end_row,
            sel,
        ),
{
    match frame::active_pane_rows_v2(&fd.layout, layout_area, hide_borders) {
        None => None,
        Some((rows, area)) => {
            if area.width == 0 || area.height == 0 {
                return None;
            }
            let top: u16 = selection::clamp_row(area, repaint_start_row);
            let bottom: u16 = selection::clamp_row(area, repaint_end_row);
            if top > bottom {
                return None;
            }
            let far: u16 = area.x.saturating_add(area.width);
            let mut out = String::new();
            let mut y: u32 = top as u32;
            while y <= bottom as u32
                invariant
                    top <= y <= bottom + 1,
                    top >= area.y,
                    far == navigation::sat16(area.x + area.width),
                    out@ == painted_rows(rows@, area, top as int, sel, y - top),
                decreases bottom + 1 - y,
            {
                let line: usize = (y - area.y as u32) as usize;
                let ghost before = out@;
                if line < rows.len() {
                    let row: u16 = y as u16;
                    let (begin, end): (u16, u16) = if row < sel.start_row || row > sel.end_row {
                        (0, 0)
                    } else {
                        let a: u16 = if row == sel.start_row {
                            sel.start_col
                        } else {
                            area.x
                        };
                        let b: u16 = if row == sel.end_row {
                            sel.end_col
                        } else {
                            far
                        };
                        (
                            if a < area.x {
                                area.x
                            } else {
                                a
                            },
                            if b < far {
                                b
                            } else {
                                far
                            },
                        )
                    };
                    let glyphs = glyphs_of(&rows[line].runs);
                    push_row(
                        &mut out,
                        &glyphs,
                        RowPlace { x: area.x, y: row, width: area.width },
                        begin,
                        end,
                    );
                } else {
                    proof {
                        assert(before + Seq::<char>::empty() =~= before);
                    }
                }
                y = y + 1;
            }
            push_reset(&mut out);
            Some(out)
        },
    }
}

/// The rows of a selection painted without it, whole rows with the blanks at their ends.
pub fn restore_mouse_selection_ansi(
    fd: &FrameData,
    start_row: u16,
    start_col: u16,
    end_row: u16,
    end_col: u16,
    layout_area: Rect,
    hide_borders: bool,
) -> (r: Option<String>)
    ensures
        ({
            let none = text::min_int(start_col as int, end_col as int) as u16;
            commands::opt_text(r) == painted_selection(
                fd.layout,
                layout_area,
                hide_borders,
                start_row,
                end_row,
                PaneSelection { start_row, start_col: none, end_row: start_row, end_col: none },
            )
        }),
{
    let none: u16 = if start_col < end_col {
        start_col
    } else {
        end_col
    };
    write_active_pane_selection_ansi(
        fd,
        layout_area,
        hide_borders,
        start_row,
        end_row,
        PaneSelection { start_row, start_col: none, end_row: start_row, end_col: none },
    )
}

/// The first `n` rows of an area erased.
pub open spec fn erased_rows(area: Rect, n: int) -> Seq<char>
    decreases n,
{
    if n <= 0 {
        Seq::empty()
    } else {
        erased_rows(area, n - 1) + go_to(area.x as int, navigation::sat16(area.y + n - 1)) + erase_cells(
            area.width as nat,
        )
    }
}

/// The runs of a row from `i` on, the first at column `col`, as far as they fit.
pub open spec fn written_runs(runs: Seq<CellRunJson>, i: int, col: int, at: RowPlace) -> Seq<char>
    decreases runs.len() - i,
{
    if i < 0 || i >= runs.len() || col >= at.width {
        Seq::empty()
    } else {
        let text = draw::fitted(runs[i].text@, at.width - col);
        let head = go_to(navigation::sat16(at.x + col), at.y as int) + style_change(
            plain_cell(),
            style::run_style(runs[i].fg@, runs[i].bg@, runs[i].flags),
        );
        if text.len() == 0 {
            head
        } else {
            head + text + written_runs(runs, i + 1, col + text::columns(text), at)
        }
    }
}

/// The first `n` rows of a pane written.
pub open spec fn written_rows(rows: Seq<RowRunsJson>, area: Rect, n: int) -> Seq<char>
    decreases n,
{
    if n <= 0 {
        Seq::empty()
    } else {
        written_rows(rows, area, n - 1) + written_runs(
            rows[n - 1].runs@,
            0,
            0,
            RowPlace { x: area.x, y: navigation::sat16(area.y + n - 1) as u16, width: area.width },
        )
    }
}

/// The active pane erased and written anew, as far as it has rows and the area has room.
pub open spec fn written_pane(layout: LayoutJson, area: Rect, hide_borders: bool) -> Option<Seq<char>> {
    let f = frame::active_content(layout, area, hide_borders, false);
    match f.0 {
        Some(pane) => Some(
            erased_rows(f.1, f.1.height as int) + written_rows(
                frame::rows_of(pane),
                f.1,
                text::min_int(frame::rows_of(pane).len() as int, f.1.height as int),
            ),
        ),
        None => None,
    }
}

fn push_written(out: &mut String, runs: &Vec<CellRunJson>, at: RowPlace)
    ensures
        final(out)@ == old(out)@ + written_runs(runs@, 0, 0, at),
{
    let ghost before = out@;
    let ghost all = written_runs(runs@, 0, 0, at);
    let width: usize = at.width as usize;
    let mut col: usize = 0;
    let mut i: usize = 0;
    while i < runs.len() && col < width
        invariant
            i <= runs@.len(),
            width == at.width,
            before == old(out)@,
            all == written_runs(runs@, 0, 0, at),
            out@ + written_runs(runs@, i as int, col as int, at) == before + all,
        decreases runs@.len() - i,
    {
        let run = &runs[i];
        let ghost had = out@;
        push_go_to(out, at.x.saturating_add(col as u16), at.y);
        let style = style::style_of_run(run.fg.as_str(), run.bg.as_str(), run.flags);
        push_style(out, plain_style(), style);
        let text = draw::truncate_to_width(run.text.as_str(), width - col);
        let ghost place = go_to(navigation::sat16(at.x + col), at.y as int);
        let ghost change = style_change(plain_cell(), style);
        proof {
            text::lemma_concat(had, place, change);
            draw::law_fitted_fits(run.text@, width - col);
        }
        if text.as_str().unicode_len() == 0 {
            return ;
        }
        let taken: usize = draw::unicode_display_width(text.as_str());
        proof {
            let rest = written_runs(runs@, i + 1, col + taken, at);
            text::lemma_concat(had, place + change, text@);
            text::lemma_concat(had, place + change + text@, rest);
        }
        out.append(text.as_str());
        col = col + taken;
        i = i + 1;
    }
    proof {
        assert(out@ + Seq::<char>::empty() =~= out@);
    }
}

/// The active pane erased and written anew.
pub fn write_active_pane_layout_ansi(fd: &FrameData, layout_area: Rect, hide_borders: bool) -> (r:
    Option<String>)
    ensures
        commands::opt_text(r) == written_pane(fd.layout, layout_area, hide_borders),
{
    match frame::active_pane_rows_v2(&fd.layout, layout_area, hide_borders) {
        None => None,
        Some((rows, area)) => {
            let mut out = String::new();
            let mut y: u16 = 0;
            while y < area.height
                invariant
                    y <= area.height,
                    out@ == erased_rows(area, y as int),
                decreases area.height - y,
            {
                push_go_to(&mut out, area.x, area.y.saturating_add(y));
                push_erase(&mut out, area.width);
                y = y + 1;
            }
            let ghost before = out@;
            let n: usize = if rows.len() < area.height as usize {
                rows.len()
            } else {
                area.height as usize
            };
            let mut i: usize = 0;
            proof {
                assert(before + Seq::<char>::empty() =~= before);
            }
            while i < n
                invariant
                    i <= n,
                    n <= rows@.len(),
                    n <= area.height,
                    out@ == before + written_rows(rows@, area, i as int),
                decreases n - i,
            {
                let ghost had = written_rows(rows@, area, i as int);
                let place = RowPlace {
                    x: area.x,
                    y: area.y.saturating_add(i as u16),
                    width: area.width,
                };
                push_written(&mut out, &rows[i].runs, place);
                proof {
                    let more = written_runs(rows@[i as int].runs@, 0, 0, place);
                    assert(before + had + more =~= before + (had + more));
                }
                i = i + 1;
            }
            Some(out)
        },
    }
}

} // verus!
