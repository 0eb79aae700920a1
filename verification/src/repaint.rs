//! What a terminal shows of a row that was painted with a selection over it.

use crate::ansi;
use crate::navigation;
use crate::text;
use crate::ansi::RowPlace;
use crate::style::{Color, SpanStyle};
use vstd::prelude::*;

verus! {

/// A step in painting a row.
pub enum PaintOp {
    /// Go to a cell.
    Go(int, int),
    /// Set the style back.
    Plain,
    /// Set what a style has beyond a plain one.
    Wear(SpanStyle),
    /// Erase cells without moving.
    Erase(nat),
    /// Write a glyph.
    Glyph(char),
}

/// The sequence for a step.
pub open spec fn op_text(op: PaintOp) -> Seq<char> {
    match op {
        PaintOp::Go(x, y) => ansi::cup(x, y),
        PaintOp::Plain => ansi::style_reset(),
        PaintOp::Wear(s) => ansi::style_codes(s),
        PaintOp::Erase(n) => ansi::erase_cells(n),
        PaintOp::Glyph(c) => seq![c],
    }
}

/// The sequences for steps, one behind the other.
pub open spec fn ops_text(ops: Seq<PaintOp>) -> Seq<char>
    decreases ops.len(),
{
    if ops.len() == 0 {
        Seq::empty()
    } else {
        op_text(ops[0]) + ops_text(ops.drop_first())
    }
}

/// A glyph on a terminal.
pub struct ShownCell {
    pub x: int,
    pub y: int,
    pub glyph: char,
    pub style: SpanStyle,
}

/// A terminal: its cursor, its style, and the glyphs in the order in which they were written.
pub struct Paper {
    pub x: int,
    pub y: int,
    pub style: SpanStyle,
    pub cells: Seq<ShownCell>,
}

/// A style with the terminal's own colours where it names none.
pub open spec fn worn(s: SpanStyle) -> SpanStyle {
    SpanStyle {
        fg: Some(s.fg.unwrap_or(Color::Reset)),
        bg: Some(s.bg.unwrap_or(Color::Reset)),
        ..s
    }
}

/// A style with another one put on: colours are replaced, attributes come to those that are there.
pub open spec fn put_on(under: SpanStyle, s: SpanStyle) -> SpanStyle {
    SpanStyle {
        fg: match s.fg {
            Some(Color::Reset) => under.fg,
            Some(c) => Some(c),
            None => under.fg,
        },
        bg: match s.bg {
            Some(Color::Reset) => under.bg,
            Some(c) => Some(c),
            None => under.bg,
        },
        bold: under.bold || s.bold,
        dim: under.dim || s.dim,
        italic: under.italic || s.italic,
        underlined: under.underlined || s.underlined,
        reversed: under.reversed || s.reversed,
    }
}

/// What a step does on a terminal that draws a glyph `wide` columns wide.
pub open spec fn op_done(t: Paper, op: PaintOp, wide: spec_fn(char) -> int) -> Paper {
    match op {
        PaintOp::Go(x, y) => Paper { x, y, ..t },
        PaintOp::Plain => Paper { style: ansi::plain_cell(), ..t },
        PaintOp::Wear(s) => Paper { style: put_on(t.style, s), ..t },
        PaintOp::Erase(n) => t,
        PaintOp::Glyph(c) => Paper {
            x: t.x + wide(c),
            cells: t.cells.push(ShownCell { x: t.x, y: t.y, glyph: c, style: t.style }),
            ..t
        },
    }
}

pub open spec fn ops_done(t: Paper, ops: Seq<PaintOp>, wide: spec_fn(char) -> int) -> Paper
    decreases ops.len(),
{
    if ops.len() == 0 {
        t
    } else {
        ops_done(op_done(t, ops[0], wide), ops.drop_first(), wide)
    }
}

proof fn lemma_text_of_two(a: Seq<PaintOp>, b: Seq<PaintOp>)
    ensures
        ops_text(a + b) == ops_text(a) + ops_text(b),
    decreases a.len(),
{
    if a.len() == 0 {
        assert(a + b =~= b);
        assert(Seq::<char>::empty() + ops_text(b) =~= ops_text(b));
    } else {
        lemma_text_of_two(a.drop_first(), b);
        assert((a + b).drop_first() =~= a.drop_first() + b);
        assert(op_text(a[0]) + (ops_text(a.drop_first()) + ops_text(b)) =~= op_text(a[0])
            + ops_text(a.drop_first()) + ops_text(b));
    }
}

proof fn lemma_done_in_two(t: Paper, a: Seq<PaintOp>, b: Seq<PaintOp>, wide: spec_fn(char) -> int)
    ensures
        ops_done(t, a + b, wide) == ops_done(ops_done(t, a, wide), b, wide),
    decreases a.len(),
{
    if a.len() == 0 {
        assert(a + b =~= b);
    } else {
        assert((a + b).drop_first() =~= a.drop_first() + b);
        lemma_done_in_two(op_done(t, a[0], wide), a.drop_first(), b, wide);
    }
}

pub open spec fn step_ops(at: RowPlace, col: int) -> Seq<PaintOp> {
    if col > 0 {
        seq![PaintOp::Go(navigation::sat16(at.x + col), at.y as int)]
    } else {
        Seq::empty()
    }
}

pub open spec fn change_ops(from: SpanStyle, to: SpanStyle) -> Seq<PaintOp> {
    if from == to {
        Seq::empty()
    } else if from == ansi::plain_cell() {
        seq![PaintOp::Wear(to)]
    } else {
        seq![PaintOp::Plain, PaintOp::Wear(to)]
    }
}

/// The steps that write one glyph of a row.
pub open spec fn cell_ops_at(at: RowPlace, col: int, from: SpanStyle, to: SpanStyle, c: char) -> Seq<PaintOp> {
    step_ops(at, col) + change_ops(from, to) + seq![PaintOp::Glyph(c)]
}

/// The style of a cell: its own, or that of the selection where it covers the cell.
pub open spec fn style_at(at: RowPlace, col: int, own: SpanStyle, begin: int, end: int) -> SpanStyle {
    if ansi::covered(begin, end, navigation::sat16(at.x + col)) {
        ansi::highlight()
    } else {
        own
    }
}

pub open spec fn blanks_ops(col: int, current: SpanStyle, at: RowPlace, begin: int, end: int) -> Seq<PaintOp>
    decreases at.width - col,
{
    if col < 0 || col >= at.width {
        Seq::empty()
    } else {
        let style = style_at(at, col, ansi::plain_cell(), begin, end);
        cell_ops_at(at, col, current, style, ' ') + blanks_ops(col + 1, style, at, begin, end)
    }
}

pub open spec fn glyphs_ops(
    chars: Seq<char>,
    styles: Seq<SpanStyle>,
    i: int,
    col: int,
    current: SpanStyle,
    at: RowPlace,
    begin: int,
    end: int,
) -> Seq<PaintOp>
    decreases chars.len() - i,
{
    if i < 0 || i >= chars.len() || col >= at.width {
        blanks_ops(col, current, at, begin, end)
    } else {
        let next = col + text::columns_of(chars[i]);
        if next > at.width {
            step_ops(at, col) + glyphs_ops(chars, styles, i + 1, next, current, at, begin, end)
        } else {
            let style = style_at(at, col, styles[i], begin, end);
            cell_ops_at(at, col, current, style, chars[i]) + glyphs_ops(
                chars,
                styles,
                i + 1,
                next,
                style,
                at,
                begin,
                end,
            )
        }
    }
}

/// The steps that paint a whole row.
pub open spec fn row_ops(
    chars: Seq<char>,
    styles: Seq<SpanStyle>,
    at: RowPlace,
    begin: int,
    end: int,
) -> Seq<PaintOp> {
    seq![PaintOp::Go(at.x as int, at.y as int), PaintOp::Plain, PaintOp::Erase(at.width as nat)]
        + glyphs_ops(chars, styles, 0, 0, ansi::plain_cell(), at, begin, end)
}

proof fn lemma_two_ops_text(a: PaintOp, b: PaintOp)
    ensures
        ops_text(seq![a]) == op_text(a),
        ops_text(seq![a, b]) == op_text(a) + op_text(b),
{
    reveal_with_fuel(ops_text, 3);
    assert(seq![a].drop_first() =~= Seq::empty());
    assert(seq![a, b].drop_first() =~= seq![b]);
    assert(seq![b].drop_first() =~= Seq::empty());
    assert(op_text(a) + Seq::<char>::empty() =~= op_text(a));
    assert(op_text(b) + Seq::<char>::empty() =~= op_text(b));
}

proof fn lemma_cell_text(at: RowPlace, col: int, from: SpanStyle, to: SpanStyle, c: char)
    ensures
        ops_text(step_ops(at, col)) == ansi::step_to(at, col),
        ops_text(cell_ops_at(at, col, from, to, c)) == ansi::step_to(at, col) + ansi::style_change(from, to)
            + seq![c],
{
    let go = PaintOp::Go(navigation::sat16(at.x + col), at.y as int);
    lemma_two_ops_text(go, go);
    lemma_two_ops_text(PaintOp::Wear(to), PaintOp::Wear(to));
    lemma_two_ops_text(PaintOp::Plain, PaintOp::Wear(to));
    lemma_two_ops_text(PaintOp::Glyph(c), PaintOp::Glyph(c));
    lemma_text_of_two(step_ops(at, col), change_ops(from, to));
    lemma_text_of_two(step_ops(at, col) + change_ops(from, to), seq![PaintOp::Glyph(c)]);
    assert(Seq::<char>::empty() + ansi::style_codes(to) =~= ansi::style_codes(to));
    assert(ops_text(change_ops(from, to)) == ansi::style_change(from, to));
}

proof fn lemma_blanks_text(col: int, current: SpanStyle, at: RowPlace, begin: int, end: int)
    ensures
        ops_text(blanks_ops(col, current, at, begin, end)) == ansi::painted_blanks(
            col,
            current,
            at,
            begin,
            end,
        ),
    decreases at.width - col,
{
    if 0 <= col < at.width {
        let style = style_at(at, col, ansi::plain_cell(), begin, end);
        lemma_blanks_text(col + 1, style, at, begin, end);
        lemma_cell_text(at, col, current, style, ' ');
        lemma_text_of_two(
            cell_ops_at(at, col, current, style, ' '),
            blanks_ops(col + 1, style, at, begin, end),
        );
    }
}

proof fn lemma_glyphs_text(
    chars: Seq<char>,
    styles: Seq<SpanStyle>,
    i: int,
    col: int,
    current: SpanStyle,
    at: RowPlace,
    begin: int,
    end: int,
)
    ensures
        ops_text(glyphs_ops(chars, styles, i, col, current, at, begin, end)) == ansi::painted(
            chars,
            styles,
            i,
            col,
            current,
            at,
            begin,
            end,
        ),
    decreases chars.len() - i,
{
    if i < 0 || i >= chars.len() || col >= at.width {
        lemma_blanks_text(col, current, at, begin, end);
    } else {
        let next = col + text::columns_of(chars[i]);
        let style = style_at(at, col, styles[i], begin, end);
        lemma_cell_text(at, col, current, style, chars[i]);
        if next > at.width {
            lemma_glyphs_text(chars, styles, i + 1, next, current, at, begin, end);
            lemma_text_of_two(
                step_ops(at, col),
                glyphs_ops(chars, styles, i + 1, next, current, at, begin, end),
            );
        } else {
            lemma_glyphs_text(chars, styles, i + 1, next, style, at, begin, end);
            lemma_text_of_two(
                cell_ops_at(at, col, current, style, chars[i]),
                glyphs_ops(chars, styles, i + 1, next, style, at, begin, end),
            );
        }
    }
}

/// What is sent for a row is the sequences of its steps.
pub proof fn law_row_is_sent_in_steps(
    chars: Seq<char>,
    styles: Seq<SpanStyle>,
    at: RowPlace,
    begin: int,
    end: int,
)
    ensures
        ansi::painted_row(chars, styles, at, begin, end) == ops_text(row_ops(chars, styles, at, begin, end)),
{
    let go = PaintOp::Go(at.x as int, at.y as int);
    let erase = PaintOp::Erase(at.width as nat);
    let head = seq![go, PaintOp::Plain];
    let rest = glyphs_ops(chars, styles, 0, 0, ansi::plain_cell(), at, begin, end);
    lemma_glyphs_text(chars, styles, 0, 0, ansi::plain_cell(), at, begin, end);
    lemma_two_ops_text(go, PaintOp::Plain);
    lemma_two_ops_text(erase, erase);
    lemma_text_of_two(head, seq![erase]);
    lemma_text_of_two(head + seq![erase], rest);
    assert(head + seq![erase] =~= seq![go, PaintOp::Plain, erase]);
}

/// A glyph at a column of a row.
pub open spec fn shown_at(at: RowPlace, col: int, glyph: char, style: SpanStyle) -> ShownCell {
    ShownCell { x: navigation::sat16(at.x + col), y: at.y as int, glyph, style: worn(style) }
}

/// The cells of a row from a column on that are blank.
pub open spec fn blank_cells(col: int, at: RowPlace, begin: int, end: int) -> Seq<ShownCell>
    decreases at.width - col,
{
    if col < 0 || col >= at.width {
        Seq::empty()
    } else {
        seq![shown_at(at, col, ' ', style_at(at, col, ansi::plain_cell(), begin, end))] + blank_cells(col + 1, at, begin, end)
    }
}

/// The cells of a row from its `i`th glyph on, which stands at a column: every glyph at the column
/// that the ones before it leave, in its own style or that of the selection, then blanks.
pub open spec fn row_cells(
    chars: Seq<char>,
    styles: Seq<SpanStyle>,
    i: int,
    col: int,
    at: RowPlace,
    begin: int,
    end: int,
) -> Seq<ShownCell>
    decreases chars.len() - i,
{
    if i < 0 || i >= chars.len() || col >= at.width {
        blank_cells(col, at, begin, end)
    } else {
        let next = col + text::columns_of(chars[i]);
        if next > at.width {
            row_cells(chars, styles, i + 1, next, at, begin, end)
        } else {
            seq![shown_at(at, col, chars[i], style_at(at, col, styles[i], begin, end))] + row_cells(chars, styles, i + 1, next, at, begin, end)
        }
    }
}

/// Whether a terminal is where a row is to be painted on from a column.
pub open spec fn in_place(t: Paper, at: RowPlace, col: int, current: SpanStyle) -> bool {
    &&& t.style == worn(current)
    &&& col == 0 ==> t.x == at.x && t.y == at.y
}

proof fn lemma_cell_done(
    t: Paper,
    at: RowPlace,
    col: int,
    from: SpanStyle,
    to: SpanStyle,
    c: char,
    wide: spec_fn(char) -> int,
)
    requires
        col >= 0,
        in_place(t, at, col, from),
        text::columns_of(c) == 0 ==> wide(c) == 0,
    ensures
        ({
            let r = ops_done(t, cell_ops_at(at, col, from, to, c), wide);
            &&& r.cells == t.cells.push(
                shown_at(at, col, c, to),
            )
            &&& r.style == worn(to)
            &&& in_place(r, at, col + text::columns_of(c), to)
        }),
{
    reveal_with_fuel(ops_done, 5);
    let go = step_ops(at, col);
    let change = change_ops(from, to);
    let write = seq![PaintOp::Glyph(c)];
    lemma_done_in_two(t, go, change, wide);
    lemma_done_in_two(t, go + change, write, wide);
    let t1 = ops_done(t, go, wide);
    let t2 = ops_done(t1, change, wide);
    assert(write.drop_first() =~= Seq::empty());
    if col > 0 {
        assert(go.drop_first() =~= Seq::empty());
    }
    assert(t1.x == navigation::sat16(at.x + col) && t1.y == at.y && t1.style == worn(from) && t1.cells
        == t.cells);
    if from != to {
        if from == ansi::plain_cell() {
            assert(change.drop_first() =~= Seq::empty());
        } else {
            assert(change.drop_first() =~= seq![PaintOp::Wear(to)]);
            assert(seq![PaintOp::Wear(to)].drop_first() =~= Seq::empty());
        }
        assert(put_on(ansi::plain_cell(), to) == worn(to));
        assert(worn(ansi::plain_cell()) == ansi::plain_cell());
    }
    assert(t2.style == worn(to) && t2.x == t1.x && t2.y == t1.y && t2.cells == t.cells);
}

proof fn lemma_blanks_done(
    t: Paper,
    col: int,
    current: SpanStyle,
    at: RowPlace,
    begin: int,
    end: int,
    wide: spec_fn(char) -> int,
)
    requires
        col >= 0,
        in_place(t, at, col, current),
        forall|c: char| text::columns_of(c) == 0 ==> #[trigger] wide(c) == 0,
    ensures
        ops_done(t, blanks_ops(col, current, at, begin, end), wide).cells == t.cells + blank_cells(
            col,
            at,
            begin,
            end,
        ),
    decreases at.width - col,
{
    if col < at.width {
        let style = style_at(at, col, ansi::plain_cell(), begin, end);
        let first = cell_ops_at(at, col, current, style, ' ');
        let rest = blanks_ops(col + 1, style, at, begin, end);
        assert(text::columns_of(' ') == 0 ==> wide(' ') == 0);
        lemma_cell_done(t, at, col, current, style, ' ', wide);
        lemma_done_in_two(t, first, rest, wide);
        let r = ops_done(t, first, wide);
        lemma_blanks_done(r, col + 1, style, at, begin, end, wide);
        assert(r.cells + blank_cells(col + 1, at, begin, end) =~= t.cells + blank_cells(
            col,
            at,
            begin,
            end,
        ));
    } else {
        assert(t.cells + Seq::<ShownCell>::empty() =~= t.cells);
    }
}

proof fn lemma_glyphs_done(
    t: Paper,
    chars: Seq<char>,
    styles: Seq<SpanStyle>,
    i: int,
    col: int,
    current: SpanStyle,
    at: RowPlace,
    begin: int,
    end: int,
    wide: spec_fn(char) -> int,
)
    requires
        col >= 0,
        in_place(t, at, col, current),
        forall|c: char| text::columns_of(c) == 0 ==> #[trigger] wide(c) == 0,
    ensures
        ops_done(t, glyphs_ops(chars, styles, i, col, current, at, begin, end), wide).cells == t.cells
            + row_cells(chars, styles, i, col, at, begin, end),
    decreases chars.len() - i,
{
    if i < 0 || i >= chars.len() || col >= at.width {
        lemma_blanks_done(t, col, current, at, begin, end, wide);
    } else {
        let c = chars[i];
        let next = col + text::columns_of(c);
        assert(text::columns_of(c) == 0 ==> wide(c) == 0);
        if next > at.width {
            let first = step_ops(at, col);
            let rest = glyphs_ops(chars, styles, i + 1, next, current, at, begin, end);
            lemma_done_in_two(t, first, rest, wide);
            reveal_with_fuel(ops_done, 2);
            if col > 0 {
                assert(first.drop_first() =~= Seq::empty());
            }
            let r = ops_done(t, first, wide);
            lemma_glyphs_done(r, chars, styles, i + 1, next, current, at, begin, end, wide);
        } else {
            let style = style_at(at, col, styles[i], begin, end);
            let first = cell_ops_at(at, col, current, style, c);
            let rest = glyphs_ops(chars, styles, i + 1, next, style, at, begin, end);
            lemma_cell_done(t, at, col, current, style, c, wide);
            lemma_done_in_two(t, first, rest, wide);
            let r = ops_done(t, first, wide);
            lemma_glyphs_done(r, chars, styles, i + 1, next, style, at, begin, end, wide);
            let cell = shown_at(at, col, c, style);
            let others = row_cells(chars, styles, i + 1, next, at, begin, end);
            assert(row_cells(chars, styles, i, col, at, begin, end) == seq![cell] + others);
            assert(r.cells + others =~= t.cells + (seq![cell] + others));
        }
    }
}

/// A painted row shows every glyph at its own column, highlighted just where the selection covers
/// it, and blanks up to the edge. That holds on every terminal, however wide it draws a glyph, if
/// only it does not move for a glyph that has no width: no glyph can push the next one off its
/// column.
pub proof fn law_row_is_shown(
    t: Paper,
    chars: Seq<char>,
    styles: Seq<SpanStyle>,
    at: RowPlace,
    begin: int,
    end: int,
    wide: spec_fn(char) -> int,
)
    requires
        forall|c: char| text::columns_of(c) == 0 ==> #[trigger] wide(c) == 0,
    ensures
        ops_done(t, row_ops(chars, styles, at, begin, end), wide).cells == t.cells + row_cells(
            chars,
            styles,
            0,
            0,
            at,
            begin,
            end,
        ),
{
    let head = seq![
        PaintOp::Go(at.x as int, at.y as int),
        PaintOp::Plain,
        PaintOp::Erase(at.width as nat),
    ];
    let rest = glyphs_ops(chars, styles, 0, 0, ansi::plain_cell(), at, begin, end);
    lemma_done_in_two(t, head, rest, wide);
    reveal_with_fuel(ops_done, 5);
    assert(head.drop_first() =~= seq![PaintOp::Plain, PaintOp::Erase(at.width as nat)]);
    assert(head.drop_first().drop_first() =~= seq![PaintOp::Erase(at.width as nat)]);
    assert(head.drop_first().drop_first().drop_first() =~= Seq::empty());
    let r = ops_done(t, head, wide);
    assert(in_place(r, at, 0, ansi::plain_cell()));
    lemma_glyphs_done(r, chars, styles, 0, 0, ansi::plain_cell(), at, begin, end, wide);
}

/// The glyphs of cells with their places.
pub open spec fn glyph_places(cells: Seq<ShownCell>) -> Seq<(int, int, char)> {
    cells.map_values(|c: ShownCell| (c.x, c.y, c.glyph))
}

proof fn lemma_blank_places(col: int, at: RowPlace, a: (int, int), b: (int, int))
    ensures
        glyph_places(blank_cells(col, at, a.0, a.1)) == glyph_places(blank_cells(col, at, b.0, b.1)),
    decreases at.width - col,
{
    if 0 <= col < at.width {
        lemma_blank_places(col + 1, at, a, b);
        let p = glyph_places(blank_cells(col + 1, at, a.0, a.1));
        let first = seq![(navigation::sat16(at.x + col), at.y as int, ' ')];
        assert(glyph_places(blank_cells(col, at, a.0, a.1)) =~= first + p);
        assert(glyph_places(blank_cells(col, at, b.0, b.1)) =~= first + p);
    }
}

proof fn lemma_glyph_places(
    chars: Seq<char>,
    styles: Seq<SpanStyle>,
    i: int,
    col: int,
    at: RowPlace,
    a: (int, int),
    b: (int, int),
)
    ensures
        glyph_places(row_cells(chars, styles, i, col, at, a.0, a.1)) == glyph_places(
            row_cells(chars, styles, i, col, at, b.0, b.1),
        ),
    decreases chars.len() - i,
{
    if i < 0 || i >= chars.len() || col >= at.width {
        lemma_blank_places(col, at, a, b);
    } else {
        let next = col + text::columns_of(chars[i]);
        lemma_glyph_places(chars, styles, i + 1, next, at, a, b);
        let p = glyph_places(row_cells(chars, styles, i + 1, next, at, a.0, a.1));
        if next <= at.width {
            let first = seq![(navigation::sat16(at.x + col), at.y as int, chars[i])];
            let cell = shown_at(at, col, chars[i], style_at(at, col, styles[i], a.0, a.1));
            let other = shown_at(at, col, chars[i], style_at(at, col, styles[i], b.0, b.1));
            let rest = row_cells(chars, styles, i + 1, next, at, a.0, a.1);
            let others = row_cells(chars, styles, i + 1, next, at, b.0, b.1);
            assert(row_cells(chars, styles, i, col, at, a.0, a.1) == seq![cell] + rest);
            assert(row_cells(chars, styles, i, col, at, b.0, b.1) == seq![other] + others);
            assert(glyph_places(seq![cell] + rest) =~= first + p);
            assert(glyph_places(seq![other] + others) =~= first + p);
        }
    }
}

/// A selection swallows and moves nothing: whatever it covers, the same glyphs stand in the same
/// cells.
pub proof fn law_selection_only_colors(
    chars: Seq<char>,
    styles: Seq<SpanStyle>,
    at: RowPlace,
    a: (int, int),
    b: (int, int),
)
    ensures
        glyph_places(row_cells(chars, styles, 0, 0, at, a.0, a.1)) == glyph_places(
            row_cells(chars, styles, 0, 0, at, b.0, b.1),
        ),
{
    lemma_glyph_places(chars, styles, 0, 0, at, a, b);
}

} // verus!
