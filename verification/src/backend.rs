//! How cells are sent to the terminal: as moves, colours, attributes and text. The background of
//! cells without one is always sent, so that none is left over from before.

use crate::text;
use crate::style::Color;
use vstd::prelude::*;

verus! {

/// The attributes of a cell.
#[derive(Clone, Copy, Debug, PartialEq, Eq, Structural)]
pub struct CellModifier {
    pub bold: bool,
    pub dim: bool,
    pub italic: bool,
    pub underlined: bool,
    pub slow_blink: bool,
    pub rapid_blink: bool,
    pub reversed: bool,
    pub hidden: bool,
    pub crossed_out: bool,
}

/// A change of attributes.
#[derive(Clone, Copy, Debug, PartialEq, Eq, Structural)]
pub enum Attribute {
    Bold,
    Dim,
    NormalIntensity,
    Italic,
    NoItalic,
    Underlined,
    NoUnderline,
    SlowBlink,
    RapidBlink,
    NoBlink,
    Reverse,
    NoReverse,
    Hidden,
    NoHidden,
    CrossedOut,
    NotCrossedOut,
}

pub open spec fn no_attributes() -> CellModifier {
    CellModifier {
        bold: false,
        dim: false,
        italic: false,
        underlined: false,
        slow_blink: false,
        rapid_blink: false,
        reversed: false,
        hidden: false,
        crossed_out: false,
    }
}

impl CellModifier {
    /// No attribute.
    pub fn empty() -> (r: Self)
        ensures
            r == no_attributes(),
    {
        CellModifier {
            bold: false,
            dim: false,
            italic: false,
            underlined: false,
            slow_blink: false,
            rapid_blink: false,
            reversed: false,
            hidden: false,
            crossed_out: false,
        }
    }
}

/// The attributes that a terminal has after a change.
pub open spec fn changed(m: CellModifier, a: Attribute) -> CellModifier {
    match a {
        Attribute::Bold => CellModifier { bold: true, ..m },
        Attribute::Dim => CellModifier { dim: true, ..m },
        Attribute::NormalIntensity => CellModifier { bold: false, dim: false, ..m },
        Attribute::Italic => CellModifier { italic: true, ..m },
        Attribute::NoItalic => CellModifier { italic: false, ..m },
        Attribute::Underlined => CellModifier { underlined: true, ..m },
        Attribute::NoUnderline => CellModifier { underlined: false, ..m },
        Attribute::SlowBlink => CellModifier { slow_blink: true, ..m },
        Attribute::RapidBlink => CellModifier { rapid_blink: true, ..m },
        Attribute::NoBlink => CellModifier { slow_blink: false, rapid_blink: false, ..m },
        Attribute::Reverse => CellModifier { reversed: true, ..m },
        Attribute::NoReverse => CellModifier { reversed: false, ..m },
        Attribute::Hidden => CellModifier { hidden: true, ..m },
        Attribute::NoHidden => CellModifier { hidden: false, ..m },
        Attribute::CrossedOut => CellModifier { crossed_out: true, ..m },
        Attribute::NotCrossedOut => CellModifier { crossed_out: false, ..m },
    }
}

pub open spec fn all_changed(m: CellModifier, s: Seq<Attribute>) -> CellModifier
    decreases s.len(),
{
    if s.len() == 0 {
        m
    } else {
        changed(all_changed(m, s.drop_last()), s.last())
    }
}

pub open spec fn one_if(b: bool, a: Attribute) -> Seq<Attribute> {
    if b {
        seq![a]
    } else {
        Seq::empty()
    }
}

/// Whether one intensity ends, so that both are begun anew.
pub open spec fn resets_intensity(from: CellModifier, to: CellModifier) -> bool {
    (from.bold && !to.bold) || (from.dim && !to.dim)
}

/// The changes that end attributes, in order.
pub open spec fn endings(from: CellModifier, to: CellModifier) -> Seq<Attribute> {
    let reset = resets_intensity(from, to);
    one_if(from.reversed && !to.reversed, Attribute::NoReverse) + one_if(
        reset,
        Attribute::NormalIntensity,
    ) + one_if(reset && to.dim, Attribute::Dim) + one_if(reset && to.bold, Attribute::Bold)
        + one_if(from.italic && !to.italic, Attribute::NoItalic) + one_if(
        from.underlined && !to.underlined,
        Attribute::NoUnderline,
    ) + one_if(from.crossed_out && !to.crossed_out, Attribute::NotCrossedOut) + one_if(
        from.hidden && !to.hidden,
        Attribute::NoHidden,
    ) + one_if(
        (from.slow_blink && !to.slow_blink) || (from.rapid_blink && !to.rapid_blink),
        Attribute::NoBlink,
    )
}

/// The changes that begin attributes, in order.
pub open spec fn beginnings(from: CellModifier, to: CellModifier) -> Seq<Attribute> {
    let reset = resets_intensity(from, to);
    one_if(to.reversed && !from.reversed, Attribute::Reverse) + one_if(
        to.bold && !from.bold && !reset,
        Attribute::Bold,
    ) + one_if(to.italic && !from.italic, Attribute::Italic) + one_if(
        to.underlined && !from.underlined,
        Attribute::Underlined,
    ) + one_if(to.dim && !from.dim && !reset, Attribute::Dim) + one_if(
        to.crossed_out && !from.crossed_out,
        Attribute::CrossedOut,
    ) + one_if(to.hidden && !from.hidden, Attribute::Hidden) + one_if(
        to.slow_blink && !from.slow_blink,
        Attribute::SlowBlink,
    ) + one_if(to.rapid_blink && !from.rapid_blink, Attribute::RapidBlink)
}

/// The changes from some attributes to others.
#[verifier::opaque]
pub open spec fn modifier_changes(from: CellModifier, to: CellModifier) -> Seq<Attribute> {
    endings(from, to) + beginnings(from, to)
}

/// Whether changes keep a blinking that goes on. There is one change that ends both kinds of
/// blinking, and nothing begins anew the kind that was to go on.
pub open spec fn blinking_kept(from: CellModifier, to: CellModifier) -> bool {
    !(from.slow_blink && from.rapid_blink && to.slow_blink != to.rapid_blink)
}

proof fn lemma_then_one(m: CellModifier, s: Seq<Attribute>, b: bool, a: Attribute)
    ensures
        all_changed(m, s + one_if(b, a)) == (if b {
            changed(all_changed(m, s), a)
        } else {
            all_changed(m, s)
        }),
{
    if b {
        let t = s + one_if(b, a);
        assert(t.drop_last() =~= s);
        assert(t.last() == a);
    } else {
        assert(s + one_if(b, a) =~= s);
    }
}

proof fn lemma_then_all(m: CellModifier, s: Seq<Attribute>, t: Seq<Attribute>)
    ensures
        all_changed(m, s + t) == all_changed(all_changed(m, s), t),
    decreases t.len(),
{
    if t.len() == 0 {
        assert(s + t =~= s);
    } else {
        lemma_then_all(m, s, t.drop_last());
        assert((s + t).drop_last() =~= s + t.drop_last());
        assert((s + t).last() == t.last());
    }
}

proof fn lemma_endings(from: CellModifier, to: CellModifier)
    ensures
        all_changed(from, endings(from, to)) == ({
            let reset = resets_intensity(from, to);
            let blink = (from.slow_blink && !to.slow_blink) || (from.rapid_blink
                && !to.rapid_blink);
            CellModifier {
                bold: if reset {
                    to.bold
                } else {
                    from.bold
                },
                dim: if reset {
                    to.dim
                } else {
                    from.dim
                },
                italic: from.italic && to.italic,
                underlined: from.underlined && to.underlined,
                slow_blink: from.slow_blink && !blink,
                rapid_blink: from.rapid_blink && !blink,
                reversed: from.reversed && to.reversed,
                hidden: from.hidden && to.hidden,
                crossed_out: from.crossed_out && to.crossed_out,
            }
        }),
{
    let reset = resets_intensity(from, to);
    let s0: Seq<Attribute> = Seq::empty();
    let s1 = s0 + one_if(from.reversed && !to.reversed, Attribute::NoReverse);
    let s2 = s1 + one_if(reset, Attribute::NormalIntensity);
    let s3 = s2 + one_if(reset && to.dim, Attribute::Dim);
    let s4 = s3 + one_if(reset && to.bold, Attribute::Bold);
    let s5 = s4 + one_if(from.italic && !to.italic, Attribute::NoItalic);
    let s6 = s5 + one_if(from.underlined && !to.underlined, Attribute::NoUnderline);
    let s7 = s6 + one_if(from.crossed_out && !to.crossed_out, Attribute::NotCrossedOut);
    let s8 = s7 + one_if(from.hidden && !to.hidden, Attribute::NoHidden);
    let b9 = (from.slow_blink && !to.slow_blink) || (from.rapid_blink && !to.rapid_blink);
    lemma_then_one(from, s0, from.reversed && !to.reversed, Attribute::NoReverse);
    lemma_then_one(from, s1, reset, Attribute::NormalIntensity);
    lemma_then_one(from, s2, reset && to.dim, Attribute::Dim);
    lemma_then_one(from, s3, reset && to.bold, Attribute::Bold);
    lemma_then_one(from, s4, from.italic && !to.italic, Attribute::NoItalic);
    lemma_then_one(from, s5, from.underlined && !to.underlined, Attribute::NoUnderline);
    lemma_then_one(from, s6, from.crossed_out && !to.crossed_out, Attribute::NotCrossedOut);
    lemma_then_one(from, s7, from.hidden && !to.hidden, Attribute::NoHidden);
    lemma_then_one(from, s8, b9, Attribute::NoBlink);
    assert(s1 =~= one_if(from.reversed && !to.reversed, Attribute::NoReverse));
}

proof fn lemma_beginnings(m: CellModifier, from: CellModifier, to: CellModifier)
    ensures
        all_changed(m, beginnings(from, to)) == ({
            let reset = resets_intensity(from, to);
            CellModifier {
                bold: m.bold || (to.bold && !from.bold && !reset),
                dim: m.dim || (to.dim && !from.dim && !reset),
                italic: m.italic || (to.italic && !from.italic),
                underlined: m.underlined || (to.underlined && !from.underlined),
                slow_blink: m.slow_blink || (to.slow_blink && !from.slow_blink),
                rapid_blink: m.rapid_blink || (to.rapid_blink && !from.rapid_blink),
                reversed: m.reversed || (to.reversed && !from.reversed),
                hidden: m.hidden || (to.hidden && !from.hidden),
                crossed_out: m.crossed_out || (to.crossed_out && !from.crossed_out),
            }
        }),
{
    let reset = resets_intensity(from, to);
    let s0: Seq<Attribute> = Seq::empty();
    let s1 = s0 + one_if(to.reversed && !from.reversed, Attribute::Reverse);
    let s2 = s1 + one_if(to.bold && !from.bold && !reset, Attribute::Bold);
    let s3 = s2 + one_if(to.italic && !from.italic, Attribute::Italic);
    let s4 = s3 + one_if(to.underlined && !from.underlined, Attribute::Underlined);
    let s5 = s4 + one_if(to.dim && !from.dim && !reset, Attribute::Dim);
    let s6 = s5 + one_if(to.crossed_out && !from.crossed_out, Attribute::CrossedOut);
    let s7 = s6 + one_if(to.hidden && !from.hidden, Attribute::Hidden);
    let s8 = s7 + one_if(to.slow_blink && !from.slow_blink, Attribute::SlowBlink);
    lemma_then_one(m, s0, to.reversed && !from.reversed, Attribute::Reverse);
    lemma_then_one(m, s1, to.bold && !from.bold && !reset, Attribute::Bold);
    lemma_then_one(m, s2, to.italic && !from.italic, Attribute::Italic);
    lemma_then_one(m, s3, to.underlined && !from.underlined, Attribute::Underlined);
    lemma_then_one(m, s4, to.dim && !from.dim && !reset, Attribute::Dim);
    lemma_then_one(m, s5, to.crossed_out && !from.crossed_out, Attribute::CrossedOut);
    lemma_then_one(m, s6, to.hidden && !from.hidden, Attribute::Hidden);
    lemma_then_one(m, s7, to.slow_blink && !from.slow_blink, Attribute::SlowBlink);
    lemma_then_one(m, s8, to.rapid_blink && !from.rapid_blink, Attribute::RapidBlink);
    assert(s1 =~= one_if(to.reversed && !from.reversed, Attribute::Reverse));
}

/// The changes from some attributes to others lead there, except where both kinds of blinking are
/// on and only one of them is to end.
pub proof fn law_changes_lead_there(from: CellModifier, to: CellModifier)
    requires
        blinking_kept(from, to),
    ensures
        all_changed(from, modifier_changes(from, to)) == to,
{
    reveal(modifier_changes);
    lemma_then_all(from, endings(from, to), beginnings(from, to));
    lemma_endings(from, to);
    lemma_beginnings(all_changed(from, endings(from, to)), from, to);
}

/// A change from some attributes to others.
#[derive(Clone, Copy, Debug)]
pub struct ModifierDiff {
    pub from: CellModifier,
    pub to: CellModifier,
}

fn push_if(out: &mut Vec<Attribute>, b: bool, a: Attribute)
    ensures
        final(out)@ == old(out)@ + one_if(b, a),
{
    let ghost before = out@;
    if b {
        out.push(a);
    }
    proof {
        assert(out@ =~= before + one_if(b, a));
    }
}

impl ModifierDiff {
    /// The changes, in order.
    pub fn queue(self) -> (r: Vec<Attribute>)
        ensures
            r@ == modifier_changes(self.from, self.to),
    {
        proof {
            reveal(modifier_changes);
        }
        let from = self.from;
        let to = self.to;
        let mut out: Vec<Attribute> = Vec::new();
        push_if(&mut out, from.reversed && !to.reversed, Attribute::NoReverse);
        proof {
            assert(out@ =~= one_if(from.reversed && !to.reversed, Attribute::NoReverse));
        }
        let reset: bool = (from.bold && !to.bold) || (from.dim && !to.dim);
        push_if(&mut out, reset, Attribute::NormalIntensity);
        push_if(&mut out, reset && to.dim, Attribute::Dim);
        push_if(&mut out, reset && to.bold, Attribute::Bold);
        push_if(&mut out, from.italic && !to.italic, Attribute::NoItalic);
        push_if(&mut out, from.underlined && !to.underlined, Attribute::NoUnderline);
        push_if(&mut out, from.crossed_out && !to.crossed_out, Attribute::NotCrossedOut);
        push_if(&mut out, from.hidden && !to.hidden, Attribute::NoHidden);
        push_if(
            &mut out,
            (from.slow_blink && !to.slow_blink) || (from.rapid_blink && !to.rapid_blink),
            Attribute::NoBlink,
        );
        let mut more: Vec<Attribute> = Vec::new();
        push_if(&mut more, to.reversed && !from.reversed, Attribute::Reverse);
        proof {
            assert(out@ == endings(from, to));
            assert(more@ =~= one_if(to.reversed && !from.reversed, Attribute::Reverse));
        }
        push_if(&mut more, to.bold && !from.bold && !reset, Attribute::Bold);
        push_if(&mut more, to.italic && !from.italic, Attribute::Italic);
        push_if(&mut more, to.underlined && !from.underlined, Attribute::Underlined);
        push_if(&mut more, to.dim && !from.dim && !reset, Attribute::Dim);
        push_if(&mut more, to.crossed_out && !from.crossed_out, Attribute::CrossedOut);
        push_if(&mut more, to.hidden && !from.hidden, Attribute::Hidden);
        push_if(&mut more, to.slow_blink && !from.slow_blink, Attribute::SlowBlink);
        push_if(&mut more, to.rapid_blink && !from.rapid_blink, Attribute::RapidBlink);
        out.append(&mut more);
        out
    }
}

/// A cell to draw, and where.
#[derive(Debug)]
pub struct PlacedCell {
    pub x: u16,
    pub y: u16,
    pub symbol: String,
    pub fg: Color,
    pub bg: Color,
    pub modifier: CellModifier,
}

#[verifier::ext_equal]
pub struct CellV {
    pub x: u16,
    pub y: u16,
    pub symbol: Seq<char>,
    pub fg: Color,
    pub bg: Color,
    pub modifier: CellModifier,
}

impl View for PlacedCell {
    type V = CellV;

    open spec fn view(&self) -> CellV {
        CellV {
            x: self.x,
            y: self.y,
            symbol: self.symbol@,
            fg: self.fg,
            bg: self.bg,
            modifier: self.modifier,
        }
    }
}

pub open spec fn cell_views(cells: Seq<PlacedCell>) -> Seq<CellV> {
    Seq::new(cells.len(), |i: int| cells[i]@)
}

/// Something to send to the terminal.
#[derive(Debug)]
pub enum TermOp {
    MoveTo(u16, u16),
    Change(Attribute),
    Foreground(Color),
    Background(Color),
    Colors(Color, Color),
    Print(String),
    /// No colour and no attribute.
    Reset,
}

#[verifier::ext_equal]
pub enum OpV {
    MoveTo(u16, u16),
    Change(Attribute),
    Foreground(Color),
    Background(Color),
    Colors(Color, Color),
    Print(Seq<char>),
    Reset,
}

impl View for TermOp {
    type V = OpV;

    open spec fn view(&self) -> OpV {
        match *self {
            TermOp::MoveTo(x, y) => OpV::MoveTo(x, y),
            TermOp::Change(a) => OpV::Change(a),
            TermOp::Foreground(c) => OpV::Foreground(c),
            TermOp::Background(c) => OpV::Background(c),
            TermOp::Colors(f, b) => OpV::Colors(f, b),
            TermOp::Print(s) => OpV::Print(s@),
            TermOp::Reset => OpV::Reset,
        }
    }
}

pub open spec fn op_views(ops: Seq<TermOp>) -> Seq<OpV> {
    Seq::new(ops.len(), |i: int| ops[i]@)
}

/// What is taken for known of the terminal while cells are sent.
pub struct Pen {
    pub fg: Color,
    pub bg: Color,
    pub modifier: CellModifier,
    pub last: Option<(u16, u16)>,
}

pub open spec fn fresh_pen() -> Pen {
    Pen { fg: Color::Reset, bg: Color::Reset, modifier: no_attributes(), last: None }
}

/// What moves the terminal to a cell: nothing, right behind the last one.
pub open spec fn move_ops(p: Pen, c: CellV) -> Seq<OpV> {
    if p.last matches Some(l) && c.x == l.0 + 1 && c.y == l.1 {
        Seq::empty()
    } else {
        seq![OpV::MoveTo(c.x, c.y)]
    }
}

pub open spec fn change_ops(changes: Seq<Attribute>) -> Seq<OpV> {
    Seq::new(changes.len(), |i: int| OpV::Change(changes[i]))
}

pub open spec fn style_ops(p: Pen, c: CellV) -> Seq<OpV> {
    if c.modifier == p.modifier {
        Seq::empty()
    } else {
        change_ops(modifier_changes(p.modifier, c.modifier))
    }
}

/// What sets the colours of a cell. A cell without a background has that sent in any case.
pub open spec fn color_ops(p: Pen, c: CellV) -> Seq<OpV> {
    if c.bg == Color::Reset {
        if c.fg == p.fg {
            seq![OpV::Background(Color::Reset)]
        } else {
            seq![OpV::Background(Color::Reset), OpV::Foreground(c.fg)]
        }
    } else if c.fg != p.fg || c.bg != p.bg {
        seq![OpV::Colors(c.fg, c.bg)]
    } else {
        Seq::empty()
    }
}

/// What sends a cell.
pub open spec fn cell_ops(p: Pen, c: CellV) -> Seq<OpV> {
    move_ops(p, c) + style_ops(p, c) + color_ops(p, c) + seq![OpV::Print(c.symbol)]
}

/// What is known once a cell is sent.
pub open spec fn pen_after(p: Pen, c: CellV) -> Pen {
    Pen { fg: c.fg, bg: c.bg, modifier: c.modifier, last: Some((c.x, c.y)) }
}

/// What is known before cell `n`.
pub open spec fn pen_before(cells: Seq<CellV>, n: int) -> Pen {
    if n <= 0 {
        fresh_pen()
    } else {
        pen_after(fresh_pen(), cells[n - 1])
    }
}

/// What sends the first `n` cells.
pub open spec fn cells_ops(cells: Seq<CellV>, n: int) -> Seq<OpV>
    decreases n,
{
    if n <= 0 {
        Seq::empty()
    } else {
        cells_ops(cells, n - 1) + cell_ops(pen_before(cells, n - 1), cells[n - 1])
    }
}

/// A terminal: where it writes next, in which colours and with which attributes, and what was
/// written, with the place and style of each text.
#[verifier::ext_equal]
pub struct TerminalV {
    pub x: int,
    pub y: int,
    pub fg: Color,
    pub bg: Color,
    pub modifier: CellModifier,
    pub written: Seq<CellV>,
}

/// A terminal after one step. Text of one column moves it one column on; where it is after wider
/// text is left to the terminal.
pub open spec fn stepped_on(t: TerminalV, op: OpV, after: int) -> TerminalV {
    match op {
        OpV::MoveTo(x, y) => TerminalV { x: x as int, y: y as int, ..t },
        OpV::Change(a) => TerminalV { modifier: changed(t.modifier, a), ..t },
        OpV::Foreground(c) => TerminalV { fg: c, ..t },
        OpV::Background(c) => TerminalV { bg: c, ..t },
        OpV::Colors(f, b) => TerminalV { fg: f, bg: b, ..t },
        OpV::Print(s) => TerminalV {
            x: if text::columns(s) == 1 {
                t.x + 1
            } else {
                after
            },
            written: t.written.push(
                CellV {
                    x: t.x as u16,
                    y: t.y as u16,
                    symbol: s,
                    fg: t.fg,
                    bg: t.bg,
                    modifier: t.modifier,
                },
            ),
            ..t
        },
        OpV::Reset => TerminalV {
            fg: Color::Reset,
            bg: Color::Reset,
            modifier: no_attributes(),
            ..t
        },
    }
}

/// A terminal after some steps.
pub open spec fn run_ops(t: TerminalV, ops: Seq<OpV>, after: int) -> TerminalV
    decreases ops.len(),
{
    if ops.len() == 0 {
        t
    } else {
        stepped_on(run_ops(t, ops.drop_last(), after), ops.last(), after)
    }
}

proof fn lemma_run_more(t: TerminalV, a: Seq<OpV>, b: Seq<OpV>, after: int)
    ensures
        run_ops(t, a + b, after) == run_ops(run_ops(t, a, after), b, after),
    decreases b.len(),
{
    if b.len() == 0 {
        assert(a + b =~= a);
    } else {
        lemma_run_more(t, a, b.drop_last(), after);
        assert((a + b).drop_last() =~= a + b.drop_last());
        assert((a + b).last() == b.last());
    }
}

proof fn lemma_run_changes(t: TerminalV, changes: Seq<Attribute>, after: int)
    ensures
        run_ops(t, change_ops(changes), after) == (TerminalV {
            modifier: all_changed(t.modifier, changes),
            ..t
        }),
    decreases changes.len(),
{
    if changes.len() > 0 {
        lemma_run_changes(t, changes.drop_last(), after);
        assert(change_ops(changes).drop_last() =~= change_ops(changes.drop_last()));
        assert(change_ops(changes).last() == OpV::Change(changes.last()));
    }
}

proof fn lemma_run_one(t: TerminalV, op: OpV, after: int)
    ensures
        run_ops(t, seq![op], after) == stepped_on(t, op, after),
{
    assert(seq![op].drop_last() =~= Seq::<OpV>::empty());
    assert(seq![op].last() == op);
    assert(run_ops(t, Seq::<OpV>::empty(), after) == t);
}

/// Whether cells are given so that each begins where the terminal is right behind the one before
/// it only if that is one column wide, and no blinking is lost.
pub open spec fn can_follow(cells: Seq<CellV>) -> bool {
    forall|i: int|
        1 <= i < cells.len() ==> {
            let before = #[trigger] cells[i - 1];
            let c = cells[i];
            &&& (c.x == before.x + 1 && c.y == before.y ==> text::columns(before.symbol) == 1)
            &&& blinking_kept(before.modifier, c.modifier)
        }
}

proof fn lemma_moved(t: TerminalV, p: Pen, c: CellV, after: int)
    requires
        move_ops(p, c).len() == 0 ==> t.x == c.x && t.y == c.y,
    ensures
        run_ops(t, move_ops(p, c), after) == (TerminalV { x: c.x as int, y: c.y as int, ..t }),
{
    if move_ops(p, c).len() > 0 {
        lemma_run_one(t, OpV::MoveTo(c.x, c.y), after);
    }
}

proof fn lemma_styled(t: TerminalV, p: Pen, c: CellV, after: int)
    requires
        t.modifier == p.modifier,
        blinking_kept(p.modifier, c.modifier),
    ensures
        run_ops(t, style_ops(p, c), after) == (TerminalV { modifier: c.modifier, ..t }),
{
    if c.modifier != p.modifier {
        law_changes_lead_there(p.modifier, c.modifier);
        lemma_run_changes(t, modifier_changes(p.modifier, c.modifier), after);
    }
}

proof fn lemma_colored(t: TerminalV, p: Pen, c: CellV, after: int)
    requires
        t.fg == p.fg,
        p.last is Some ==> t.bg == p.bg,
        p.last is None ==> p.bg == Color::Reset,
    ensures
        run_ops(t, color_ops(p, c), after) == (TerminalV { fg: c.fg, bg: c.bg, ..t }),
{
    if c.bg == Color::Reset {
        lemma_run_one(t, OpV::Background(Color::Reset), after);
        if c.fg != p.fg {
            let first = seq![OpV::Background(Color::Reset)];
            let second = seq![OpV::Foreground(c.fg)];
            assert(color_ops(p, c) =~= first + second);
            lemma_run_more(t, first, second, after);
            lemma_run_one(run_ops(t, first, after), OpV::Foreground(c.fg), after);
        }
    } else if c.fg != p.fg || c.bg != p.bg {
        lemma_run_one(t, OpV::Colors(c.fg, c.bg), after);
    }
}

proof fn lemma_cell_sent(t: TerminalV, p: Pen, c: CellV, after: int)
    requires
        t.fg == p.fg,
        p.last is Some ==> t.bg == p.bg,
        p.last is None ==> p.bg == Color::Reset,
        t.modifier == p.modifier,
        blinking_kept(p.modifier, c.modifier),
        move_ops(p, c).len() == 0 ==> t.x == c.x && t.y == c.y,
    ensures
        run_ops(t, cell_ops(p, c), after) == stepped_on(
            TerminalV {
                x: c.x as int,
                y: c.y as int,
                fg: c.fg,
                bg: c.bg,
                modifier: c.modifier,
                ..t
            },
            OpV::Print(c.symbol),
            after,
        ),
{
    let a = move_ops(p, c);
    let b = style_ops(p, c);
    let d = color_ops(p, c);
    let e = seq![OpV::Print(c.symbol)];
    lemma_run_more(t, a + b + d, e, after);
    lemma_run_more(t, a + b, d, after);
    lemma_run_more(t, a, b, after);
    lemma_moved(t, p, c, after);
    let t1 = TerminalV { x: c.x as int, y: c.y as int, ..t };
    lemma_styled(t1, p, c, after);
    let t2 = TerminalV { modifier: c.modifier, ..t1 };
    lemma_colored(t2, p, c, after);
    let t3 = TerminalV { fg: c.fg, bg: c.bg, ..t2 };
    lemma_run_one(t3, OpV::Print(c.symbol), after);
}

/// Whatever background a terminal was left with, every cell is written at its place with its
/// colours and attributes. The terminal is to have no other colour and no attribute at first, and
/// each cell to follow right behind another one only where that is one column wide; a change from
/// both kinds of blinking to one of them is left out, as it does not lead there.
pub proof fn law_cells_are_written(t: TerminalV, cells: Seq<CellV>, n: int, after: int)
    requires
        t.fg == Color::Reset,
        t.modifier == no_attributes(),
        can_follow(cells),
        0 <= n <= cells.len(),
    ensures
        run_ops(t, cells_ops(cells, n), after).written == t.written + cells.take(n),
        n > 0 ==> ({
            let r = run_ops(t, cells_ops(cells, n), after);
            let last = cells[n - 1];
            &&& r.fg == last.fg
            &&& r.bg == last.bg
            &&& r.modifier == last.modifier
            &&& r.y == last.y
            &&& text::columns(last.symbol) == 1 ==> r.x == last.x + 1
        }),
    decreases n,
{
    if n <= 0 {
        assert(run_ops(t, cells_ops(cells, n), after) == t);
        assert(t.written + cells.take(n) =~= t.written);
    } else {
        law_cells_are_written(t, cells, n - 1, after);
        let c = cells[n - 1];
        let p = pen_before(cells, n - 1);
        let front = cells_ops(cells, n - 1);
        let u = run_ops(t, front, after);
        lemma_run_more(t, front, cell_ops(p, c), after);
        if n == 1 {
            assert(run_ops(t, cells_ops(cells, 0), after) == t);
        } else {
            let before = cells[n - 2];
            assert(cells[(n - 1) - 1] == before);
        }
        lemma_cell_sent(u, p, c, after);
        assert(t.written + cells.take(n) =~= (t.written + cells.take(n - 1)).push(c));
    }
}

/// Sends cells to a terminal through a writer.
pub struct TerminalBackend<W> {
    pub writer: W,
}

/// What of the screen is cleared.
#[derive(Clone, Copy, Debug, PartialEq, Eq, Structural)]
pub enum ClearType {
    All,
    AfterCursor,
    BeforeCursor,
    CurrentLine,
    UntilNewLine,
}

fn push_op(ops: &mut Vec<TermOp>, op: TermOp)
    ensures
        op_views(final(ops)@) == op_views(old(ops)@).push(op@),
{
    let ghost before = ops@;
    ops.push(op);
    proof {
        assert(op_views(ops@) =~= op_views(before).push(op@));
    }
}

fn push_changes(ops: &mut Vec<TermOp>, changes: &Vec<Attribute>)
    ensures
        op_views(final(ops)@) == op_views(old(ops)@) + change_ops(changes@),
{
    let ghost before = op_views(ops@);
    let mut i: usize = 0;
    proof {
        assert(before + change_ops(changes@).take(0) =~= before);
    }
    while i < changes.len()
        invariant
            i <= changes@.len(),
            op_views(ops@) == before + change_ops(changes@).take(i as int),
        decreases changes@.len() - i,
    {
        push_op(ops, TermOp::Change(changes[i]));
        proof {
            assert(before + change_ops(changes@).take(i + 1) =~= (before + change_ops(
                changes@,
            ).take(i as int)).push(OpV::Change(changes@[i as int])));
        }
        i = i + 1;
    }
    proof {
        assert(change_ops(changes@).take(i as int) =~= change_ops(changes@));
    }
}

fn send_cell(
    ops: &mut Vec<TermOp>,
    cell: &PlacedCell,
    fg: Color,
    bg: Color,
    modifier: CellModifier,
    last: Option<(u16, u16)>,
)
    ensures
        op_views(final(ops)@) == op_views(old(ops)@) + cell_ops(
            Pen { fg, bg, modifier, last },
            cell@,
        ),
{
    let ghost p = Pen { fg, bg, modifier, last };
    let ghost before = op_views(ops@);
    let follows: bool = match last {
        Some((x, y)) => x < u16::MAX && cell.x == x + 1 && cell.y == y,
        None => false,
    };
    if !follows {
        push_op(ops, TermOp::MoveTo(cell.x, cell.y));
    }
    proof {
        assert(op_views(ops@) =~= before + move_ops(p, cell@));
    }
    if cell.modifier != modifier {
        let changes = ModifierDiff { from: modifier, to: cell.modifier }.queue();
        push_changes(ops, &changes);
    }
    proof {
        assert(op_views(ops@) =~= before + move_ops(p, cell@) + style_ops(p, cell@));
    }
    if cell.bg == Color::Reset {
        push_op(ops, TermOp::Background(Color::Reset));
        if cell.fg != fg {
            push_op(ops, TermOp::Foreground(cell.fg));
        }
    } else if cell.fg != fg || cell.bg != bg {
        push_op(ops, TermOp::Colors(cell.fg, cell.bg));
    }
    proof {
        assert(op_views(ops@) =~= before + move_ops(p, cell@) + style_ops(p, cell@) + color_ops(
            p,
            cell@,
        ));
    }
    push_op(ops, TermOp::Print(cell.symbol.clone()));
    proof {
        assert(op_views(ops@) =~= before + cell_ops(p, cell@));
    }
}

impl<W> TerminalBackend<W> {
    /// A backend that writes to a writer.
    pub fn new(writer: W) -> (r: Self)
        ensures
            r.writer == writer,
    {
        TerminalBackend { writer }
    }

    /// What sends cells to the terminal.
    pub fn draw(content: &[PlacedCell]) -> (r: Vec<TermOp>)
        ensures
            op_views(r@) == cells_ops(cell_views(content@), content@.len() as int).push(
                OpV::Reset,
            ),
    {
        let ghost cells = cell_views(content@);
        let mut ops: Vec<TermOp> = Vec::new();
        let mut fg: Color = Color::Reset;
        let mut bg: Color = Color::Reset;
        let mut modifier: CellModifier = CellModifier::empty();
        let mut last: Option<(u16, u16)> = None;
        let mut i: usize = 0;
        proof {
            assert(op_views(ops@) =~= Seq::empty());
        }
        while i < content.len()
            invariant
                i <= content@.len(),
                cells == cell_views(content@),
                op_views(ops@) == cells_ops(cells, i as int),
                pen_before(cells, i as int) == (Pen { fg, bg, modifier, last }),
            decreases content@.len() - i,
        {
            let cell = &content[i];
            proof {
                assert(cells[i as int] == cell@);
            }
            send_cell(&mut ops, cell, fg, bg, modifier, last);
            fg = cell.fg;
            bg = cell.bg;
            modifier = cell.modifier;
            last = Some((cell.x, cell.y));
            i = i + 1;
        }
        push_op(&mut ops, TermOp::Reset);
        ops
    }

    /// What is cleared: the whole screen never is, as what servers draw on it would be gone.
    pub fn clear_region(clear_type: ClearType) -> (r: Option<ClearType>)
        ensures
            r == (if clear_type == ClearType::All {
                None
            } else {
                Some(clear_type)
            }),
    {
        match clear_type {
            ClearType::All => None,
            other => Some(other),
        }
    }
}

} // verus!
