//! Colours and text styles, and how the layout names them.

use crate::text;
use vstd::prelude::*;

verus! {

/// A colour of the terminal; `Reset` is the terminal's own.
#[derive(Clone, Copy, Debug, PartialEq, Eq, Structural)]
pub enum Color {
    Reset,
    Black,
    Red,
    Green,
    Yellow,
    Blue,
    Magenta,
    Cyan,
    Gray,
    DarkGray,
    LightRed,
    LightGreen,
    LightYellow,
    LightBlue,
    LightMagenta,
    LightCyan,
    White,
    Rgb(u8, u8, u8),
    Indexed(u8),
}

/// Colours and attributes of a stretch of text. A colour that is not set stays what it was.
#[derive(Clone, Copy, Debug, PartialEq, Eq, Structural)]
pub struct SpanStyle {
    pub fg: Option<Color>,
    pub bg: Option<Color>,
    pub bold: bool,
    pub dim: bool,
    pub italic: bool,
    pub underlined: bool,
    pub reversed: bool,
}

/// The style that sets nothing.
pub open spec fn no_style() -> SpanStyle {
    SpanStyle {
        fg: None,
        bg: None,
        bold: false,
        dim: false,
        italic: false,
        underlined: false,
        reversed: false,
    }
}

/// The style of two colours.
pub open spec fn colored(fg: Option<Color>, bg: Option<Color>, bold: bool) -> SpanStyle {
    SpanStyle { fg, bg, bold, ..no_style() }
}

impl SpanStyle {
    /// The style that sets nothing.
    pub fn none() -> (r: Self)
        ensures
            r == no_style(),
    {
        SpanStyle {
            fg: None,
            bg: None,
            bold: false,
            dim: false,
            italic: false,
            underlined: false,
            reversed: false,
        }
    }

    /// The style of two colours.
    pub fn of(fg: Option<Color>, bg: Option<Color>, bold: bool) -> (r: Self)
        ensures
            r == colored(fg, bg, bold),
    {
        SpanStyle {
            fg,
            bg,
            bold,
            dim: false,
            italic: false,
            underlined: false,
            reversed: false,
        }
    }
}

/// Value of a text of decimal digits.
pub open spec fn digits_value(s: Seq<char>) -> nat
    decreases s.len(),
{
    if s.len() == 0 {
        0
    } else {
        (digits_value(s.drop_last()) * 10 + (s.last() as u32 - 48)) as nat
    }
}

pub open spec fn all_digits(s: Seq<char>) -> bool {
    forall|i: int| 0 <= i < s.len() ==> '0' <= #[trigger] s[i] && s[i] <= '9'
}

/// A text without a plus sign in front.
pub open spec fn unsigned(s: Seq<char>) -> Seq<char> {
    if s.len() > 0 && s[0] == '+' {
        s.skip(1)
    } else {
        s
    }
}

/// The number of one byte that a text writes in decimal: digits, with a plus sign in front or not.
pub open spec fn byte_number(s: Seq<char>) -> Option<u8> {
    let d = unsigned(s);
    if d.len() > 0 && all_digits(d) && digits_value(d) <= 255 {
        Some(digits_value(d) as u8)
    } else {
        None
    }
}

proof fn lemma_digits_grow(s: Seq<char>, n: int)
    requires
        0 <= n <= s.len(),
        all_digits(s),
    ensures
        digits_value(s.take(n)) <= digits_value(s),
    decreases s.len(),
{
    if n == s.len() {
        assert(s.take(n) =~= s);
    } else {
        assert(s.drop_last().take(n) =~= s.take(n));
        lemma_digits_grow(s.drop_last(), n);
    }
}

fn parse_byte(cs: &[char], start: usize, end: usize) -> (r: Option<u8>)
    requires
        start <= end <= cs@.len(),
    ensures
        r == byte_number(cs@.subrange(start as int, end as int)),
{
    let ghost whole = cs@.subrange(start as int, end as int);
    let from: usize = if start < end && cs[start] == '+' {
        start + 1
    } else {
        start
    };
    let ghost d = cs@.subrange(from as int, end as int);
    proof {
        assert(d =~= unsigned(whole));
    }
    if from == end {
        return None;
    }
    let mut value: u32 = 0;
    let mut i: usize = from;
    proof {
        assert(d.take(0) =~= Seq::empty());
    }
    while i < end
        invariant
            from <= i <= end <= cs@.len(),
            d == cs@.subrange(from as int, end as int),
            whole == cs@.subrange(start as int, end as int),
            d == unsigned(whole),
            from < end,
            value <= 255,
            value == digits_value(d.take(i - from)),
            forall|k: int| 0 <= k < i - from ==> '0' <= #[trigger] d[k] && d[k] <= '9',
        decreases end - i,
    {
        let c: char = cs[i];
        proof {
            assert(d[i - from] == c);
            assert(d.take(i - from + 1).drop_last() =~= d.take(i - from));
        }
        if c < '0' || c > '9' {
            return None;
        }
        value = value * 10 + (c as u32 - 48);
        if value > 255 {
            proof {
                if all_digits(d) {
                    lemma_digits_grow(d, i - from + 1);
                }
            }
            return None;
        }
        i = i + 1;
    }
    proof {
        assert(d.take(end - from) =~= d);
    }
    Some(value as u8)
}

/// Index of the first comma from `from` on, the length without one.
pub open spec fn comma_from(s: Seq<char>, from: int) -> int
    decreases s.len() - from,
{
    if from < 0 || from >= s.len() || s[from] == ',' {
        from
    } else {
        comma_from(s, from + 1)
    }
}

fn find_comma(cs: &[char], from: usize) -> (r: usize)
    requires
        from <= cs@.len(),
    ensures
        r == comma_from(cs@, from as int),
        from <= r <= cs@.len(),
{
    let mut i: usize = from;
    while i < cs.len() && cs[i] != ','
        invariant
            from <= i <= cs@.len(),
            comma_from(cs@, i as int) == comma_from(cs@, from as int),
        decreases cs@.len() - i,
    {
        i = i + 1;
    }
    i
}

/// The colour that three numbers with commas between them name.
pub open spec fn rgb_color(s: Seq<char>) -> Option<Color> {
    let a = comma_from(s, 0);
    let b = comma_from(s, a + 1);
    if a >= s.len() || b >= s.len() {
        None
    } else {
        match (
            byte_number(s.subrange(0, a)),
            byte_number(s.subrange(a + 1, b)),
            byte_number(s.subrange(b + 1, s.len() as int)),
        ) {
            (Some(x), Some(y), Some(z)) => Some(Color::Rgb(x, y, z)),
            _ => None,
        }
    }
}

fn parse_rgb(cs: &[char]) -> (r: Option<Color>)
    ensures
        r == rgb_color(cs@),
{
    let n: usize = cs.len();
    let a: usize = find_comma(cs, 0);
    if a >= n {
        return None;
    }
    let b: usize = find_comma(cs, a + 1);
    if b >= n {
        return None;
    }
    match (parse_byte(cs, 0, a), parse_byte(cs, a + 1, b), parse_byte(cs, b + 1, n)) {
        (Some(x), Some(y), Some(z)) => Some(Color::Rgb(x, y, z)),
        _ => None,
    }
}

/// The colour that a word names, the terminal's own where it names none.
pub open spec fn named_color(s: Seq<char>) -> Color {
    if s == "black"@ {
        Color::Black
    } else if s == "red"@ {
        Color::Red
    } else if s == "green"@ {
        Color::Green
    } else if s == "yellow"@ {
        Color::Yellow
    } else if s == "blue"@ {
        Color::Blue
    } else if s == "magenta"@ {
        Color::Magenta
    } else if s == "cyan"@ {
        Color::Cyan
    } else if s == "gray"@ {
        Color::Gray
    } else if s == "darkgray"@ {
        Color::DarkGray
    } else if s == "lightred"@ {
        Color::LightRed
    } else if s == "lightgreen"@ {
        Color::LightGreen
    } else if s == "lightyellow"@ {
        Color::LightYellow
    } else if s == "lightblue"@ {
        Color::LightBlue
    } else if s == "lightmagenta"@ {
        Color::LightMagenta
    } else if s == "lightcyan"@ {
        Color::LightCyan
    } else if s == "white"@ {
        Color::White
    } else {
        Color::Reset
    }
}

/// The colour that a word names, the terminal's own where it names none.
pub fn parse_color(s: &str) -> (r: Color)
    ensures
        r == named_color(s@),
{
    if text::same_text(s, "black") {
        Color::Black
    } else if text::same_text(s, "red") {
        Color::Red
    } else if text::same_text(s, "green") {
        Color::Green
    } else if text::same_text(s, "yellow") {
        Color::Yellow
    } else if text::same_text(s, "blue") {
        Color::Blue
    } else if text::same_text(s, "magenta") {
        Color::Magenta
    } else if text::same_text(s, "cyan") {
        Color::Cyan
    } else if text::same_text(s, "gray") {
        Color::Gray
    } else if text::same_text(s, "darkgray") {
        Color::DarkGray
    } else if text::same_text(s, "lightred") {
        Color::LightRed
    } else if text::same_text(s, "lightgreen") {
        Color::LightGreen
    } else if text::same_text(s, "lightyellow") {
        Color::LightYellow
    } else if text::same_text(s, "lightblue") {
        Color::LightBlue
    } else if text::same_text(s, "lightmagenta") {
        Color::LightMagenta
    } else if text::same_text(s, "lightcyan") {
        Color::LightCyan
    } else if text::same_text(s, "white") {
        Color::White
    } else {
        Color::Reset
    }
}

pub open spec fn begins_with(s: Seq<char>, head: Seq<char>) -> bool {
    s.len() >= head.len() && s.take(head.len() as int) == head
}

/// The colour that a layout writes: `default`, an index, three numbers or a word. What cannot be
/// read is the terminal's own colour.
pub open spec fn color_of(s: Seq<char>) -> Color {
    if s == "default"@ || s.len() == 0 {
        Color::Reset
    } else if begins_with(s, "idx:"@) {
        match byte_number(s.skip(4)) {
            Some(n) => Color::Indexed(n),
            None => Color::Reset,
        }
    } else if begins_with(s, "rgb:"@) {
        match rgb_color(s.skip(4)) {
            Some(c) => c,
            None => Color::Reset,
        }
    } else {
        named_color(s)
    }
}

fn after_head(cs: &Vec<char>) -> (r: Vec<char>)
    requires
        cs@.len() >= 4,
    ensures
        r@ == cs@.skip(4),
{
    let out = text::copy_range(cs.as_slice(), 4, cs.len());
    proof {
        assert(out@ =~= cs@.skip(4));
    }
    out
}

/// The colour that a layout writes.
pub fn parse_color_str(s: &str) -> (r: Color)
    ensures
        r == color_of(s@),
{
    let cs = text::chars_of(s);
    proof {
        reveal_strlit("idx:");
        reveal_strlit("rgb:");
    }
    if cs.len() == 0 || text::same_text(s, "default") {
        return Color::Reset;
    }
    let tagged: bool = cs.len() >= 4 && cs[3] == ':';
    let index: bool = tagged && cs[0] == 'i' && cs[1] == 'd' && cs[2] == 'x';
    let triple: bool = tagged && cs[0] == 'r' && cs[1] == 'g' && cs[2] == 'b';
    proof {
        if s@.len() >= 4 {
            assert(index ==> s@.take(4) =~= "idx:"@);
            assert(triple ==> s@.take(4) =~= "rgb:"@);
            assert(s@.take(4)[0] == s@[0] && s@.take(4)[1] == s@[1] && s@.take(4)[2] == s@[2]
                && s@.take(4)[3] == s@[3]);
        }
        assert(begins_with(s@, "idx:"@) == index);
        assert(begins_with(s@, "rgb:"@) == triple);
    }
    if index {
        let rest = after_head(&cs);
        proof {
            assert(rest@.subrange(0, rest@.len() as int) =~= rest@);
        }
        return match parse_byte(rest.as_slice(), 0, rest.len()) {
            Some(n) => Color::Indexed(n),
            None => Color::Reset,
        };
    }
    if triple {
        let rest = after_head(&cs);
        return match parse_rgb(rest.as_slice()) {
            Some(c) => c,
            None => Color::Reset,
        };
    }
    parse_color(s)
}

/// The background colour that a layout writes.
pub fn parse_bg_color_str(s: &str) -> (r: Color)
    ensures
        r == color_of(s@),
{
    parse_color_str(s)
}

/// The style of a run of the layout: its two colours and the attributes of its flags.
pub open spec fn run_style(fg: Seq<char>, bg: Seq<char>, flags: u8) -> SpanStyle {
    SpanStyle {
        fg: Some(color_of(fg)),
        bg: Some(color_of(bg)),
        bold: flags & 2 != 0,
        dim: flags & 1 != 0,
        italic: flags & 4 != 0,
        underlined: flags & 8 != 0,
        reversed: flags & 16 != 0,
    }
}

/// The style of a run of the layout.
pub fn style_of_run(fg: &str, bg: &str, flags: u8) -> (r: SpanStyle)
    ensures
        r == run_style(fg@, bg@, flags),
{
    SpanStyle {
        fg: Some(parse_color_str(fg)),
        bg: Some(parse_bg_color_str(bg)),
        bold: flags & 2 != 0,
        dim: flags & 1 != 0,
        italic: flags & 4 != 0,
        underlined: flags & 8 != 0,
        reversed: flags & 16 != 0,
    }
}

} // verus!
