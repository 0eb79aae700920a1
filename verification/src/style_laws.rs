//! Which colours and attributes a layout's words and numbers stand for.

use crate::key_laws;
use crate::style;
use crate::text;
use crate::style::Color;
use vstd::prelude::*;

verus! {

proof fn lemma_value(n: nat)
    ensures
        style::digits_value(text::decimal(n)) == n,
        style::all_digits(text::decimal(n)),
        text::decimal(n).len() > 0,
        style::unsigned(text::decimal(n)) == text::decimal(n),
    decreases n,
{
    key_laws::law_decimal_is_read_back(n);
    let d = text::decimal(n);
    if n < 10 {
        assert(d.drop_last() =~= Seq::empty());
        assert(style::digits_value(d.drop_last()) == 0);
    } else {
        lemma_value(n / 10);
        assert(d.drop_last() =~= text::decimal(n / 10));
    }
    assert('0' <= d[0] && d[0] <= '9');
}

/// `idx:` and a number in decimal notation is the colour of that number.
pub proof fn law_numbered_colors(n: u8)
    ensures
        style::color_of("idx:"@ + text::decimal(n as nat)) == Color::Indexed(n),
{
    reveal_strlit("idx:");
    reveal_strlit("default");
    lemma_value(n as nat);
    let s = "idx:"@ + text::decimal(n as nat);
    assert(s.take(4) =~= "idx:"@);
    assert(s.skip(4) =~= text::decimal(n as nat));
    assert(s[0] == 'i');
}

proof fn lemma_comma(s: Seq<char>, from: int, at: int)
    requires
        0 <= from <= at < s.len(),
        s[at] == ',',
        forall|k: int| from <= k < at ==> #[trigger] s[k] != ',',
    ensures
        style::comma_from(s, from) == at,
    decreases at - from,
{
    if from < at {
        assert(s[from] != ',');
        lemma_comma(s, from + 1, at);
    }
}

/// `rgb:` and three numbers with commas between them is the colour of that red, green and blue.
pub proof fn law_mixed_colors(r: u8, g: u8, b: u8)
    ensures
        style::color_of(
            "rgb:"@ + text::decimal(r as nat) + seq![','] + text::decimal(g as nat) + seq![','] + text::decimal(
                b as nat,
            ),
        ) == Color::Rgb(r, g, b),
{
    reveal_strlit("idx:");
    reveal_strlit("rgb:");
    reveal_strlit("default");
    let x = text::decimal(r as nat);
    let y = text::decimal(g as nat);
    let z = text::decimal(b as nat);
    lemma_value(r as nat);
    lemma_value(g as nat);
    lemma_value(b as nat);
    let s = "rgb:"@ + x + seq![','] + y + seq![','] + z;
    assert(s[0] == 'r');
    assert(s.take(4)[0] == 'r');
    assert(s.take(4) =~= "rgb:"@);
    let t = s.skip(4);
    assert(t =~= x + seq![','] + y + seq![','] + z);
    assert forall|k: int| 0 <= k < x.len() implies #[trigger] t[k] != ',' by {
        assert(t[k] == x[k]);
    }
    lemma_comma(t, 0, x.len() as int);
    let a = x.len() + 1int;
    let c = a + y.len();
    assert forall|k: int| a <= k < c implies #[trigger] t[k] != ',' by {
        assert(t[k] == y[k - x.len() - 1]);
    }
    lemma_comma(t, a, c);
    assert(t.subrange(0, x.len() as int) =~= x);
    assert(t.subrange(a, c) =~= y);
    assert(t.subrange(c + 1, t.len() as int) =~= z);
}

/// The attributes of a run are the bits of its flags: one dims, two is bold, four italic, eight
/// underlined and sixteen reversed.
pub proof fn law_attributes_are_bits(fg: Seq<char>, bg: Seq<char>, flags: u8)
    ensures
        style::run_style(fg, bg, flags).dim <==> flags % 2 == 1,
        style::run_style(fg, bg, flags).bold <==> (flags / 2) % 2 == 1,
        style::run_style(fg, bg, flags).italic <==> (flags / 4) % 2 == 1,
        style::run_style(fg, bg, flags).underlined <==> (flags / 8) % 2 == 1,
        style::run_style(fg, bg, flags).reversed <==> (flags / 16) % 2 == 1,
        style::run_style(fg, bg, flags).fg == Some(style::color_of(fg)),
        style::run_style(fg, bg, flags).bg == Some(style::color_of(bg)),
{
    assert(flags & 1 != 0 <==> flags % 2 == 1) by (bit_vector);
    assert(flags & 2 != 0 <==> (flags / 2) % 2 == 1) by (bit_vector);
    assert(flags & 4 != 0 <==> (flags / 4) % 2 == 1) by (bit_vector);
    assert(flags & 8 != 0 <==> (flags / 8) % 2 == 1) by (bit_vector);
    assert(flags & 16 != 0 <==> (flags / 16) % 2 == 1) by (bit_vector);
}

/// The words for the eight colours and for nothing, in every place where a colour is written.
pub proof fn law_color_words()
    ensures
        style::color_of("default"@) == Color::Reset,
        style::color_of(Seq::empty()) == Color::Reset,
        style::color_of("black"@) == Color::Black,
        style::color_of("red"@) == Color::Red,
        style::color_of("green"@) == Color::Green,
        style::color_of("yellow"@) == Color::Yellow,
        style::color_of("blue"@) == Color::Blue,
        style::color_of("magenta"@) == Color::Magenta,
        style::color_of("cyan"@) == Color::Cyan,
        style::color_of("gray"@) == Color::Gray,
        style::color_of("darkgray"@) == Color::DarkGray,
        style::color_of("lightred"@) == Color::LightRed,
        style::color_of("lightgreen"@) == Color::LightGreen,
        style::color_of("lightyellow"@) == Color::LightYellow,
        style::color_of("lightblue"@) == Color::LightBlue,
        style::color_of("lightmagenta"@) == Color::LightMagenta,
        style::color_of("lightcyan"@) == Color::LightCyan,
        style::color_of("white"@) == Color::White,
{
    reveal_strlit("default");
    reveal_strlit("idx:");
    reveal_strlit("rgb:");
    reveal_strlit("black");
    reveal_strlit("red");
    reveal_strlit("green");
    reveal_strlit("yellow");
    reveal_strlit("blue");
    reveal_strlit("magenta");
    reveal_strlit("cyan");
    reveal_strlit("gray");
    reveal_strlit("darkgray");
    reveal_strlit("lightred");
    reveal_strlit("lightgreen");
    reveal_strlit("lightyellow");
    reveal_strlit("lightblue");
    reveal_strlit("lightmagenta");
    reveal_strlit("lightcyan");
    reveal_strlit("white");
    assert("black"@[0] == 'b');
    assert("red"@[0] == 'r');
    assert("green"@[0] == 'g' && "green"@[1] == 'r');
    assert("yellow"@[0] == 'y');
    assert("blue"@[0] == 'b');
    assert("magenta"@[0] == 'm');
    assert("cyan"@[0] == 'c');
    assert("gray"@[0] == 'g');
    assert("darkgray"@[0] == 'd');
    assert("lightred"@[0] == 'l');
    assert("lightgreen"@[5] == 'g');
    assert("lightyellow"@[5] == 'y');
    assert("lightblue"@[5] == 'b');
    assert("lightmagenta"@[5] == 'm');
    assert("lightcyan"@[5] == 'c');
    assert("white"@[0] == 'w');
    assert("red"@.len() == 3);
    assert("idx:"@[3] == ':' && "rgb:"@[3] == ':');
    assert("black"@.take(4)[3] == 'c');
    assert("green"@.take(4)[3] == 'e');
    assert("yellow"@.take(4)[3] == 'l');
    assert("blue"@.take(4)[3] == 'e');
    assert("magenta"@.take(4)[3] == 'e');
    assert("cyan"@.take(4)[3] == 'n');
    assert("gray"@.take(4)[3] == 'y');
    assert("darkgray"@.take(4)[3] == 'k');
    assert("lightred"@.take(4)[3] == 'h');
    assert("lightgreen"@.take(4)[3] == 'h');
    assert("lightyellow"@.take(4)[3] == 'h');
    assert("lightblue"@.take(4)[3] == 'h');
    assert("lightmagenta"@.take(4)[3] == 'h');
    assert("lightcyan"@.take(4)[3] == 'h');
    assert("white"@.take(4)[3] == 't');
}

} // verus!
