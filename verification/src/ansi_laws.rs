//! The escape sequences, letter by letter.

use crate::ansi;
use crate::pointer;
use crate::server_ansi;
use crate::text;
use crate::pointer::{CursorStyle, MousePointerShape};
use crate::style::{Color, SpanStyle};
use vstd::prelude::*;

verus! {

/// An escape sequence of one number.
pub open spec fn numbered(n: int, letter: char) -> Seq<char> {
    seq!['\x1b', '['] + text::decimal(n as nat) + seq![letter]
}

/// The cursor is sent to a cell by its row and its column, in this order and counted from one.
pub proof fn law_cursor_goes_by_row_and_column(x: int, y: int)
    requires
        0 <= x,
        0 <= y,
    ensures
        ansi::cup(x, y) == seq!['\x1b', '['] + text::decimal((y + 1) as nat) + seq![';'] + text::decimal(
            (x + 1) as nat,
        ) + seq!['H'],
        ansi::go_to(x, y) == ansi::cup(x, y) + seq!['\x1b', '[', 'm'],
        ansi::erase_cells(x as nat) == numbered(x, 'X'),
{
}

/// The place of a colour among the sixteen that every terminal has: nought to seven for black, red,
/// green, yellow, blue, magenta, cyan and gray, and from sixty on for the bright ones.
pub open spec fn place_of(c: Color) -> Option<int> {
    match c {
        Color::Black => Some(0int),
        Color::Red => Some(1int),
        Color::Green => Some(2int),
        Color::Yellow => Some(3int),
        Color::Blue => Some(4int),
        Color::Magenta => Some(5int),
        Color::Cyan => Some(6int),
        Color::Gray => Some(7int),
        Color::DarkGray => Some(60int),
        Color::LightRed => Some(61int),
        Color::LightGreen => Some(62int),
        Color::LightYellow => Some(63int),
        Color::LightBlue => Some(64int),
        Color::LightMagenta => Some(65int),
        Color::LightCyan => Some(66int),
        Color::White => Some(67int),
        _ => None,
    }
}

/// The sixteen colours are set by one number, counted from thirty in front and from forty behind;
/// those of the palette by 38 or 48, a five and their number; mixed ones by 38 or 48, a two and
/// their red, green and blue. The terminal's own colour needs nothing.
pub proof fn law_color_sequences(c: Color, behind: bool)
    ensures
        ({
            let base: int = if behind {
                40
            } else {
                30
            };
            let code = ansi::color_code(c, base as nat);
            &&& c == Color::Reset ==> code.len() == 0
            &&& place_of(c) matches Some(n) ==> code == numbered(base + n, 'm')
            &&& c matches Color::Indexed(n) ==> code == seq!['\x1b', '['] + text::decimal(
                (base + 8) as nat,
            ) + seq![';', '5', ';'] + text::decimal(n as nat) + seq!['m']
            &&& c matches Color::Rgb(r, g, b) ==> code == seq!['\x1b', '['] + text::decimal(
                (base + 8) as nat,
            ) + seq![';', '2', ';'] + text::decimal(r as nat) + seq![';'] + text::decimal(g as nat) + seq![';']
                + text::decimal(b as nat) + seq!['m']
        }),
{
}

/// The numbers that set the attributes of a style: one for bold, two for dim, three for italic,
/// four for underlined and seven for reversed, each only where the style has it, before its
/// colours.
pub proof fn law_attribute_sequences(s: SpanStyle)
    ensures
        ({
            let flag = |set: bool, n: int|
                if set {
                    numbered(n, 'm')
                } else {
                    Seq::<char>::empty()
                };
            let color = |c: Option<Color>, base: nat|
                match c {
                    Some(c) => ansi::color_code(c, base),
                    None => Seq::<char>::empty(),
                };
            ansi::style_codes(s) == flag(s.bold, 1) + flag(s.dim, 2) + flag(s.italic, 3) + flag(
                s.underlined,
                4,
            ) + flag(s.reversed, 7) + color(s.fg, 30) + color(s.bg, 40)
        }),
        ansi::highlight().fg == Some(Color::Black),
        ansi::highlight().bg == Some(Color::Cyan),
{
}

/// From one style to another nothing is sent where they are the same; else everything is set back
/// and the new style set, whatever was there.
pub proof fn law_style_changes(from: SpanStyle, to: SpanStyle)
    ensures
        from == to ==> ansi::style_change(from, to).len() == 0,
        from != to && from != ansi::plain_cell() ==> ansi::style_change(from, to) == seq!['\x1b', '[', 'm']
            + ansi::style_codes(to),
        from != to && from == ansi::plain_cell() ==> ansi::style_change(from, to) == ansi::style_codes(to),
        ansi::plain_cell().fg == Some(Color::Reset),
        ansi::plain_cell().bg == Some(Color::Reset),
        !ansi::plain_cell().bold && !ansi::plain_cell().dim && !ansi::plain_cell().italic
            && !ansi::plain_cell().underlined && !ansi::plain_cell().reversed,
{
}

/// The pointer is set by operating system command 22 and the name of its shape.
pub proof fn law_pointer_sequences(shape: MousePointerShape)
    ensures
        pointer::pointer_sequence(shape) == seq!['\x1b', ']', '2', '2', ';'] + (match shape {
            MousePointerShape::Default => "default"@,
            MousePointerShape::Text => "text"@,
        }) + seq!['\x07'],
{
}

/// The shapes of the cursor by the number that a program asks for: blocks for nought to two,
/// underlines for three and four, bars for five and six; the odd ones and nought blink.
pub proof fn law_cursor_shapes(n: u8)
    ensures
        n <= 1 ==> pointer::cursor_style(Some(n)) == CursorStyle::BlinkingBlock,
        n == 2 ==> pointer::cursor_style(Some(n)) == CursorStyle::SteadyBlock,
        n == 3 ==> pointer::cursor_style(Some(n)) == CursorStyle::BlinkingUnderScore,
        n == 4 ==> pointer::cursor_style(Some(n)) == CursorStyle::SteadyUnderScore,
        n == 5 ==> pointer::cursor_style(Some(n)) == CursorStyle::BlinkingBar,
        n == 6 ==> pointer::cursor_style(Some(n)) == CursorStyle::SteadyBar,
        n > 6 ==> pointer::cursor_style(Some(n)) == CursorStyle::DefaultUserShape,
        pointer::cursor_style(None) == CursorStyle::DefaultUserShape,
{
}

/// A synchronised update begins with private mode 2026 set, the cursor hidden (25) and wrapping off
/// (7), and ends with 2026 reset; a text for the clipboard goes behind operating system command 52.
pub proof fn law_update_sequences()
    ensures
        vstd::utf8::encode_utf8("\x1b[?2026h\x1b[?25l\x1b[?7l"@) == server_ansi::update_begin(),
        vstd::utf8::encode_utf8("\x1b[?2026l"@) == server_ansi::update_end(),
        server_ansi::clipboard_head() == "\x1b]52;c;"@,
{
    reveal_strlit("\x1b[?2026h\x1b[?25l\x1b[?7l");
    reveal_strlit("\x1b[?2026l");
    reveal_strlit("\x1b]52;c;");
    let a = "\x1b[?2026h\x1b[?25l\x1b[?7l"@;
    let b = "\x1b[?2026l"@;
    assert forall|i: int| 0 <= i < a.len() implies '\0' <= #[trigger] a[i] && a[i] <= '\u{7f}' by {}
    vstd::utf8::is_ascii_chars_encode_utf8(a);
    assert forall|i: int| 0 <= i < b.len() implies '\0' <= #[trigger] b[i] && b[i] <= '\u{7f}' by {}
    vstd::utf8::is_ascii_chars_encode_utf8(b);
    let x = server_ansi::update_begin();
    let y = server_ansi::update_end();
    assert(vstd::utf8::encode_utf8(a) =~= x) by {
        assert forall|i: int| 0 <= i < x.len() implies vstd::utf8::encode_utf8(a)[i] == x[i] by {
            assert(a[i] as u8 == vstd::utf8::encode_utf8(a)[i]);
        }
    }
    assert(vstd::utf8::encode_utf8(b) =~= y) by {
        assert forall|i: int| 0 <= i < y.len() implies vstd::utf8::encode_utf8(b)[i] == y[i] by {
            assert(b[i] as u8 == vstd::utf8::encode_utf8(b)[i]);
        }
    }
    assert(server_ansi::clipboard_head() =~= "\x1b]52;c;"@);
}

} // verus!
