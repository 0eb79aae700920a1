//! What keys and the mouse send, byte by byte.

use crate::keys;
use crate::text;
use crate::keys::{KeyCode, KeyEvent, MouseButton, MouseEvent, MouseEventKind, NavDir};
use vstd::prelude::*;

verus! {

/// The bytes that a key sends.
pub open spec fn sent(key: KeyEvent) -> Seq<u8> {
    vstd::utf8::encode_utf8(keys::key_text(key))
}

/// The text of bytes below 128.
spec fn ascii(bytes: Seq<u8>) -> Seq<char> {
    Seq::new(bytes.len(), |i: int| bytes[i] as char)
}

proof fn lemma_ascii_bytes(text: Seq<char>, bytes: Seq<u8>)
    requires
        text == ascii(bytes),
        forall|i: int| 0 <= i < bytes.len() ==> #[trigger] bytes[i] < 128,
    ensures
        vstd::utf8::encode_utf8(text) == bytes,
{
    assert forall|i: int| 0 <= i < text.len() implies '\0' <= #[trigger] text[i] && text[i] <= '\u{7f}' by {
        assert(bytes[i] < 128);
    }
    vstd::utf8::is_ascii_chars_encode_utf8(text);
    assert forall|i: int| 0 <= i < bytes.len() implies vstd::utf8::encode_utf8(text)[i] == bytes[i] by {
        assert(text[i] as u8 == vstd::utf8::encode_utf8(text)[i]);
        assert(bytes[i] < 128);
    }
    assert(vstd::utf8::encode_utf8(text) =~= bytes);
}

proof fn lemma_digit(n: nat)
    requires
        n < 10,
    ensures
        text::decimal(n) == seq![(48 + n) as char],
{
}

proof fn lemma_two_digits(n: nat)
    requires
        10 <= n < 100,
    ensures
        text::decimal(n) == seq![(48 + n / 10) as char, (48 + n % 10) as char],
{
    reveal_with_fuel(text::decimal, 2);
    assert(text::decimal(n) =~= seq![(48 + n / 10) as char, (48 + n % 10) as char]);
}

/// The number that a terminal reports Shift, Alt and Control by.
pub open spec fn held_number(shift: bool, alt: bool, control: bool) -> int {
    1 + (if shift {
        1int
    } else {
        0
    }) + (if alt {
        2int
    } else {
        0
    }) + (if control {
        4int
    } else {
        0
    })
}

/// The last byte of the sequences that the cursor keys send: A for up, B for down, C for right, D
/// for left, H for home and F for end.
pub open spec fn cursor_byte(code: KeyCode) -> Option<u8> {
    match code {
        KeyCode::Up => Some(65u8),
        KeyCode::Down => Some(66u8),
        KeyCode::Right => Some(67u8),
        KeyCode::Left => Some(68u8),
        KeyCode::Home => Some(72u8),
        KeyCode::End => Some(70u8),
        _ => None,
    }
}

/// A cursor key sends escape, a bracket and its letter; with Alt or Control held, the number one
/// and that of what is held stand before the letter.
pub proof fn law_cursor_keys(key: KeyEvent)
    requires
        cursor_byte(key.code) is Some,
    ensures
        !key.modifiers.alt && !key.modifiers.control ==> sent(key) == seq![
            0x1bu8,
            0x5bu8,
            cursor_byte(key.code)->0,
        ],
        key.modifiers.alt || key.modifiers.control ==> sent(key) == seq![
            0x1bu8,
            0x5bu8,
            0x31u8,
            0x3bu8,
            (48 + held_number(false, key.modifiers.alt, key.modifiers.control)) as u8,
            cursor_byte(key.code)->0,
        ],
{
    let m = key.modifiers;
    let last = cursor_byte(key.code)->0;
    reveal_strlit("\x1b[");
    reveal_strlit("\x1b[1;");
    if m.alt || m.control {
        let n = held_number(false, m.alt, m.control);
        lemma_digit(n as nat);
        let bytes = seq![0x1bu8, 0x5bu8, 0x31u8, 0x3bu8, (48 + n) as u8, last];
        assert(keys::key_text(key) =~= ascii(bytes));
        lemma_ascii_bytes(keys::key_text(key), bytes);
    } else {
        let bytes = seq![0x1bu8, 0x5bu8, last];
        assert(keys::key_text(key) =~= ascii(bytes));
        lemma_ascii_bytes(keys::key_text(key), bytes);
    }
}

/// The number of the keys whose sequences end in a tilde: 2 for insert, 3 for delete, 5 and 6 for
/// the page keys, and those of the function keys from the fifth to the twenty-fourth, which leave
/// out 16, 22, 27, 30 and 35 to 41.
pub open spec fn tilde_number(code: KeyCode) -> Option<int> {
    match code {
        KeyCode::Insert => Some(2int),
        KeyCode::Delete => Some(3int),
        KeyCode::PageUp => Some(5int),
        KeyCode::PageDown => Some(6int),
        KeyCode::F(5) => Some(15int),
        KeyCode::F(6) => Some(17int),
        KeyCode::F(7) => Some(18int),
        KeyCode::F(8) => Some(19int),
        KeyCode::F(9) => Some(20int),
        KeyCode::F(10) => Some(21int),
        KeyCode::F(11) => Some(23int),
        KeyCode::F(12) => Some(24int),
        KeyCode::F(13) => Some(25int),
        KeyCode::F(14) => Some(26int),
        KeyCode::F(15) => Some(28int),
        KeyCode::F(16) => Some(29int),
        KeyCode::F(17) => Some(31int),
        KeyCode::F(18) => Some(32int),
        KeyCode::F(19) => Some(33int),
        KeyCode::F(20) => Some(34int),
        KeyCode::F(21) => Some(42int),
        KeyCode::F(22) => Some(43int),
        KeyCode::F(23) => Some(44int),
        KeyCode::F(24) => Some(45int),
        _ => None,
    }
}

/// A number below a hundred in decimal digits, as bytes.
pub open spec fn digits_of(n: int) -> Seq<u8> {
    if n < 10 {
        seq![(48 + n) as u8]
    } else {
        seq![(48 + n / 10) as u8, (48 + n % 10) as u8]
    }
}

/// These keys send escape, a bracket, their number and a tilde; with Alt or Control held, a
/// semicolon and the number of what is held stand before the tilde.
pub proof fn law_tilde_keys(key: KeyEvent)
    requires
        tilde_number(key.code) is Some,
    ensures
        !key.modifiers.alt && !key.modifiers.control ==> sent(key) == seq![0x1bu8, 0x5bu8] + digits_of(
            tilde_number(key.code)->0,
        ) + seq![0x7eu8],
        key.modifiers.alt || key.modifiers.control ==> sent(key) == seq![0x1bu8, 0x5bu8] + digits_of(
            tilde_number(key.code)->0,
        ) + seq![
            0x3bu8,
            (48 + held_number(false, key.modifiers.alt, key.modifiers.control)) as u8,
            0x7eu8,
        ],
{
    let m = key.modifiers;
    let code = tilde_number(key.code)->0;
    reveal_strlit("\x1b[");
    reveal_strlit(";");
    if code < 10 {
        lemma_digit(code as nat);
    } else {
        lemma_two_digits(code as nat);
    }
    if m.alt || m.control {
        let n = held_number(false, m.alt, m.control);
        lemma_digit(n as nat);
        let bytes = seq![0x1bu8, 0x5bu8] + digits_of(code) + seq![0x3bu8, (48 + n) as u8, 0x7eu8];
        assert(keys::key_text(key) =~= ascii(bytes));
        lemma_ascii_bytes(keys::key_text(key), bytes);
    } else {
        let bytes = seq![0x1bu8, 0x5bu8] + digits_of(code) + seq![0x7eu8];
        assert(keys::key_text(key) =~= ascii(bytes));
        lemma_ascii_bytes(keys::key_text(key), bytes);
    }
}

/// The first four function keys send escape, O and one of P, Q, R and S; with Alt or Control held,
/// as the cursor keys do.
pub proof fn law_first_function_keys(key: KeyEvent, n: u8)
    requires
        1 <= n <= 4,
        key.code == KeyCode::F(n),
    ensures
        !key.modifiers.alt && !key.modifiers.control ==> sent(key) == seq![
            0x1bu8,
            0x4fu8,
            (79 + n) as u8,
        ],
        key.modifiers.alt || key.modifiers.control ==> sent(key) == seq![
            0x1bu8,
            0x5bu8,
            0x31u8,
            0x3bu8,
            (48 + held_number(false, key.modifiers.alt, key.modifiers.control)) as u8,
            (79 + n) as u8,
        ],
{
    let m = key.modifiers;
    reveal_strlit("\x1b[1;");
    reveal_strlit("\x1bO");
    if m.alt || m.control {
        let held = held_number(false, m.alt, m.control);
        lemma_digit(held as nat);
        let bytes = seq![0x1bu8, 0x5bu8, 0x31u8, 0x3bu8, (48 + held) as u8, (79 + n) as u8];
        assert(keys::key_text(key) =~= ascii(bytes));
        lemma_ascii_bytes(keys::key_text(key), bytes);
    } else {
        let bytes = seq![0x1bu8, 0x4fu8, (79 + n) as u8];
        assert(keys::key_text(key) =~= ascii(bytes));
        lemma_ascii_bytes(keys::key_text(key), bytes);
    }
}

/// The one byte that a key sends which is no letter: carriage return for Enter, 127 for Backspace,
/// nought for Null, nine for Tab.
pub open spec fn single_byte(key: KeyEvent) -> Option<u8> {
    match key.code {
        KeyCode::Enter => Some(13u8),
        KeyCode::Backspace => Some(127u8),
        KeyCode::Null => Some(0u8),
        KeyCode::Tab => if key.modifiers.shift {
            None
        } else {
            Some(9u8)
        },
        _ => None,
    }
}

/// Enter, Backspace, Null and Tab send one byte, behind an escape where Alt is held; Escape sends
/// itself, and Tab with Shift a sequence of its own.
pub proof fn law_single_bytes(key: KeyEvent)
    ensures
        single_byte(key) matches Some(b) ==> sent(key) == (if key.modifiers.alt {
            seq![0x1bu8, b]
        } else {
            seq![b]
        }),
        key.code == KeyCode::Esc ==> sent(key) == seq![0x1bu8],
        key.code == KeyCode::BackTab || (key.code == KeyCode::Tab && key.modifiers.shift) ==> sent(
            key,
        ) == (if key.modifiers.alt {
            seq![0x1bu8, 0x1bu8, 0x5bu8, 0x5au8]
        } else {
            seq![0x1bu8, 0x5bu8, 0x5au8]
        }),
        key.code is Modifier || key.code == KeyCode::Other ==> sent(key).len() == 0,
        key.code matches KeyCode::F(n) ==> (n == 0 || n > 24) ==> sent(key).len() == 0,
{
    reveal_strlit("\x1b[Z");
    if let Some(b) = single_byte(key) {
        let bytes = if key.modifiers.alt {
            seq![0x1bu8, b]
        } else {
            seq![b]
        };
        assert(keys::key_text(key) =~= ascii(bytes));
        lemma_ascii_bytes(keys::key_text(key), bytes);
    } else if key.code == KeyCode::Esc {
        let bytes = seq![0x1bu8];
        assert(keys::key_text(key) =~= ascii(bytes));
        lemma_ascii_bytes(keys::key_text(key), bytes);
    } else if key.code == KeyCode::BackTab || key.code == KeyCode::Tab {
        let bytes = if key.modifiers.alt {
            seq![0x1bu8, 0x1bu8, 0x5bu8, 0x5au8]
        } else {
            seq![0x1bu8, 0x5bu8, 0x5au8]
        };
        assert(keys::key_text(key) =~= ascii(bytes));
        lemma_ascii_bytes(keys::key_text(key), bytes);
    }
}

/// A character other than a line break sends itself, behind an escape where Alt is held.
pub proof fn law_characters_send_themselves(key: KeyEvent, c: char)
    requires
        key.code == KeyCode::Char(c),
        !key.modifiers.control,
        c != '\r',
        c != '\n',
    ensures
        vstd::utf8::decode_utf8(sent(key)) == (if key.modifiers.alt {
            seq!['\x1b', c]
        } else {
            seq![c]
        }),
{
    vstd::utf8::encode_utf8_decode_utf8(keys::key_text(key));
    assert(keys::key_text(key) =~= (if key.modifiers.alt {
        seq!['\x1b', c]
    } else {
        seq![c]
    }));
}

/// Control with a letter, small or capital, sends its number in the alphabet.
pub proof fn law_control_sends_the_number(key: KeyEvent, c: char)
    requires
        key.code == KeyCode::Char(c),
        key.modifiers.control,
        ('a' <= c && c <= 'z') || ('A' <= c && c <= 'Z'),
    ensures
        ({
            let number = if c >= 'a' {
                c as u32 - 96
            } else {
                c as u32 - 64
            };
            sent(key) == (if key.modifiers.alt {
                seq![0x1bu8, number as u8]
            } else {
                seq![number as u8]
            })
        }),
{
    let number = if c >= 'a' {
        c as u32 - 96
    } else {
        c as u32 - 64
    };
    let bytes = if key.modifiers.alt {
        seq![0x1bu8, number as u8]
    } else {
        seq![number as u8]
    };
    assert(keys::key_text(key) =~= ascii(bytes));
    lemma_ascii_bytes(keys::key_text(key), bytes);
}

/// The byte that Control sends with a character that is no letter: nought for a blank, @ and 2,
/// and 27 to 31 for [ or 3, \ or 4, ] or 5, ^ or 6, and /, _ or 7; for ? it is 127.
pub open spec fn control_byte(c: char) -> Option<u8> {
    match c {
        ' ' | '@' | '2' => Some(0u8),
        '[' | '3' => Some(27u8),
        '\\' | '4' => Some(28u8),
        ']' | '5' => Some(29u8),
        '^' | '6' => Some(30u8),
        '/' | '_' | '7' => Some(31u8),
        '?' => Some(127u8),
        _ => None,
    }
}

/// Control with one of these sends that byte, behind an escape where Alt is held.
pub proof fn law_control_signs(key: KeyEvent, c: char)
    requires
        key.code == KeyCode::Char(c),
        key.modifiers.control,
        control_byte(c) is Some,
    ensures
        sent(key) == (if key.modifiers.alt {
            seq![0x1bu8, control_byte(c)->0]
        } else {
            seq![control_byte(c)->0]
        }),
{
    let bytes = if key.modifiers.alt {
        seq![0x1bu8, control_byte(c)->0]
    } else {
        seq![control_byte(c)->0]
    };
    assert(keys::key_text(key) =~= ascii(bytes));
    lemma_ascii_bytes(keys::key_text(key), bytes);
}

/// Behind the prefix h, j, k and l and the arrows name left, down, up and right, also while
/// Control is still held; Backspace is Control with h.
pub proof fn law_direction_keys(key: KeyEvent)
    requires
        !key.modifiers.shift,
        !key.modifiers.alt,
        !key.modifiers.super_key,
        !key.modifiers.hyper,
        !key.modifiers.meta,
    ensures
        keys::nav_dir(key) == Some(NavDir::Left) <==> (key.code == KeyCode::Char('h') || key.code
            == KeyCode::Left || key.code == KeyCode::Backspace),
        keys::nav_dir(key) == Some(NavDir::Down) <==> (key.code == KeyCode::Char('j') || key.code
            == KeyCode::Down),
        keys::nav_dir(key) == Some(NavDir::Up) <==> (key.code == KeyCode::Char('k') || key.code
            == KeyCode::Up),
        keys::nav_dir(key) == Some(NavDir::Right) <==> (key.code == KeyCode::Char('l') || key.code
            == KeyCode::Right),
{
}

/// The number that the mouse protocol gives an event without anything held: nought to two for the
/// left, middle and right button, 32 more while the mouse is dragged, 35 for a mere move, and 64
/// to 67 for the wheel up, down, left and right.
pub open spec fn event_number(kind: MouseEventKind) -> int {
    match kind {
        MouseEventKind::Down(b) | MouseEventKind::Up(b) => button_number(b),
        MouseEventKind::Drag(b) => 32 + button_number(b),
        MouseEventKind::Moved => 35,
        MouseEventKind::ScrollUp => 64,
        MouseEventKind::ScrollDown => 65,
        MouseEventKind::ScrollLeft => 66,
        MouseEventKind::ScrollRight => 67,
    }
}

pub open spec fn button_number(button: MouseButton) -> int {
    match button {
        MouseButton::Left => 0,
        MouseButton::Middle => 1,
        MouseButton::Right => 2,
    }
}

/// What a program is sent of the mouse: `ESC [ <`, three numbers with semicolons between them, and
/// a letter. The numbers are that of the event, to which Shift adds 4, Alt 8 and Control 16, and
/// the column and the row counted from one; the letter is m for a release and M for the rest.
pub proof fn law_mouse_report(event: MouseEvent)
    requires
        event.column < u16::MAX,
        event.row < u16::MAX,
    ensures
        ({
            let m = event.modifiers;
            let number = event_number(event.kind) + (if m.shift {
                4int
            } else {
                0
            }) + (if m.alt {
                8int
            } else {
                0
            }) + (if m.control {
                16int
            } else {
                0
            });
            let letter = if event.kind is Up {
                'm'
            } else {
                'M'
            };
            vstd::utf8::decode_utf8(vstd::utf8::encode_utf8(keys::mouse_text(event))) == seq![
                '\x1b',
                '[',
                '<',
            ] + text::decimal(number as nat) + seq![';'] + text::decimal((event.column + 1) as nat)
                + seq![';'] + text::decimal((event.row + 1) as nat) + seq![letter]
        }),
{
    reveal_strlit("\x1b[<");
    reveal_strlit(";");
    vstd::utf8::encode_utf8_decode_utf8(keys::mouse_text(event));
    assert("\x1b[<"@ =~= seq!['\x1b', '[', '<']);
    assert(";"@ =~= seq![';']);
    let m = event.modifiers;
    let number = event_number(event.kind) + (if m.shift {
        4int
    } else {
        0
    }) + (if m.alt {
        8int
    } else {
        0
    }) + (if m.control {
        16int
    } else {
        0
    });
    assert(keys::mouse_code(event) == number);
    assert(keys::mouse_text(event) =~= seq!['\x1b', '[', '<'] + text::decimal(number as nat) + seq![
        ';',
    ] + text::decimal((event.column + 1) as nat) + seq![';'] + text::decimal(
        (event.row + 1) as nat,
    ) + seq![
        if event.kind is Up {
            'm'
        } else {
            'M'
        },
    ]);
}

/// What decimal digits stand for.
pub open spec fn number_read(digits: Seq<char>) -> int
    decreases digits.len(),
{
    if digits.len() == 0 {
        0
    } else {
        number_read(digits.drop_last()) * 10 + (digits.last() as int - '0' as int)
    }
}

/// A number in decimal notation is read back as itself, and its notation is made of digits, the
/// first of which is nought only for nought itself.
pub proof fn law_decimal_is_read_back(n: nat)
    ensures
        number_read(text::decimal(n)) == n,
        text::decimal(n).len() > 0,
        forall|i: int|
            0 <= i < text::decimal(n).len() ==> '0' <= #[trigger] text::decimal(n)[i]
                && text::decimal(n)[i] <= '9',
        n > 0 ==> text::decimal(n)[0] != '0',
    decreases n,
{
    let d = text::decimal(n);
    if n < 10 {
        assert(d.drop_last() =~= Seq::empty());
        assert(number_read(d.drop_last()) == 0);
    } else {
        law_decimal_is_read_back(n / 10);
        assert(d.drop_last() =~= text::decimal(n / 10));
        assert forall|i: int| 0 <= i < d.len() implies '0' <= #[trigger] d[i] && d[i] <= '9' by {
            if i < d.len() - 1 {
                assert(d[i] == text::decimal(n / 10)[i]);
            }
        }
    }
}

} // verus!
