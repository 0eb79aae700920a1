//! Keys and mouse events, and what they send to a program in a pane.

use crate::key_laws;
use crate::text;
use vstd::prelude::*;

verus! {

/// Modifier keys that stand on their own.
#[derive(Clone, Copy, Debug, PartialEq, Eq, Structural)]
pub enum ModifierKeyCode {
    LeftAlt,
    RightAlt,
    Other,
}

/// A key.
#[derive(Clone, Copy, Debug, PartialEq, Eq, Structural)]
pub enum KeyCode {
    Backspace,
    Enter,
    Left,
    Right,
    Up,
    Down,
    Home,
    End,
    PageUp,
    PageDown,
    Tab,
    BackTab,
    Delete,
    Insert,
    F(u8),
    Char(char),
    Null,
    Esc,
    Modifier(ModifierKeyCode),
    Other,
}

/// The modifier keys held with a key or a mouse button.
#[derive(Clone, Copy, Debug, PartialEq, Eq, Structural)]
pub struct KeyModifiers {
    pub shift: bool,
    pub control: bool,
    pub alt: bool,
    pub super_key: bool,
    pub hyper: bool,
    pub meta: bool,
}

/// A key with its modifiers.
#[derive(Clone, Copy, Debug, PartialEq, Eq, Structural)]
pub struct KeyEvent {
    pub code: KeyCode,
    pub modifiers: KeyModifiers,
}

/// A mouse button.
#[derive(Clone, Copy, Debug, PartialEq, Eq, Structural)]
pub enum MouseButton {
    Left,
    Right,
    Middle,
}

/// What the mouse did.
#[derive(Clone, Copy, Debug, PartialEq, Eq, Structural)]
pub enum MouseEventKind {
    Down(MouseButton),
    Up(MouseButton),
    Drag(MouseButton),
    Moved,
    ScrollDown,
    ScrollUp,
    ScrollLeft,
    ScrollRight,
}

/// What the mouse did, and where.
#[derive(Clone, Copy, Debug, PartialEq, Eq, Structural)]
pub struct MouseEvent {
    pub kind: MouseEventKind,
    pub column: u16,
    pub row: u16,
    pub modifiers: KeyModifiers,
}

/// A direction between neighbouring panes.
#[derive(Clone, Copy, Debug, PartialEq, Eq, Structural)]
pub enum NavDir {
    Left,
    Right,
    Up,
    Down,
}

pub open spec fn no_modifiers() -> KeyModifiers {
    KeyModifiers {
        shift: false,
        control: false,
        alt: false,
        super_key: false,
        hyper: false,
        meta: false,
    }
}

impl KeyModifiers {
    /// No modifier key held.
    pub fn none() -> (r: Self)
        ensures
            r == no_modifiers(),
    {
        KeyModifiers {
            shift: false,
            control: false,
            alt: false,
            super_key: false,
            hyper: false,
            meta: false,
        }
    }
}

impl KeyEvent {
    /// A key with its modifiers.
    pub fn new(code: KeyCode, modifiers: KeyModifiers) -> (r: Self)
        ensures
            r.code == code,
            r.modifiers == modifiers,
    {
        KeyEvent { code, modifiers }
    }
}

pub open spec fn ascii_lower(c: char) -> char {
    if 'A' <= c && c <= 'Z' {
        ((c as u32) + 32) as char
    } else {
        c
    }
}

pub open spec fn ascii_upper(c: char) -> char {
    if 'a' <= c && c <= 'z' {
        ((c as u32) - 32) as char
    } else {
        c
    }
}

/// The small letter for a capital one of the ASCII alphabet.
pub fn to_ascii_lowercase(c: char) -> (r: char)
    ensures
        r == ascii_lower(c),
{
    if 'A' <= c && c <= 'Z' {
        let n: u8 = c as u8 + 32;
        n as char
    } else {
        c
    }
}

/// The capital letter for a small one of the ASCII alphabet.
pub fn to_ascii_uppercase(c: char) -> (r: char)
    ensures
        r == ascii_upper(c),
{
    if 'a' <= c && c <= 'z' {
        let n: u8 = c as u8 - 32;
        n as char
    } else {
        c
    }
}

/// Whether a key types the letter as a capital, by itself or with Shift.
pub open spec fn shifted_letter(key: KeyEvent, letter: char) -> bool {
    match key.code {
        KeyCode::Char(c) => {
            &&& ascii_upper(c) == ascii_upper(letter)
            &&& !key.modifiers.control
            &&& !key.modifiers.alt
            &&& (('A' <= c && c <= 'Z') || key.modifiers.shift)
        },
        _ => false,
    }
}

/// Whether a key types the letter as a capital.
pub fn is_shifted_letter(key: KeyEvent, letter: char) -> (r: bool)
    ensures
        r == shifted_letter(key, letter),
{
    match key.code {
        KeyCode::Char(c) => {
            to_ascii_uppercase(c) == to_ascii_uppercase(letter) && !key.modifiers.control
                && !key.modifiers.alt && (('A' <= c && c <= 'Z') || key.modifiers.shift)
        },
        _ => false,
    }
}

/// Whether no modifier key but Control is held.
pub open spec fn plain_or_control(m: KeyModifiers) -> bool {
    !m.shift && !m.alt && !m.super_key && !m.hyper && !m.meta
}

/// The direction that a key names behind the prefix: arrows and Backspace with any of Shift and
/// Control, the letters h, j, k and l with Control or nothing.
pub open spec fn nav_dir(key: KeyEvent) -> Option<NavDir> {
    if key.modifiers.alt || key.modifiers.super_key {
        None
    } else {
        match key.code {
            KeyCode::Backspace => Some(NavDir::Left),
            KeyCode::Left => Some(NavDir::Left),
            KeyCode::Down => Some(NavDir::Down),
            KeyCode::Up => Some(NavDir::Up),
            KeyCode::Right => Some(NavDir::Right),
            KeyCode::Char(c) => if !plain_or_control(key.modifiers) {
                None
            } else if c == 'h' {
                Some(NavDir::Left)
            } else if c == 'j' {
                Some(NavDir::Down)
            } else if c == 'k' {
                Some(NavDir::Up)
            } else if c == 'l' {
                Some(NavDir::Right)
            } else {
                None
            },
            _ => None,
        }
    }
}

/// The direction that a key names behind the prefix.
pub fn prefix_nav_dir(key: KeyEvent) -> (r: Option<NavDir>)
    ensures
        r == nav_dir(key),
{
    let m = key.modifiers;
    if m.alt || m.super_key {
        return None;
    }
    match key.code {
        KeyCode::Backspace => Some(NavDir::Left),
        KeyCode::Left => Some(NavDir::Left),
        KeyCode::Down => Some(NavDir::Down),
        KeyCode::Up => Some(NavDir::Up),
        KeyCode::Right => Some(NavDir::Right),
        KeyCode::Char(c) => {
            if m.shift || m.hyper || m.meta {
                None
            } else if c == 'h' {
                Some(NavDir::Left)
            } else if c == 'j' {
                Some(NavDir::Down)
            } else if c == 'k' {
                Some(NavDir::Up)
            } else if c == 'l' {
                Some(NavDir::Right)
            } else {
                None
            }
        },
        _ => None,
    }
}

/// Whether a key is one of the two Alt keys by itself.
pub open spec fn resize_modifier(key: KeyEvent) -> bool {
    key.code == KeyCode::Modifier(ModifierKeyCode::LeftAlt) || key.code == KeyCode::Modifier(
        ModifierKeyCode::RightAlt,
    )
}

/// Whether a key is one of the two Alt keys by itself.
pub fn is_resize_modifier_key(key: KeyEvent) -> (r: bool)
    ensures
        r == resize_modifier(key),
{
    key.code == KeyCode::Modifier(ModifierKeyCode::LeftAlt) || key.code == KeyCode::Modifier(
        ModifierKeyCode::RightAlt,
    )
}

/// The direction of a resizing key: an arrow or one of h, j, k, l with Alt, without Control or
/// Shift.
pub open spec fn resize_dir(key: KeyEvent) -> Option<NavDir> {
    if !key.modifiers.alt || key.modifiers.control || key.modifiers.shift {
        None
    } else if key.code == KeyCode::Left || key.code == KeyCode::Char('h') {
        Some(NavDir::Left)
    } else if key.code == KeyCode::Down || key.code == KeyCode::Char('j') {
        Some(NavDir::Down)
    } else if key.code == KeyCode::Up || key.code == KeyCode::Char('k') {
        Some(NavDir::Up)
    } else if key.code == KeyCode::Right || key.code == KeyCode::Char('l') {
        Some(NavDir::Right)
    } else {
        None
    }
}

/// The command that resizes a pane in a direction.
pub open spec fn resize_command(dir: NavDir) -> Seq<char> {
    match dir {
        NavDir::Left => "resize-pane -L"@,
        NavDir::Down => "resize-pane -D"@,
        NavDir::Up => "resize-pane -U"@,
        NavDir::Right => "resize-pane -R"@,
    }
}

/// The command that a resizing key stands for.
pub fn resize_command_for_key(key: KeyEvent) -> (r: Option<&'static str>)
    ensures
        (match r {
            Some(s) => Some(s@),
            None => None,
        }) == (match resize_dir(key) {
            Some(d) => Some(resize_command(d)),
            None => None,
        }),
{
    if !key.modifiers.alt || key.modifiers.control || key.modifiers.shift {
        return None;
    }
    if key.code == KeyCode::Left || key.code == KeyCode::Char('h') {
        Some("resize-pane -L")
    } else if key.code == KeyCode::Down || key.code == KeyCode::Char('j') {
        Some("resize-pane -D")
    } else if key.code == KeyCode::Up || key.code == KeyCode::Char('k') {
        Some("resize-pane -U")
    } else if key.code == KeyCode::Right || key.code == KeyCode::Char('l') {
        Some("resize-pane -R")
    } else {
        None
    }
}

/// Whether a key pastes the synchronised clipboard: Super-V, with or without Shift.
pub open spec fn cloud_paste(key: KeyEvent) -> bool {
    (key.code == KeyCode::Char('v') || key.code == KeyCode::Char('V')) && key.modifiers.super_key
        && !key.modifiers.control && !key.modifiers.alt
}

/// Whether a key pastes the synchronised clipboard.
pub fn is_cloud_paste_key(key: KeyEvent) -> (r: bool)
    ensures
        r == cloud_paste(key),
{
    (key.code == KeyCode::Char('v') || key.code == KeyCode::Char('V')) && key.modifiers.super_key
        && !key.modifiers.control && !key.modifiers.alt
}

/// Whether neither Control nor Alt is held.
pub open spec fn copy_plain(m: KeyModifiers) -> bool {
    !m.control && !m.alt
}

/// Whether neither Control nor Alt is held.
pub fn is_copy_plain_key(modifiers: KeyModifiers) -> (r: bool)
    ensures
        r == copy_plain(modifiers),
{
    !modifiers.control && !modifiers.alt
}

pub open spec fn copy_line_start(key: KeyEvent) -> bool {
    copy_plain(key.modifiers) && (key.code == KeyCode::Home || key.code == KeyCode::Char('0'))
}

/// Whether a key moves to the start of the line in copy mode.
pub fn is_copy_line_start_key(key: KeyEvent) -> (r: bool)
    ensures
        r == copy_line_start(key),
{
    is_copy_plain_key(key.modifiers) && (key.code == KeyCode::Home || key.code == KeyCode::Char('0'))
}

pub open spec fn copy_line_end(key: KeyEvent) -> bool {
    copy_plain(key.modifiers) && (key.code == KeyCode::End || key.code == KeyCode::Char('$') || (
    key.code == KeyCode::Char('4') && key.modifiers.shift))
}

/// Whether a key moves to the end of the line in copy mode.
pub fn is_copy_line_end_key(key: KeyEvent) -> (r: bool)
    ensures
        r == copy_line_end(key),
{
    is_copy_plain_key(key.modifiers) && (key.code == KeyCode::End || key.code == KeyCode::Char('$')
        || (key.code == KeyCode::Char('4') && key.modifiers.shift))
}

/// The number by which a terminal reports modifier keys.
pub open spec fn modifier_param(m: KeyModifiers) -> nat {
    1 + (if m.shift {
        1nat
    } else {
        0
    }) + (if m.alt {
        2nat
    } else {
        0
    }) + (if m.control {
        4nat
    } else {
        0
    })
}

/// The number by which a terminal reports modifier keys.
pub fn xterm_modifier_param(m: KeyModifiers) -> (r: u8)
    ensures
        r == modifier_param(m),
        1 <= r <= 8,
{
    let mut param: u8 = 1;
    if m.shift {
        param = param + 1;
    }
    if m.alt {
        param = param + 2;
    }
    if m.control {
        param = param + 4;
    }
    param
}

/// A control sequence that ends in a letter.
pub open spec fn csi_letter(letter: char, m: KeyModifiers) -> Seq<char> {
    if modifier_param(m) > 1 {
        ("\x1b[1;"@ + text::decimal(modifier_param(m))).push(letter)
    } else {
        "\x1b["@.push(letter)
    }
}

/// A control sequence that ends in a tilde.
pub open spec fn csi_tilde(code: nat, m: KeyModifiers) -> Seq<char> {
    if modifier_param(m) > 1 {
        ("\x1b["@ + text::decimal(code) + ";"@ + text::decimal(modifier_param(m))).push('~')
    } else {
        ("\x1b["@ + text::decimal(code)).push('~')
    }
}

fn csi_letter_with_modifiers(letter: char, m: KeyModifiers) -> (r: String)
    ensures
        r@ == csi_letter(letter, m),
{
    let param: u8 = xterm_modifier_param(m);
    let mut out = String::new();
    if param > 1 {
        out.append("\x1b[1;");
        text::push_decimal(&mut out, param as u64);
        proof {
            assert(Seq::<char>::empty() + "\x1b[1;"@ =~= "\x1b[1;"@);
        }
    } else {
        out.append("\x1b[");
        proof {
            assert(Seq::<char>::empty() + "\x1b["@ =~= "\x1b["@);
        }
    }
    out.push(letter);
    out
}

fn csi_tilde_with_modifiers(code: u8, m: KeyModifiers) -> (r: String)
    ensures
        r@ == csi_tilde(code as nat, m),
{
    let param: u8 = xterm_modifier_param(m);
    let mut out = String::new();
    out.append("\x1b[");
    proof {
        assert(Seq::<char>::empty() + "\x1b["@ =~= "\x1b["@);
    }
    text::push_decimal(&mut out, code as u64);
    if param > 1 {
        out.append(";");
        text::push_decimal(&mut out, param as u64);
    }
    out.push('~');
    out
}

/// The letter of the first four function keys.
pub open spec fn fkey_letter(n: u8) -> char {
    if n == 1 {
        'P'
    } else if n == 2 {
        'Q'
    } else if n == 3 {
        'R'
    } else {
        'S'
    }
}

/// The number of the function keys from the fifth on.
pub open spec fn fkey_number(n: u8) -> Option<u8> {
    if 5 <= n <= 5 {
        Some(15)
    } else if 6 <= n <= 10 {
        Some((n + 11) as u8)
    } else if 11 <= n <= 14 {
        Some((n + 12) as u8)
    } else if 15 <= n <= 16 {
        Some((n + 13) as u8)
    } else if 17 <= n <= 20 {
        Some((n + 14) as u8)
    } else if 21 <= n <= 24 {
        Some((n + 21) as u8)
    } else {
        None
    }
}

/// What a function key sends; nothing from the twenty-fifth on.
pub open spec fn fkey_text(n: u8, m: KeyModifiers) -> Seq<char> {
    if 1 <= n <= 4 {
        if modifier_param(m) > 1 {
            csi_letter(fkey_letter(n), m)
        } else {
            "\x1bO"@.push(fkey_letter(n))
        }
    } else {
        match fkey_number(n) {
            Some(code) => csi_tilde(code as nat, m),
            None => Seq::empty(),
        }
    }
}

fn fkey_with_modifiers(n: u8, m: KeyModifiers) -> (r: String)
    ensures
        r@ == fkey_text(n, m),
{
    if 1 <= n && n <= 4 {
        let letter: char = if n == 1 {
            'P'
        } else if n == 2 {
            'Q'
        } else if n == 3 {
            'R'
        } else {
            'S'
        };
        if xterm_modifier_param(m) > 1 {
            return csi_letter_with_modifiers(letter, m);
        }
        let mut out = String::new();
        out.append("\x1bO");
        proof {
            assert(Seq::<char>::empty() + "\x1bO"@ =~= "\x1bO"@);
        }
        out.push(letter);
        return out;
    }
    let code: u8 = if n == 5 {
        15
    } else if 6 <= n && n <= 10 {
        n + 11
    } else if 11 <= n && n <= 14 {
        n + 12
    } else if 15 <= n && n <= 16 {
        n + 13
    } else if 17 <= n && n <= 20 {
        n + 14
    } else if 21 <= n && n <= 24 {
        n + 21
    } else {
        return String::new();
    };
    csi_tilde_with_modifiers(code, m)
}

/// The character that Control with another character sends.
pub open spec fn control_char(c: char) -> char {
    let lower = ascii_lower(c);
    if 'a' <= lower && lower <= 'z' {
        ((lower as u32) - 96) as char
    } else if c == ' ' || c == '@' || c == '2' {
        '\0'
    } else if c == '[' || c == '3' {
        '\x1b'
    } else if c == '\\' || c == '4' {
        '\x1c'
    } else if c == ']' || c == '5' {
        '\x1d'
    } else if c == '^' || c == '6' {
        '\x1e'
    } else if c == '/' || c == '_' || c == '7' {
        '\x1f'
    } else if c == '?' {
        '\x7f'
    } else {
        c
    }
}

fn with_control(c: char) -> (r: char)
    ensures
        r == control_char(c),
{
    let lower = to_ascii_lowercase(c);
    if 'a' <= lower && lower <= 'z' {
        let n: u8 = lower as u8 - 96;
        n as char
    } else if c == ' ' || c == '@' || c == '2' {
        '\0'
    } else if c == '[' || c == '3' {
        '\x1b'
    } else if c == '\\' || c == '4' {
        '\x1c'
    } else if c == ']' || c == '5' {
        '\x1d'
    } else if c == '^' || c == '6' {
        '\x1e'
    } else if c == '/' || c == '_' || c == '7' {
        '\x1f'
    } else if c == '?' {
        '\x7f'
    } else {
        c
    }
}

/// Modifiers as cursor and function keys report them: Shift is left out.
pub open spec fn without_shift(m: KeyModifiers) -> KeyModifiers {
    KeyModifiers { shift: false, ..m }
}

/// What a key sends before Alt is taken into account.
pub open spec fn code_text(key: KeyEvent) -> Seq<char> {
    let m = without_shift(key.modifiers);
    match key.code {
        KeyCode::Enter => seq!['\r'],
        KeyCode::Char(c) => if c == '\r' || c == '\n' {
            seq!['\r']
        } else if key.modifiers.control {
            seq![control_char(c)]
        } else {
            seq![c]
        },
        KeyCode::Backspace => seq!['\x7f'],
        KeyCode::Esc => seq!['\x1b'],
        KeyCode::Null => seq!['\0'],
        KeyCode::Tab => if key.modifiers.shift {
            "\x1b[Z"@
        } else {
            seq!['\t']
        },
        KeyCode::BackTab => "\x1b[Z"@,
        KeyCode::Up => csi_letter('A', m),
        KeyCode::Down => csi_letter('B', m),
        KeyCode::Right => csi_letter('C', m),
        KeyCode::Left => csi_letter('D', m),
        KeyCode::Home => csi_letter('H', m),
        KeyCode::End => csi_letter('F', m),
        KeyCode::Insert => csi_tilde(2, m),
        KeyCode::Delete => csi_tilde(3, m),
        KeyCode::PageUp => csi_tilde(5, m),
        KeyCode::PageDown => csi_tilde(6, m),
        KeyCode::F(n) => fkey_text(n, m),
        KeyCode::Modifier(_) => Seq::empty(),
        KeyCode::Other => Seq::empty(),
    }
}

/// Whether Alt is reported by an escape in front: by the keys that send a character.
pub open spec fn alt_in_front(code: KeyCode) -> bool {
    match code {
        KeyCode::Enter => true,
        KeyCode::Char(_) => true,
        KeyCode::Backspace => true,
        KeyCode::Null => true,
        KeyCode::Tab => true,
        KeyCode::BackTab => true,
        _ => false,
    }
}

/// What a key sends.
pub open spec fn key_text(key: KeyEvent) -> Seq<char> {
    if key.modifiers.alt && alt_in_front(key.code) {
        seq!['\x1b'] + code_text(key)
    } else {
        code_text(key)
    }
}

fn one_char(c: char) -> (r: String)
    ensures
        r@ == seq![c],
{
    let mut out = String::new();
    out.push(c);
    proof {
        assert(out@ =~= seq![c]);
    }
    out
}

fn code_string(key: KeyEvent) -> (r: String)
    ensures
        r@ == code_text(key),
{
    let mods = key.modifiers;
    let m = KeyModifiers {
        shift: false,
        control: mods.control,
        alt: mods.alt,
        super_key: mods.super_key,
        hyper: mods.hyper,
        meta: mods.meta,
    };
    match key.code {
        KeyCode::Enter => one_char('\r'),
        KeyCode::Char(c) => {
            if c == '\r' || c == '\n' {
                one_char('\r')
            } else if mods.control {
                one_char(with_control(c))
            } else {
                one_char(c)
            }
        },
        KeyCode::Backspace => one_char('\x7f'),
        KeyCode::Esc => one_char('\x1b'),
        KeyCode::Null => one_char('\0'),
        KeyCode::Tab => {
            if mods.shift {
                "\x1b[Z".to_string()
            } else {
                one_char('\t')
            }
        },
        KeyCode::BackTab => "\x1b[Z".to_string(),
        KeyCode::Up => csi_letter_with_modifiers('A', m),
        KeyCode::Down => csi_letter_with_modifiers('B', m),
        KeyCode::Right => csi_letter_with_modifiers('C', m),
        KeyCode::Left => csi_letter_with_modifiers('D', m),
        KeyCode::Home => csi_letter_with_modifiers('H', m),
        KeyCode::End => csi_letter_with_modifiers('F', m),
        KeyCode::Insert => csi_tilde_with_modifiers(2, m),
        KeyCode::Delete => csi_tilde_with_modifiers(3, m),
        KeyCode::PageUp => csi_tilde_with_modifiers(5, m),
        KeyCode::PageDown => csi_tilde_with_modifiers(6, m),
        KeyCode::F(n) => fkey_with_modifiers(n, m),
        KeyCode::Modifier(_) => String::new(),
        KeyCode::Other => String::new(),
    }
}

/// The bytes that a key sends to a program in a pane.
pub fn key_to_bytes(key: KeyEvent) -> (r: Vec<u8>)
    ensures
        r@ == vstd::utf8::encode_utf8(key_text(key)),
        key_laws::cursor_byte(key.code) matches Some(b) ==> !key.modifiers.alt
            && !key.modifiers.control ==> r@ == seq![0x1bu8, 0x5bu8, b],
        key_laws::cursor_byte(key.code) matches Some(b) ==> key.modifiers.alt
            || key.modifiers.control ==> r@ == seq![
            0x1bu8,
            0x5bu8,
            0x31u8,
            0x3bu8,
            (48 + key_laws::held_number(false, key.modifiers.alt, key.modifiers.control)) as u8,
            b,
        ],
{
    proof {
        if key_laws::cursor_byte(key.code) is Some {
            key_laws::law_cursor_keys(key);
        }
    }
    let text = code_string(key);
    let in_front: bool = match key.code {
        KeyCode::Enter => true,
        KeyCode::Char(_) => true,
        KeyCode::Backspace => true,
        KeyCode::Null => true,
        KeyCode::Tab => true,
        KeyCode::BackTab => true,
        _ => false,
    };
    if key.modifiers.alt && in_front {
        let mut out = one_char('\x1b');
        out.append(text.as_str());
        out.as_str().as_bytes_vec()
    } else {
        text.as_str().as_bytes_vec()
    }
}

/// Control with a letter sends the same character whether the letter is typed small or capital,
/// and different letters send different characters.
pub proof fn law_control_letters(a: char, b: char)
    requires
        'a' <= a && a <= 'z',
        'a' <= b && b <= 'z',
    ensures
        control_char(a) == control_char(ascii_upper(a)),
        1 <= (control_char(a) as u32) && (control_char(a) as u32) <= 26,
        control_char(a) == control_char(b) ==> a == b,
{
}

/// The number by which the mouse protocol reports an event.
pub open spec fn mouse_code(event: MouseEvent) -> nat {
    let base: nat = match event.kind {
        MouseEventKind::Down(MouseButton::Left) => 0,
        MouseEventKind::Down(MouseButton::Middle) => 1,
        MouseEventKind::Down(MouseButton::Right) => 2,
        MouseEventKind::Up(MouseButton::Left) => 0,
        MouseEventKind::Up(MouseButton::Middle) => 1,
        MouseEventKind::Up(MouseButton::Right) => 2,
        MouseEventKind::Drag(MouseButton::Left) => 32,
        MouseEventKind::Drag(MouseButton::Middle) => 33,
        MouseEventKind::Drag(MouseButton::Right) => 34,
        MouseEventKind::Moved => 35,
        MouseEventKind::ScrollUp => 64,
        MouseEventKind::ScrollDown => 65,
        MouseEventKind::ScrollLeft => 66,
        MouseEventKind::ScrollRight => 67,
    };
    base + (if event.modifiers.shift {
        4nat
    } else {
        0
    }) + (if event.modifiers.alt {
        8nat
    } else {
        0
    }) + (if event.modifiers.control {
        16nat
    } else {
        0
    })
}

/// A mouse event as the mouse protocol reports it: code, column and row counted from one, and a
/// letter that tells a release from the rest.
pub open spec fn mouse_text(event: MouseEvent) -> Seq<char> {
    ("\x1b[<"@ + text::decimal(mouse_code(event)) + ";"@ + text::decimal((event.column + 1) as nat) + ";"@
        + text::decimal((event.row + 1) as nat)).push(
        if event.kind is Up {
            'm'
        } else {
            'M'
        },
    )
}

fn mouse_number(event: MouseEvent) -> (r: u64)
    ensures
        r == mouse_code(event),
{
    let mut cb: u64 = match event.kind {
        MouseEventKind::Down(MouseButton::Left) => 0,
        MouseEventKind::Down(MouseButton::Middle) => 1,
        MouseEventKind::Down(MouseButton::Right) => 2,
        MouseEventKind::Up(MouseButton::Left) => 0,
        MouseEventKind::Up(MouseButton::Middle) => 1,
        MouseEventKind::Up(MouseButton::Right) => 2,
        MouseEventKind::Drag(MouseButton::Left) => 32,
        MouseEventKind::Drag(MouseButton::Middle) => 33,
        MouseEventKind::Drag(MouseButton::Right) => 34,
        MouseEventKind::Moved => 35,
        MouseEventKind::ScrollUp => 64,
        MouseEventKind::ScrollDown => 65,
        MouseEventKind::ScrollLeft => 66,
        MouseEventKind::ScrollRight => 67,
    };
    if event.modifiers.shift {
        cb = cb + 4;
    }
    if event.modifiers.alt {
        cb = cb + 8;
    }
    if event.modifiers.control {
        cb = cb + 16;
    }
    cb
}

/// The bytes that a mouse event sends to a program in a pane.
pub fn mouse_to_bytes(event: MouseEvent) -> (r: Vec<u8>)
    requires
        event.column < u16::MAX,
        event.row < u16::MAX,
    ensures
        r@ == vstd::utf8::encode_utf8(mouse_text(event)),
{
    let mut out = String::new();
    out.append("\x1b[<");
    proof {
        assert(Seq::<char>::empty() + "\x1b[<"@ =~= "\x1b[<"@);
    }
    text::push_decimal(&mut out, mouse_number(event));
    out.append(";");
    text::push_decimal(&mut out, (event.column + 1) as u64);
    out.append(";");
    text::push_decimal(&mut out, (event.row + 1) as u64);
    let release: bool = match event.kind {
        MouseEventKind::Up(_) => true,
        _ => false,
    };
    out.push(
        if release {
            'm'
        } else {
            'M'
        },
    );
    out.as_str().as_bytes_vec()
}

} // verus!
