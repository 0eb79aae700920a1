//! Editing one line of text.

use crate::keys;
use crate::text;
use crate::keys::{KeyCode, KeyEvent, KeyModifiers};
use vstd::prelude::*;

verus! {

/// A text and the cursor in it, counted in characters. A cursor behind the end counts as at the
/// end.
#[verifier::ext_equal]
pub struct PromptV {
    pub buf: Seq<char>,
    pub cursor: usize,
}

/// Where the cursor stands in the text.
pub open spec fn caret_at(p: PromptV) -> int {
    text::min_int(p.cursor as int, p.buf.len() as int)
}

/// The text with the character before the cursor gone.
pub open spec fn erased(p: PromptV) -> PromptV {
    if p.cursor == 0 {
        p
    } else if p.cursor <= p.buf.len() {
        PromptV { buf: p.buf.remove(p.cursor - 1), cursor: (p.cursor - 1) as usize }
    } else {
        PromptV { cursor: (p.cursor - 1) as usize, ..p }
    }
}

/// The text with a text put in at the cursor, which goes behind it.
pub open spec fn inserted(p: PromptV, text: Seq<char>) -> PromptV {
    let at = caret_at(p);
    PromptV {
        buf: p.buf.take(at) + text + p.buf.skip(at),
        cursor: text::clip((p.cursor + text.len()) as nat),
    }
}

/// The cursor one character on, if the text goes on there.
pub open spec fn stepped(p: PromptV) -> PromptV {
    if p.cursor < p.buf.len() {
        PromptV { cursor: (p.cursor + 1) as usize, ..p }
    } else {
        p
    }
}

/// The cursor one character back.
pub open spec fn stepped_back(p: PromptV) -> PromptV {
    PromptV { cursor: text::max_int(p.cursor - 1, 0) as usize, ..p }
}

/// Whether a key types its character: no modifier, or only shift.
pub open spec fn types_char(m: KeyModifiers) -> bool {
    m == keys::no_modifiers() || m == (KeyModifiers { shift: true, ..keys::no_modifiers() })
}

/// Whether a key types its character.
pub fn is_typing(m: KeyModifiers) -> (r: bool)
    ensures
        r == types_char(m),
{
    !m.control && !m.alt && !m.super_key && !m.hyper && !m.meta
}

/// A key in a prompt that knows only these: backspace, left, right and characters.
pub open spec fn line_key(p: PromptV, key: KeyEvent) -> PromptV {
    match key.code {
        KeyCode::Backspace => erased(p),
        KeyCode::Left => stepped_back(p),
        KeyCode::Right => stepped(p),
        KeyCode::Char(c) => if types_char(key.modifiers) {
            inserted(p, seq![c])
        } else {
            p
        },
        _ => p,
    }
}

/// A key in the prompt for a pane's name: as in the others, but a step on from behind the end goes
/// to the end.
pub open spec fn pane_line_key(p: PromptV, key: KeyEvent) -> PromptV {
    match key.code {
        KeyCode::Right => PromptV {
            cursor: text::min_int(p.cursor + 1, p.buf.len() as int) as usize,
            ..p
        },
        _ => line_key(p, key),
    }
}

/// A key in a prompt that knows every editing key.
pub open spec fn edit_key(p: PromptV, key: KeyEvent) -> PromptV {
    let p = PromptV { cursor: caret_at(p) as usize, ..p };
    let m = key.modifiers;
    match key.code {
        KeyCode::Home => PromptV { cursor: 0, ..p },
        KeyCode::End => PromptV { cursor: p.buf.len() as usize, ..p },
        KeyCode::Left => stepped_back(p),
        KeyCode::Right => stepped(p),
        KeyCode::Backspace => erased(p),
        KeyCode::Delete => if p.cursor < p.buf.len() {
            PromptV { buf: p.buf.remove(p.cursor as int), ..p }
        } else {
            p
        },
        KeyCode::Char(c) => if c == 'u' && m.control {
            PromptV { buf: p.buf.skip(p.cursor as int), cursor: 0 }
        } else if !m.control && !m.alt && !m.super_key && !text::control(c) {
            inserted(p, seq![c])
        } else {
            p
        },
        _ => p,
    }
}

/// A key in the command prompt: characters typed as in every prompt, what else it knows as in the
/// one with every editing key.
pub open spec fn command_key(p: PromptV, key: KeyEvent) -> PromptV {
    match key.code {
        KeyCode::Backspace | KeyCode::Left | KeyCode::Right => line_key(p, key),
        KeyCode::Char(c) => if types_char(key.modifiers) {
            line_key(p, key)
        } else {
            edit_key(p, key)
        },
        _ => edit_key(p, key),
    }
}

/// Whatever key comes, a cursor that is inside the text stays inside it.
pub proof fn law_cursor_stays_inside(p: PromptV, key: KeyEvent)
    requires
        p.cursor <= p.buf.len() < usize::MAX,
    ensures
        edit_key(p, key).cursor <= edit_key(p, key).buf.len(),
        line_key(p, key).cursor <= line_key(p, key).buf.len(),
        command_key(p, key).cursor <= command_key(p, key).buf.len(),
{
}

/// Backspace undoes a typed character.
pub proof fn law_backspace_undoes_typing(p: PromptV, c: char)
    requires
        p.cursor <= p.buf.len() < usize::MAX,
    ensures
        erased(inserted(p, seq![c])) == p,
{
    assert(erased(inserted(p, seq![c])).buf =~= p.buf);
}

fn char_count(s: &String) -> (r: usize)
    ensures
        r == s@.len(),
{
    s.as_str().unicode_len()
}

fn take_back(buf: &mut String, cursor: &mut usize)
    ensures
        (PromptV { buf: final(buf)@, cursor: *final(cursor) }) == erased(
            PromptV { buf: old(buf)@, cursor: *old(cursor) },
        ),
{
    if *cursor > 0 {
        let mut chars = text::chars_of(buf.as_str());
        if *cursor <= chars.len() {
            chars.remove(*cursor - 1);
            *buf = text::string_of(chars.as_slice());
        }
        *cursor = *cursor - 1;
    }
}

/// Puts a text in at the cursor.
pub fn insert_text_at_cursor(buf: &mut String, cursor: &mut usize, text: &str)
    ensures
        (PromptV { buf: final(buf)@, cursor: *final(cursor) }) == inserted(
            PromptV { buf: old(buf)@, cursor: *old(cursor) },
            text@,
        ),
{
    let chars = text::chars_of(buf.as_str());
    let at: usize = if *cursor < chars.len() {
        *cursor
    } else {
        chars.len()
    };
    let middle = text::chars_of(text);
    let mut out = text::slice_of(chars.as_slice(), 0, at);
    out.append(text);
    out.append(text::slice_of(chars.as_slice(), at, chars.len()).as_str());
    proof {
        let s = buf@;
        assert(text::cut(s, 0, at as int) =~= s.take(at as int));
        assert(text::cut(s, at as int, s.len() as int) =~= s.skip(at as int));
    }
    *buf = out;
    *cursor = cursor.saturating_add(middle.len());
}

fn put_char(buf: &mut String, cursor: &mut usize, c: char)
    ensures
        (PromptV { buf: final(buf)@, cursor: *final(cursor) }) == inserted(
            PromptV { buf: old(buf)@, cursor: *old(cursor) },
            seq![c],
        ),
{
    let mut one = String::new();
    one.push(c);
    proof {
        assert(one@ =~= seq![c]);
    }
    insert_text_at_cursor(buf, cursor, one.as_str());
}

/// A key in a prompt that knows only backspace, left, right and characters.
pub fn edit_line(buf: &mut String, cursor: &mut usize, key: KeyEvent)
    ensures
        (PromptV { buf: final(buf)@, cursor: *final(cursor) }) == line_key(
            PromptV { buf: old(buf)@, cursor: *old(cursor) },
            key,
        ),
{
    match key.code {
        KeyCode::Backspace => take_back(buf, cursor),
        KeyCode::Left => {
            *cursor = cursor.saturating_sub(1);
        },
        KeyCode::Right => {
            if *cursor < char_count(buf) {
                *cursor = *cursor + 1;
            }
        },
        KeyCode::Char(c) => {
            if is_typing(key.modifiers) {
                put_char(buf, cursor, c);
            }
        },
        _ => {},
    }
}

/// A key in the prompt for a pane's name.
pub fn edit_pane_line(buf: &mut String, cursor: &mut usize, key: KeyEvent)
    ensures
        (PromptV { buf: final(buf)@, cursor: *final(cursor) }) == pane_line_key(
            PromptV { buf: old(buf)@, cursor: *old(cursor) },
            key,
        ),
{
    match key.code {
        KeyCode::Right => {
            let count: usize = char_count(buf);
            *cursor = if *cursor < count {
                *cursor + 1
            } else {
                count
            };
        },
        _ => edit_line(buf, cursor, key),
    }
}

/// A key in a prompt that knows every editing key.
pub fn edit_prompt(buf: &mut String, cursor: &mut usize, key: KeyEvent)
    ensures
        (PromptV { buf: final(buf)@, cursor: *final(cursor) }) == edit_key(
            PromptV { buf: old(buf)@, cursor: *old(cursor) },
            key,
        ),
{
    let count: usize = char_count(buf);
    if *cursor > count {
        *cursor = count;
    }
    let m = key.modifiers;
    match key.code {
        KeyCode::Home => {
            *cursor = 0;
        },
        KeyCode::End => {
            *cursor = count;
        },
        KeyCode::Left => {
            *cursor = cursor.saturating_sub(1);
        },
        KeyCode::Right => {
            if *cursor < count {
                *cursor = *cursor + 1;
            }
        },
        KeyCode::Backspace => take_back(buf, cursor),
        KeyCode::Delete => {
            if *cursor < count {
                let mut chars = text::chars_of(buf.as_str());
                chars.remove(*cursor);
                *buf = text::string_of(chars.as_slice());
            }
        },
        KeyCode::Char(c) => {
            if c == 'u' && m.control {
                let chars = text::chars_of(buf.as_str());
                let out = text::copy_range(chars.as_slice(), *cursor, chars.len());
                proof {
                    assert(out@ =~= buf@.skip(*cursor as int));
                }
                *buf = text::string_of(out.as_slice());
                *cursor = 0;
            } else if !m.control && !m.alt && !m.super_key && !text::is_control(c) {
                put_char(buf, cursor, c);
            }
        },
        _ => {},
    }
}

/// A key in the command prompt.
pub fn edit_command(buf: &mut String, cursor: &mut usize, key: KeyEvent)
    ensures
        (PromptV { buf: final(buf)@, cursor: *final(cursor) }) == command_key(
            PromptV { buf: old(buf)@, cursor: *old(cursor) },
            key,
        ),
{
    match key.code {
        KeyCode::Backspace | KeyCode::Left | KeyCode::Right => edit_line(buf, cursor, key),
        KeyCode::Char(_) => {
            if is_typing(key.modifiers) {
                edit_line(buf, cursor, key);
            } else {
                edit_prompt(buf, cursor, key);
            }
        },
        _ => edit_prompt(buf, cursor, key),
    }
}

} // verus!
