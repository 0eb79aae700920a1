//! What the editing keys do to a line of text.

use crate::prompt;
use crate::text;
use crate::keys::{KeyCode, KeyEvent};
use crate::prompt::PromptV;
use vstd::prelude::*;

verus! {

/// What stands before the cursor.
pub open spec fn left_part(p: PromptV) -> Seq<char> {
    p.buf.take(p.cursor as int)
}

/// What stands at and behind the cursor.
pub open spec fn right_part(p: PromptV) -> Seq<char> {
    p.buf.skip(p.cursor as int)
}

/// Whether a prompt is made of the two parts, the cursor between them.
pub open spec fn made_of(p: PromptV, left: Seq<char>, right: Seq<char>) -> bool {
    p.buf == left + right && p.cursor == left.len()
}

/// Whether the cursor stands in the text and there is room for one more character.
pub open spec fn cursor_inside(p: PromptV) -> bool {
    p.cursor <= p.buf.len() < usize::MAX
}

/// A character with nothing held, or with Shift.
pub open spec fn typed_key(key: KeyEvent, c: char) -> bool {
    &&& key.code == KeyCode::Char(c)
    &&& !key.modifiers.control
    &&& !key.modifiers.alt
    &&& !key.modifiers.super_key
    &&& !key.modifiers.hyper
    &&& !key.modifiers.meta
}

/// In every prompt a typed character goes before the cursor.
pub proof fn law_typing(p: PromptV, key: KeyEvent, c: char)
    requires
        cursor_inside(p),
        typed_key(key, c),
    ensures
        made_of(prompt::line_key(p, key), left_part(p).push(c), right_part(p)),
        made_of(prompt::pane_line_key(p, key), left_part(p).push(c), right_part(p)),
        made_of(prompt::command_key(p, key), left_part(p).push(c), right_part(p)),
        !text::control(c) ==> made_of(prompt::edit_key(p, key), left_part(p).push(c), right_part(p)),
{
    assert(p.buf.take(p.cursor as int) + seq![c] + p.buf.skip(p.cursor as int) =~= left_part(
        p,
    ).push(c) + right_part(p));
}

/// In every prompt Backspace takes the character before the cursor away, and nothing at the start.
pub proof fn law_backspace(p: PromptV, key: KeyEvent)
    requires
        cursor_inside(p),
        key.code == KeyCode::Backspace,
    ensures
        p.cursor > 0 ==> made_of(prompt::line_key(p, key), left_part(p).drop_last(), right_part(p)),
        p.cursor > 0 ==> made_of(prompt::pane_line_key(p, key), left_part(p).drop_last(), right_part(p)),
        p.cursor > 0 ==> made_of(prompt::command_key(p, key), left_part(p).drop_last(), right_part(p)),
        p.cursor > 0 ==> made_of(prompt::edit_key(p, key), left_part(p).drop_last(), right_part(p)),
        p.cursor == 0 ==> prompt::line_key(p, key) == p && prompt::command_key(p, key) == p && prompt::edit_key(p, key)
            == p,
{
    if p.cursor > 0 {
        assert(p.buf.remove(p.cursor - 1) =~= left_part(p).drop_last() + right_part(p));
    }
}

/// In every prompt Left and Right move the cursor over one character and keep the text, and stay at
/// the ends.
pub proof fn law_left_and_right(p: PromptV, key: KeyEvent)
    requires
        cursor_inside(p),
        key.code == KeyCode::Left || key.code == KeyCode::Right,
    ensures
        ({
            let cursor = if key.code == KeyCode::Left {
                if p.cursor > 0 {
                    p.cursor - 1
                } else {
                    0
                }
            } else {
                if p.cursor < p.buf.len() {
                    p.cursor + 1
                } else {
                    p.cursor as int
                }
            };
            &&& prompt::line_key(p, key).buf == p.buf && prompt::line_key(p, key).cursor == cursor
            &&& prompt::pane_line_key(p, key).buf == p.buf && prompt::pane_line_key(p, key).cursor == cursor
            &&& prompt::command_key(p, key).buf == p.buf && prompt::command_key(p, key).cursor == cursor
            &&& prompt::edit_key(p, key).buf == p.buf && prompt::edit_key(p, key).cursor == cursor
        }),
{
}

/// Home and End go to the ends of the text, Delete takes the character at the cursor away, and
/// Control with u everything before it; this in the prompts that know every editing key.
pub proof fn law_editing_keys(p: PromptV, key: KeyEvent)
    requires
        cursor_inside(p),
    ensures
        key.code == KeyCode::Home ==> made_of(prompt::edit_key(p, key), Seq::empty(), p.buf) && made_of(
            prompt::command_key(p, key),
            Seq::empty(),
            p.buf,
        ),
        key.code == KeyCode::End ==> made_of(prompt::edit_key(p, key), p.buf, Seq::empty()) && made_of(
            prompt::command_key(p, key),
            p.buf,
            Seq::empty(),
        ),
        key.code == KeyCode::Delete && p.cursor < p.buf.len() ==> made_of(
            prompt::edit_key(p, key),
            left_part(p),
            right_part(p).drop_first(),
        ) && made_of(prompt::command_key(p, key), left_part(p), right_part(p).drop_first()),
        key.code == KeyCode::Delete && p.cursor == p.buf.len() ==> prompt::edit_key(p, key) == p
            && prompt::command_key(p, key) == p,
        key.code == KeyCode::Char('u') && key.modifiers.control ==> made_of(
            prompt::edit_key(p, key),
            Seq::empty(),
            right_part(p),
        ) && made_of(prompt::command_key(p, key), Seq::empty(), right_part(p)),
{
    if key.code == KeyCode::Home {
        assert(Seq::<char>::empty() + p.buf =~= p.buf);
    } else if key.code == KeyCode::End {
        assert(p.buf + Seq::<char>::empty() =~= p.buf);
    } else if key.code == KeyCode::Delete {
        if p.cursor < p.buf.len() {
            assert(p.buf.remove(p.cursor as int) =~= left_part(p) + right_part(p).drop_first());
        }
    } else if key.code == KeyCode::Char('u') && key.modifiers.control {
        assert(Seq::<char>::empty() + right_part(p) =~= right_part(p));
    }
}

/// A pasted text goes before the cursor.
pub proof fn law_pasting(p: PromptV, text: Seq<char>)
    requires
        p.cursor <= p.buf.len(),
        p.buf.len() + text.len() <= usize::MAX,
    ensures
        made_of(prompt::inserted(p, text), left_part(p) + text, right_part(p)),
{
}

} // verus!
