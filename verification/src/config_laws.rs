//! What the lines of a configuration and the names of keys stand for.

use crate::config;
use crate::keys;
use crate::text;
use crate::text_laws;
use crate::keys::{KeyCode, KeyModifiers};
use vstd::prelude::*;

verus! {

/// The words for modifiers in front of a key's name.
pub open spec fn held_down(control: bool, alt: bool, shift: bool) -> Seq<char> {
    (if control {
        seq!['C', '-']
    } else {
        Seq::empty()
    }) + (if alt {
        seq!['M', '-']
    } else {
        Seq::empty()
    }) + (if shift {
        seq!['S', '-']
    } else {
        Seq::empty()
    })
}

/// Whether a name has no modifier in front and no blank at its ends.
pub open spec fn key_name(name: Seq<char>) -> bool {
    &&& name.len() > 0
    &&& name[0] != '^'
    &&& name.len() == 1 || name[1] != '-'
    &&& !text::white_space(name[0])
    &&& !text::white_space(name.last())
}

proof fn lemma_untouched(s: Seq<char>)
    requires
        s.len() > 0,
        !text::white_space(s[0]),
        !text::white_space(s.last()),
    ensures
        text::trimmed(s) == s,
{
}

/// A key's name with modifiers in front of it stands for that key, with just those modifiers.
pub proof fn law_modifiers_stand_in_front(
    control: bool,
    alt: bool,
    shift: bool,
    name: Seq<char>,
    code: KeyCode,
)
    requires
        key_name(name),
        config::key_combo(name) == Some((code, keys::no_modifiers())),
    ensures
        config::key_combo(held_down(control, alt, shift) + name) == Some(
            (
                code,
                KeyModifiers { control, alt, shift, super_key: false, hyper: false, meta: false },
            ),
        ),
        control && !alt && !shift ==> config::key_combo(seq!['^'] + name) == config::key_combo(
            seq!['C', '-'] + name,
        ),
{
    let none = keys::no_modifiers();
    lemma_untouched(name);
    assert(!text::white_space('C') && !text::white_space('M') && !text::white_space('S') && !text::white_space('^'));
    let front = held_down(control, alt, shift);
    let s = front + name;
    assert(front.len() == 0 ==> s =~= name);
    assert(s[0] == (if front.len() == 0 {
        name[0]
    } else {
        front[0]
    }));
    assert(s.last() == name.last());
    lemma_untouched(s);
    lemma_modifiers(control, alt, shift, name);
    let t = seq!['^'] + name;
    assert(t.last() == name.last());
    lemma_untouched(t);
    assert(t.skip(1) =~= name);
    let c = seq!['C', '-'] + name;
    assert(c.last() == name.last());
    lemma_untouched(c);
    assert(c.skip(2) =~= name);
    let m_c = KeyModifiers { control: true, ..none };
    assert(config::modifiers_of(name, m_c) == (m_c, name));
    assert(config::modifiers_of(t, none) == config::modifiers_of(name, m_c));
    assert(config::modifiers_of(c, none) == config::modifiers_of(name, m_c));
    assert(config::modifiers_of(name, none) == (none, name));
}

proof fn lemma_modifiers(control: bool, alt: bool, shift: bool, name: Seq<char>)
    requires
        key_name(name),
    ensures
        config::modifiers_of(held_down(control, alt, shift) + name, keys::no_modifiers()) == (
            KeyModifiers { control, alt, shift, super_key: false, hyper: false, meta: false },
            name,
        ),
{
    let none = keys::no_modifiers();
    let m1 = KeyModifiers { control, ..none };
    let m2 = KeyModifiers { alt, ..m1 };
    let m3 = KeyModifiers { shift, ..m2 };
    let all = held_down(control, alt, shift) + name;
    let two = held_down(false, alt, shift) + name;
    let one = held_down(false, false, shift) + name;
    assert(held_down(false, false, false) + name =~= name);
    if control {
        assert(all.skip(2) =~= two);
        assert(all[0] == 'C' && all[1] == '-');
    }
    assert(config::modifiers_of(all, none) == config::modifiers_of(two, m1));
    if alt {
        assert(two.skip(2) =~= one);
        assert(two[0] == 'M' && two[1] == '-');
    }
    assert(config::modifiers_of(two, m1) == config::modifiers_of(one, m2));
    if shift {
        assert(one.skip(2) =~= name);
        assert(one[0] == 'S' && one[1] == '-');
    }
    assert(config::modifiers_of(one, m2) == config::modifiers_of(name, m3));
    assert(config::modifiers_of(name, m3) == (m3, name));
}

/// A single character stands for itself.
pub proof fn law_characters_name_themselves(c: char)
    requires
        !text::white_space(c),
        c != '^',
    ensures
        config::key_combo(seq![c]) == Some((KeyCode::Char(c), keys::no_modifiers())),
{
    let s = seq![c];
    lemma_untouched(s);
    assert(config::modifiers_of(s, keys::no_modifiers()) == (keys::no_modifiers(), s));
    lemma_names_are_longer(s);
}

proof fn lemma_names_are_longer(s: Seq<char>)
    requires
        s.len() == 1,
    ensures
        config::named_key(s) == Some(KeyCode::Char(s[0])),
{
    lemma_names();
}

proof fn lemma_names()
    ensures
        "Space"@.len() > 1 && named("Space"@, KeyCode::Char(' ')),
        "space"@.len() > 1 && named("space"@, KeyCode::Char(' ')),
        "Enter"@.len() > 1 && named("Enter"@, KeyCode::Enter),
        "enter"@.len() > 1 && named("enter"@, KeyCode::Enter),
        "Escape"@.len() > 1 && named("Escape"@, KeyCode::Esc),
        "escape"@.len() > 1 && named("escape"@, KeyCode::Esc),
        "Esc"@.len() > 1 && named("Esc"@, KeyCode::Esc),
        "esc"@.len() > 1 && named("esc"@, KeyCode::Esc),
        "Tab"@.len() > 1 && named("Tab"@, KeyCode::Tab),
        "tab"@.len() > 1 && named("tab"@, KeyCode::Tab),
        "BSpace"@.len() > 1 && named("BSpace"@, KeyCode::Backspace),
        "bspace"@.len() > 1 && named("bspace"@, KeyCode::Backspace),
        "BackSpace"@.len() > 1 && named("BackSpace"@, KeyCode::Backspace),
        "backspace"@.len() > 1 && named("backspace"@, KeyCode::Backspace),
        "Up"@.len() > 1 && named("Up"@, KeyCode::Up),
        "up"@.len() > 1 && named("up"@, KeyCode::Up),
        "Down"@.len() > 1 && named("Down"@, KeyCode::Down),
        "down"@.len() > 1 && named("down"@, KeyCode::Down),
        "Left"@.len() > 1 && named("Left"@, KeyCode::Left),
        "left"@.len() > 1 && named("left"@, KeyCode::Left),
        "Right"@.len() > 1 && named("Right"@, KeyCode::Right),
        "right"@.len() > 1 && named("right"@, KeyCode::Right),
        "Home"@.len() > 1 && named("Home"@, KeyCode::Home),
        "home"@.len() > 1 && named("home"@, KeyCode::Home),
        "End"@.len() > 1 && named("End"@, KeyCode::End),
        "end"@.len() > 1 && named("end"@, KeyCode::End),
        "PgUp"@.len() > 1 && named("PgUp"@, KeyCode::PageUp),
        "pgup"@.len() > 1 && named("pgup"@, KeyCode::PageUp),
        "PageUp"@.len() > 1 && named("PageUp"@, KeyCode::PageUp),
        "PgDn"@.len() > 1 && named("PgDn"@, KeyCode::PageDown),
        "pgdn"@.len() > 1 && named("pgdn"@, KeyCode::PageDown),
        "PageDown"@.len() > 1 && named("PageDown"@, KeyCode::PageDown),
        "Delete"@.len() > 1 && named("Delete"@, KeyCode::Delete),
        "delete"@.len() > 1 && named("delete"@, KeyCode::Delete),
        "Del"@.len() > 1 && named("Del"@, KeyCode::Delete),
        "del"@.len() > 1 && named("del"@, KeyCode::Delete),
        "Insert"@.len() > 1 && named("Insert"@, KeyCode::Insert),
        "insert"@.len() > 1 && named("insert"@, KeyCode::Insert),
        "Ins"@.len() > 1 && named("Ins"@, KeyCode::Insert),
        "ins"@.len() > 1 && named("ins"@, KeyCode::Insert),
        "F1"@.len() > 1 && named("F1"@, KeyCode::F(1)),
        "F2"@.len() > 1 && named("F2"@, KeyCode::F(2)),
        "F3"@.len() > 1 && named("F3"@, KeyCode::F(3)),
        "F4"@.len() > 1 && named("F4"@, KeyCode::F(4)),
        "F5"@.len() > 1 && named("F5"@, KeyCode::F(5)),
        "F6"@.len() > 1 && named("F6"@, KeyCode::F(6)),
        "F7"@.len() > 1 && named("F7"@, KeyCode::F(7)),
        "F8"@.len() > 1 && named("F8"@, KeyCode::F(8)),
        "F9"@.len() > 1 && named("F9"@, KeyCode::F(9)),
        "F10"@.len() > 1 && named("F10"@, KeyCode::F(10)),
        "F11"@.len() > 1 && named("F11"@, KeyCode::F(11)),
        "F12"@.len() > 1 && named("F12"@, KeyCode::F(12)),
{
    reveal_strlit("Space");
    reveal_strlit("space");
    reveal_strlit("Enter");
    reveal_strlit("enter");
    reveal_strlit("Escape");
    reveal_strlit("escape");
    reveal_strlit("Esc");
    reveal_strlit("esc");
    reveal_strlit("Tab");
    reveal_strlit("tab");
    reveal_strlit("BSpace");
    reveal_strlit("bspace");
    reveal_strlit("BackSpace");
    reveal_strlit("backspace");
    reveal_strlit("Up");
    reveal_strlit("up");
    reveal_strlit("Down");
    reveal_strlit("down");
    reveal_strlit("Left");
    reveal_strlit("left");
    reveal_strlit("Right");
    reveal_strlit("right");
    reveal_strlit("Home");
    reveal_strlit("home");
    reveal_strlit("End");
    reveal_strlit("end");
    reveal_strlit("PgUp");
    reveal_strlit("pgup");
    reveal_strlit("PageUp");
    reveal_strlit("PgDn");
    reveal_strlit("pgdn");
    reveal_strlit("PageDown");
    reveal_strlit("Delete");
    reveal_strlit("delete");
    reveal_strlit("Del");
    reveal_strlit("del");
    reveal_strlit("Insert");
    reveal_strlit("insert");
    reveal_strlit("Ins");
    reveal_strlit("ins");
    reveal_strlit("F1");
    reveal_strlit("F2");
    reveal_strlit("F3");
    reveal_strlit("F4");
    reveal_strlit("F5");
    reveal_strlit("F6");
    reveal_strlit("F7");
    reveal_strlit("F8");
    reveal_strlit("F9");
    reveal_strlit("F10");
    reveal_strlit("F11");
    reveal_strlit("F12");
    assert("Space"@[0] == 'S' && "Space"@[1] == 'p' && "Space"@[2] == 'a' && "Space"@[3] == 'c' && "Space"@[4] == 'e');
    assert("space"@[0] == 's' && "space"@[1] == 'p' && "space"@[2] == 'a' && "space"@[3] == 'c' && "space"@[4] == 'e');
    assert("Enter"@[0] == 'E' && "Enter"@[1] == 'n' && "Enter"@[2] == 't' && "Enter"@[3] == 'e' && "Enter"@[4] == 'r');
    assert("enter"@[0] == 'e' && "enter"@[1] == 'n' && "enter"@[2] == 't' && "enter"@[3] == 'e' && "enter"@[4] == 'r');
    assert("Escape"@[0] == 'E' && "Escape"@[1] == 's' && "Escape"@[2] == 'c' && "Escape"@[3] == 'a' && "Escape"@[4] == 'p' && "Escape"@[5] == 'e');
    assert("escape"@[0] == 'e' && "escape"@[1] == 's' && "escape"@[2] == 'c' && "escape"@[3] == 'a' && "escape"@[4] == 'p' && "escape"@[5] == 'e');
    assert("Esc"@[0] == 'E' && "Esc"@[1] == 's' && "Esc"@[2] == 'c');
    assert("esc"@[0] == 'e' && "esc"@[1] == 's' && "esc"@[2] == 'c');
    assert("Tab"@[0] == 'T' && "Tab"@[1] == 'a' && "Tab"@[2] == 'b');
    assert("tab"@[0] == 't' && "tab"@[1] == 'a' && "tab"@[2] == 'b');
    assert("BSpace"@[0] == 'B' && "BSpace"@[1] == 'S' && "BSpace"@[2] == 'p' && "BSpace"@[3] == 'a' && "BSpace"@[4] == 'c' && "BSpace"@[5] == 'e');
    assert("bspace"@[0] == 'b' && "bspace"@[1] == 's' && "bspace"@[2] == 'p' && "bspace"@[3] == 'a' && "bspace"@[4] == 'c' && "bspace"@[5] == 'e');
    assert("BackSpace"@[0] == 'B' && "BackSpace"@[1] == 'a' && "BackSpace"@[2] == 'c' && "BackSpace"@[3] == 'k' && "BackSpace"@[4] == 'S' && "BackSpace"@[5] == 'p' && "BackSpace"@[6] == 'a' && "BackSpace"@[7] == 'c' && "BackSpace"@[8] == 'e');
    assert("backspace"@[0] == 'b' && "backspace"@[1] == 'a' && "backspace"@[2] == 'c' && "backspace"@[3] == 'k' && "backspace"@[4] == 's' && "backspace"@[5] == 'p' && "backspace"@[6] == 'a' && "backspace"@[7] == 'c' && "backspace"@[8] == 'e');
    assert("Up"@[0] == 'U' && "Up"@[1] == 'p');
    assert("up"@[0] == 'u' && "up"@[1] == 'p');
    assert("Down"@[0] == 'D' && "Down"@[1] == 'o' && "Down"@[2] == 'w' && "Down"@[3] == 'n');
    assert("down"@[0] == 'd' && "down"@[1] == 'o' && "down"@[2] == 'w' && "down"@[3] == 'n');
    assert("Left"@[0] == 'L' && "Left"@[1] == 'e' && "Left"@[2] == 'f' && "Left"@[3] == 't');
    assert("left"@[0] == 'l' && "left"@[1] == 'e' && "left"@[2] == 'f' && "left"@[3] == 't');
    assert("Right"@[0] == 'R' && "Right"@[1] == 'i' && "Right"@[2] == 'g' && "Right"@[3] == 'h' && "Right"@[4] == 't');
    assert("right"@[0] == 'r' && "right"@[1] == 'i' && "right"@[2] == 'g' && "right"@[3] == 'h' && "right"@[4] == 't');
    assert("Home"@[0] == 'H' && "Home"@[1] == 'o' && "Home"@[2] == 'm' && "Home"@[3] == 'e');
    assert("home"@[0] == 'h' && "home"@[1] == 'o' && "home"@[2] == 'm' && "home"@[3] == 'e');
    assert("End"@[0] == 'E' && "End"@[1] == 'n' && "End"@[2] == 'd');
    assert("end"@[0] == 'e' && "end"@[1] == 'n' && "end"@[2] == 'd');
    assert("PgUp"@[0] == 'P' && "PgUp"@[1] == 'g' && "PgUp"@[2] == 'U' && "PgUp"@[3] == 'p');
    assert("pgup"@[0] == 'p' && "pgup"@[1] == 'g' && "pgup"@[2] == 'u' && "pgup"@[3] == 'p');
    assert("PageUp"@[0] == 'P' && "PageUp"@[1] == 'a' && "PageUp"@[2] == 'g' && "PageUp"@[3] == 'e' && "PageUp"@[4] == 'U' && "PageUp"@[5] == 'p');
    assert("PgDn"@[0] == 'P' && "PgDn"@[1] == 'g' && "PgDn"@[2] == 'D' && "PgDn"@[3] == 'n');
    assert("pgdn"@[0] == 'p' && "pgdn"@[1] == 'g' && "pgdn"@[2] == 'd' && "pgdn"@[3] == 'n');
    assert("PageDown"@[0] == 'P' && "PageDown"@[1] == 'a' && "PageDown"@[2] == 'g' && "PageDown"@[3] == 'e' && "PageDown"@[4] == 'D' && "PageDown"@[5] == 'o' && "PageDown"@[6] == 'w' && "PageDown"@[7] == 'n');
    assert("Delete"@[0] == 'D' && "Delete"@[1] == 'e' && "Delete"@[2] == 'l' && "Delete"@[3] == 'e' && "Delete"@[4] == 't' && "Delete"@[5] == 'e');
    assert("delete"@[0] == 'd' && "delete"@[1] == 'e' && "delete"@[2] == 'l' && "delete"@[3] == 'e' && "delete"@[4] == 't' && "delete"@[5] == 'e');
    assert("Del"@[0] == 'D' && "Del"@[1] == 'e' && "Del"@[2] == 'l');
    assert("del"@[0] == 'd' && "del"@[1] == 'e' && "del"@[2] == 'l');
    assert("Insert"@[0] == 'I' && "Insert"@[1] == 'n' && "Insert"@[2] == 's' && "Insert"@[3] == 'e' && "Insert"@[4] == 'r' && "Insert"@[5] == 't');
    assert("insert"@[0] == 'i' && "insert"@[1] == 'n' && "insert"@[2] == 's' && "insert"@[3] == 'e' && "insert"@[4] == 'r' && "insert"@[5] == 't');
    assert("Ins"@[0] == 'I' && "Ins"@[1] == 'n' && "Ins"@[2] == 's');
    assert("ins"@[0] == 'i' && "ins"@[1] == 'n' && "ins"@[2] == 's');
    assert("F1"@[0] == 'F' && "F1"@[1] == '1');
    assert("F2"@[0] == 'F' && "F2"@[1] == '2');
    assert("F3"@[0] == 'F' && "F3"@[1] == '3');
    assert("F4"@[0] == 'F' && "F4"@[1] == '4');
    assert("F5"@[0] == 'F' && "F5"@[1] == '5');
    assert("F6"@[0] == 'F' && "F6"@[1] == '6');
    assert("F7"@[0] == 'F' && "F7"@[1] == '7');
    assert("F8"@[0] == 'F' && "F8"@[1] == '8');
    assert("F9"@[0] == 'F' && "F9"@[1] == '9');
    assert("F10"@[0] == 'F' && "F10"@[1] == '1' && "F10"@[2] == '0');
    assert("F11"@[0] == 'F' && "F11"@[1] == '1' && "F11"@[2] == '1');
    assert("F12"@[0] == 'F' && "F12"@[1] == '1' && "F12"@[2] == '2');
}

/// Whether a text is the name of a key.
spec fn named(name: Seq<char>, code: KeyCode) -> bool {
    key_name(name) && config::named_key(name) == Some(code)
}

/// Whether a name stands for a key, with just the modifiers that stand in front of it.
pub open spec fn stands_for(name: Seq<char>, code: KeyCode) -> bool {
    forall|control: bool, alt: bool, shift: bool| #[trigger]
        config::key_combo(held_down(control, alt, shift) + name) == Some(
            (code, KeyModifiers { control, alt, shift, super_key: false, hyper: false, meta: false }),
        )
}

proof fn lemma_stands_for(name: Seq<char>, code: KeyCode)
    requires
        key_name(name),
        config::named_key(name) == Some(code),
    ensures
        stands_for(name, code),
{
    lemma_untouched(name);
    assert(config::modifiers_of(name, keys::no_modifiers()) == (keys::no_modifiers(), name));
    assert forall|control: bool, alt: bool, shift: bool| #[trigger]
        config::key_combo(held_down(control, alt, shift) + name) == Some(
            (code, KeyModifiers { control, alt, shift, super_key: false, hyper: false, meta: false }),
        ) by {
        law_modifiers_stand_in_front(control, alt, shift, name, code);
    }
}

/// The arrow keys, Home, End and the page keys go by their names, alone and with modifiers.
pub proof fn law_cursor_keys_have_names()
    ensures
        stands_for("Up"@, KeyCode::Up),
        stands_for("up"@, KeyCode::Up),
        stands_for("Down"@, KeyCode::Down),
        stands_for("down"@, KeyCode::Down),
        stands_for("Left"@, KeyCode::Left),
        stands_for("left"@, KeyCode::Left),
        stands_for("Right"@, KeyCode::Right),
        stands_for("right"@, KeyCode::Right),
        stands_for("Home"@, KeyCode::Home),
        stands_for("home"@, KeyCode::Home),
        stands_for("End"@, KeyCode::End),
        stands_for("end"@, KeyCode::End),
        stands_for("PgUp"@, KeyCode::PageUp),
        stands_for("pgup"@, KeyCode::PageUp),
        stands_for("PageUp"@, KeyCode::PageUp),
        stands_for("PgDn"@, KeyCode::PageDown),
        stands_for("pgdn"@, KeyCode::PageDown),
        stands_for("PageDown"@, KeyCode::PageDown),
{
    lemma_names();
    lemma_stands_for("Up"@, KeyCode::Up);
    lemma_stands_for("up"@, KeyCode::Up);
    lemma_stands_for("Down"@, KeyCode::Down);
    lemma_stands_for("down"@, KeyCode::Down);
    lemma_stands_for("Left"@, KeyCode::Left);
    lemma_stands_for("left"@, KeyCode::Left);
    lemma_stands_for("Right"@, KeyCode::Right);
    lemma_stands_for("right"@, KeyCode::Right);
    lemma_stands_for("Home"@, KeyCode::Home);
    lemma_stands_for("home"@, KeyCode::Home);
    lemma_stands_for("End"@, KeyCode::End);
    lemma_stands_for("end"@, KeyCode::End);
    lemma_stands_for("PgUp"@, KeyCode::PageUp);
    lemma_stands_for("pgup"@, KeyCode::PageUp);
    lemma_stands_for("PageUp"@, KeyCode::PageUp);
    lemma_stands_for("PgDn"@, KeyCode::PageDown);
    lemma_stands_for("pgdn"@, KeyCode::PageDown);
    lemma_stands_for("PageDown"@, KeyCode::PageDown);
}

/// The keys for editing go by their names, alone and with modifiers.
pub proof fn law_editing_keys_have_names()
    ensures
        stands_for("Space"@, KeyCode::Char(' ')),
        stands_for("space"@, KeyCode::Char(' ')),
        stands_for("Enter"@, KeyCode::Enter),
        stands_for("enter"@, KeyCode::Enter),
        stands_for("Escape"@, KeyCode::Esc),
        stands_for("escape"@, KeyCode::Esc),
        stands_for("Esc"@, KeyCode::Esc),
        stands_for("esc"@, KeyCode::Esc),
        stands_for("Tab"@, KeyCode::Tab),
        stands_for("tab"@, KeyCode::Tab),
        stands_for("BSpace"@, KeyCode::Backspace),
        stands_for("bspace"@, KeyCode::Backspace),
        stands_for("BackSpace"@, KeyCode::Backspace),
        stands_for("backspace"@, KeyCode::Backspace),
        stands_for("Delete"@, KeyCode::Delete),
        stands_for("delete"@, KeyCode::Delete),
        stands_for("Del"@, KeyCode::Delete),
        stands_for("del"@, KeyCode::Delete),
        stands_for("Insert"@, KeyCode::Insert),
        stands_for("insert"@, KeyCode::Insert),
        stands_for("Ins"@, KeyCode::Insert),
        stands_for("ins"@, KeyCode::Insert),
{
    lemma_names();
    lemma_stands_for("Space"@, KeyCode::Char(' '));
    lemma_stands_for("space"@, KeyCode::Char(' '));
    lemma_stands_for("Enter"@, KeyCode::Enter);
    lemma_stands_for("enter"@, KeyCode::Enter);
    lemma_stands_for("Escape"@, KeyCode::Esc);
    lemma_stands_for("escape"@, KeyCode::Esc);
    lemma_stands_for("Esc"@, KeyCode::Esc);
    lemma_stands_for("esc"@, KeyCode::Esc);
    lemma_stands_for("Tab"@, KeyCode::Tab);
    lemma_stands_for("tab"@, KeyCode::Tab);
    lemma_stands_for("BSpace"@, KeyCode::Backspace);
    lemma_stands_for("bspace"@, KeyCode::Backspace);
    lemma_stands_for("BackSpace"@, KeyCode::Backspace);
    lemma_stands_for("backspace"@, KeyCode::Backspace);
    lemma_stands_for("Delete"@, KeyCode::Delete);
    lemma_stands_for("delete"@, KeyCode::Delete);
    lemma_stands_for("Del"@, KeyCode::Delete);
    lemma_stands_for("del"@, KeyCode::Delete);
    lemma_stands_for("Insert"@, KeyCode::Insert);
    lemma_stands_for("insert"@, KeyCode::Insert);
    lemma_stands_for("Ins"@, KeyCode::Insert);
    lemma_stands_for("ins"@, KeyCode::Insert);
}

/// The function keys go by their numbers, alone and with modifiers.
pub proof fn law_function_keys_have_names()
    ensures
        stands_for("F1"@, KeyCode::F(1)),
        stands_for("F2"@, KeyCode::F(2)),
        stands_for("F3"@, KeyCode::F(3)),
        stands_for("F4"@, KeyCode::F(4)),
        stands_for("F5"@, KeyCode::F(5)),
        stands_for("F6"@, KeyCode::F(6)),
        stands_for("F7"@, KeyCode::F(7)),
        stands_for("F8"@, KeyCode::F(8)),
        stands_for("F9"@, KeyCode::F(9)),
        stands_for("F10"@, KeyCode::F(10)),
        stands_for("F11"@, KeyCode::F(11)),
        stands_for("F12"@, KeyCode::F(12)),
{
    lemma_names();
    lemma_stands_for("F1"@, KeyCode::F(1));
    lemma_stands_for("F2"@, KeyCode::F(2));
    lemma_stands_for("F3"@, KeyCode::F(3));
    lemma_stands_for("F4"@, KeyCode::F(4));
    lemma_stands_for("F5"@, KeyCode::F(5));
    lemma_stands_for("F6"@, KeyCode::F(6));
    lemma_stands_for("F7"@, KeyCode::F(7));
    lemma_stands_for("F8"@, KeyCode::F(8));
    lemma_stands_for("F9"@, KeyCode::F(9));
    lemma_stands_for("F10"@, KeyCode::F(10));
    lemma_stands_for("F11"@, KeyCode::F(11));
    lemma_stands_for("F12"@, KeyCode::F(12));
}

/// A line holds a command where it is neither blank nor a comment.
pub open spec fn holds_command(line: Seq<char>) -> bool {
    exists|k: int|
        0 <= k < line.len() && !text::white_space(#[trigger] line[k]) && line[k] != '#' && blank_before(
            line,
            k,
        )
}

/// Whether everything before a place is white space.
pub open spec fn blank_before(line: Seq<char>, k: int) -> bool {
    forall|j: int| 0 <= j < k ==> text::white_space(#[trigger] line[j])
}

/// A configuration is read line by line, counting every line: the first line adds its command, if
/// it holds one, with the line's number and the file's name, and the rest is read as a text of its
/// own that begins on the next line.
pub proof fn law_lines_are_read_one_by_one(
    line: Seq<char>,
    rest: Seq<char>,
    number: int,
    file: Seq<char>,
)
    requires
        !line.contains('\n'),
        0 <= number <= usize::MAX,
    ensures
        ({
            let all = config::config_lines(line + seq!['\n'] + rest, 0, number, file);
            let others = config::config_lines(rest, 0, number + 1, file);
            if holds_command(line) {
                &&& all.len() == others.len() + 1
                &&& all.skip(1) == others
                &&& all[0].line_num == number
                &&& all[0].source_file == file
            } else {
                all == others
            }
        }),
{
    let s = line + seq!['\n'] + rest;
    let n = line.len() as int;
    lemma_break_found(line, rest, 0);
    assert(s.subrange(0, n) =~= line);
    lemma_read_behind(line + seq!['\n'], rest, 0, number + 1, file);
    assert(line + seq!['\n'] + rest == s);
    let others = config::config_lines(rest, 0, number + 1, file);
    if n + 1 < s.len() {
        assert(config::config_lines(s, n + 1, number + 1, file) == others);
    } else {
        assert(others =~= Seq::empty());
        assert(config::config_lines(s, n + 1, number + 1, file) =~= Seq::empty());
    }
    lemma_holds_command(line);
    let all = config::config_lines(s, 0, number, file);
    if holds_command(line) {
        assert(all.skip(1) =~= others);
    }
}

proof fn lemma_holds_command(line: Seq<char>)
    ensures
        holds_command(line) <==> (text::trimmed(line).len() > 0 && text::trimmed(line)[0] != '#'),
{
    let from = text_laws::law_both_ends_are_cut_off(line);
    let t = text::trimmed(line);
    if t.len() > 0 {
        assert(line[from] == t[0]);
        assert forall|j: int| 0 <= j < from implies text::white_space(#[trigger] line[j]) by {
            assert(line.take(from)[j] == line[j]);
        }
        assert(blank_before(line, from));
        if holds_command(line) {
            let k = choose|k: int|
                0 <= k < line.len() && !text::white_space(#[trigger] line[k]) && line[k] != '#'
                    && blank_before(line, k);
            assert(k == from);
        }
    } else {
        text_laws::law_blank_texts_are_cut_to_nothing(line);
    }
}

proof fn lemma_break_found(line: Seq<char>, rest: Seq<char>, i: int)
    requires
        !line.contains('\n'),
        0 <= i <= line.len(),
    ensures
        config::line_break(line + seq!['\n'] + rest, i) == line.len(),
    decreases line.len() - i,
{
    let s = line + seq!['\n'] + rest;
    if i < line.len() {
        assert(s[i] == line[i]);
        lemma_break_found(line, rest, i + 1);
    } else {
        assert(s[i] == '\n');
    }
}

proof fn lemma_break_behind(front: Seq<char>, s: Seq<char>, i: int)
    requires
        0 <= i <= s.len(),
    ensures
        config::line_break(front + s, front.len() + i) == front.len() + config::line_break(s, i),
    decreases s.len() - i,
{
    if i < s.len() {
        assert((front + s)[front.len() + i] == s[i]);
        if s[i] != '\n' {
            lemma_break_behind(front, s, i + 1);
        }
    }
}

proof fn lemma_read_behind(front: Seq<char>, s: Seq<char>, i: int, number: int, file: Seq<char>)
    requires
        0 <= i <= s.len(),
    ensures
        config::config_lines(front + s, front.len() + i, number, file) == config::config_lines(s, i, number, file),
    decreases s.len() - i,
{
    if i < s.len() {
        lemma_break_behind(front, s, i);
        config::lemma_line_break(s, i);
        let end = config::line_break(s, i);
        assert((front + s).subrange(front.len() + i, front.len() + end) =~= s.subrange(i, end));
        if end < s.len() {
            lemma_read_behind(front, s, end + 1, number + 1, file);
        }
    }
}

/// A line of a command and its arguments is read as just these.
pub proof fn law_command_and_arguments(
    name: Seq<char>,
    args: Seq<char>,
    file: Seq<char>,
    number: int,
)
    requires
        name.len() > 0,
        name[0] != '#',
        forall|k: int| 0 <= k < name.len() ==> !text::white_space(#[trigger] name[k]),
        args.len() > 0,
        !text::white_space(args[0]),
        !text::white_space(args.last()),
    ensures
        config::line_command(name + seq![' '] + args, file, number) matches Some(c) && c.command == name
            && c.args == args,
        config::line_command(name, file, number) matches Some(c) && c.command == name && c.args.len() == 0,
{
    let s = name + seq![' '] + args;
    assert(s[0] == name[0]);
    assert(s.last() == args.last());
    lemma_untouched(s);
    lemma_untouched(name);
    lemma_first_space(name, seq![' '] + args, 0);
    assert(name + (seq![' '] + args) =~= s);
    assert(s.take(name.len() as int) =~= name);
    assert(s.skip(name.len() as int) =~= seq![' '] + args);
    let behind = seq![' '] + args;
    assert(behind.drop_first() =~= args);
    assert(text::trimmed_start(behind) == text::trimmed_start(args));
    lemma_untouched(args);
    lemma_first_space(name, Seq::empty(), 0);
    assert(name + Seq::<char>::empty() =~= name);
    assert(name.take(name.len() as int) =~= name);
    assert(name.skip(name.len() as int) =~= Seq::empty());
}

proof fn lemma_first_space(name: Seq<char>, behind: Seq<char>, i: int)
    requires
        0 <= i <= name.len(),
        forall|k: int| 0 <= k < name.len() ==> !text::white_space(#[trigger] name[k]),
        behind.len() > 0 ==> text::white_space(behind[0]),
    ensures
        config::first_space(name + behind, i) == name.len(),
    decreases name.len() - i,
{
    let s = name + behind;
    if i < name.len() {
        assert(s[i] == name[i]);
        lemma_first_space(name, behind, i + 1);
    } else if behind.len() > 0 {
        assert(s[i] == behind[0]);
    }
}

/// A place below a directory is the directory, one slash and the name; a slash that the directory
/// ends with is not doubled.
pub proof fn law_places_below(dir: Seq<char>, name: Seq<char>)
    ensures
        config::below(dir + seq!['/'], name) == dir + seq!['/'] + name,
        dir.len() > 0 && dir.last() != '/' ==> config::below(dir, name) == dir + seq!['/'] + name,
        config::below(Seq::empty(), name) == name,
{
    reveal_strlit("/");
    assert("/"@ =~= seq!['/']);
}

/// The configuration that was named comes before all others, then those of the user, and last the
/// one of the system.
pub proof fn law_own_configuration_comes_first(named: Seq<char>, home: Seq<char>)
    ensures
        config::config_places(Some(named), Some(home)) == seq![named] + config::config_places(None, Some(home)),
        config::config_places(Some(named), None) == seq![named],
        config::config_places(None, None).len() == 0,
        config::config_places(None, Some(home)) == seq![
            config::below(home, ".zmux.conf"@),
            config::below(config::below(config::below(home, ".config"@), "zmux"@), "zmux.conf"@),
            config::below(home, ".tmux.conf"@),
            "/etc/zmux.conf"@,
        ],
{
    assert(config::config_places(Some(named), Some(home)) =~= seq![named] + config::config_places(
        None,
        Some(home),
    ));
    assert(config::config_places(Some(named), None) =~= seq![named]);
    assert(config::config_places(None, Some(home)) =~= seq![
        config::below(home, ".zmux.conf"@),
        config::below(config::below(config::below(home, ".config"@), "zmux"@), "zmux.conf"@),
        config::below(home, ".tmux.conf"@),
        "/etc/zmux.conf"@,
    ]);
}

} // verus!
