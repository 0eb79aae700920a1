//! The configuration file: its lines, and the names of keys.

use crate::commands;
use crate::keys;
use crate::text;
use crate::keys::{KeyCode, KeyModifiers};
use vstd::prelude::*;

verus! {

/// A command line of a configuration file, with the line it stands on.
#[derive(Debug)]
pub struct ConfigLine {
    pub command: String,
    pub args: String,
    pub source_file: String,
    pub line_num: usize,
}

#[verifier::ext_equal]
pub struct ConfigLineV {
    pub command: Seq<char>,
    pub args: Seq<char>,
    pub source_file: Seq<char>,
    pub line_num: usize,
}

impl View for ConfigLine {
    type V = ConfigLineV;

    open spec fn view(&self) -> ConfigLineV {
        ConfigLineV {
            command: self.command@,
            args: self.args@,
            source_file: self.source_file@,
            line_num: self.line_num,
        }
    }
}

/// What a key is bound to.
#[derive(Debug)]
pub enum Action {
    Command(String),
}

/// A key, what it is bound to, and whether it may be repeated without the prefix.
#[derive(Debug)]
pub struct KeyBinding {
    pub key: (KeyCode, KeyModifiers),
    pub action: Action,
    pub repeat: bool,
}

/// Position of the first white space, or the length.
pub open spec fn first_space(s: Seq<char>, i: int) -> int
    decreases s.len() - i,
{
    if i >= s.len() || text::white_space(s[i]) {
        i
    } else {
        first_space(s, i + 1)
    }
}

/// A line's first word and what stands behind it, without the white space around either.
pub open spec fn first_word(line: Seq<char>) -> (Seq<char>, Seq<char>) {
    let s = text::trimmed(line);
    let at = first_space(s, 0);
    (s.take(at), text::trimmed(s.skip(at)))
}

/// A line's first word and what stands behind it.
pub fn split_first_word(line: &[char]) -> (r: (String, String))
    ensures
        (r.0@, r.1@) == first_word(line@),
{
    let s = text::trim(line);
    let n: usize = s.len();
    let mut at: usize = 0;
    while at < n && !text::is_whitespace(s[at])
        invariant
            n == s@.len(),
            at <= n,
            first_space(s@, at as int) == first_space(s@, 0),
        decreases n - at,
    {
        at = at + 1;
    }
    let word = text::slice_of(s.as_slice(), 0, at);
    let rest = text::copy_range(s.as_slice(), at, n);
    proof {
        assert(s@.take(at as int) =~= text::cut(s@, 0, at as int));
        assert(s@.skip(at as int) =~= s@.subrange(at as int, n as int));
    }
    (word, text::string_of(text::trim(rest.as_slice()).as_slice()))
}

/// What a line of a configuration file holds: nothing where it is blank or a comment.
pub open spec fn line_command(line: Seq<char>, file: Seq<char>, number: int) -> Option<ConfigLineV> {
    let s = text::trimmed(line);
    if s.len() == 0 || s[0] == '#' {
        None
    } else {
        Some(
            ConfigLineV {
                command: first_word(line).0,
                args: first_word(line).1,
                source_file: file,
                line_num: number as usize,
            },
        )
    }
}

/// Position of the next line break, or the length.
pub open spec fn line_break(s: Seq<char>, i: int) -> int
    decreases s.len() - i,
{
    if i >= s.len() || s[i] == '\n' {
        i
    } else {
        line_break(s, i + 1)
    }
}

pub proof fn lemma_line_break(s: Seq<char>, i: int)
    requires
        i <= s.len(),
    ensures
        i <= line_break(s, i) <= s.len(),
    decreases s.len() - i,
{
    if i < s.len() && s[i] != '\n' {
        lemma_line_break(s, i + 1);
    }
}

/// The command lines of a file's text from position `i` on, which is on line `number`.
pub open spec fn config_lines(s: Seq<char>, i: int, number: int, file: Seq<char>) -> Seq<ConfigLineV>
    decreases s.len() - i,
{
    if i >= s.len() {
        Seq::empty()
    } else {
        proof {
            lemma_line_break(s, i);
        }
        let end = line_break(s, i);
        let rest = if end >= s.len() {
            Seq::empty()
        } else {
            config_lines(s, end + 1, number + 1, file)
        };
        match line_command(s.subrange(i, end), file, number) {
            Some(c) => seq![c] + rest,
            None => rest,
        }
    }
}

pub open spec fn config_views(lines: Seq<ConfigLine>) -> Seq<ConfigLineV> {
    Seq::new(lines.len(), |i: int| lines[i]@)
}

/// The command lines of a configuration file's text, numbered from one; blank lines and comments
/// count as lines but hold no command.
pub fn parse_config_lines(content: &str, source_file: &str) -> (r: Vec<ConfigLine>)
    requires
        content@.len() < usize::MAX,
    ensures
        config_views(r@) == config_lines(content@, 0, 1, source_file@),
{
    let cs = text::chars_of(content);
    let n: usize = cs.len();
    let mut lines: Vec<ConfigLine> = Vec::new();
    let ghost all = config_lines(content@, 0, 1, source_file@);
    let mut i: usize = 0;
    let mut number: usize = 1;
    proof {
        assert(config_views(lines@) + all =~= all);
    }
    while i < n
        invariant
            n == cs@.len(),
            cs@ == content@,
            n < usize::MAX,
            i <= n,
            number <= i + 1,
            config_views(lines@) + config_lines(cs@, i as int, number as int, source_file@) == all,
        decreases n - i,
    {
        let mut end: usize = i;
        while end < n && cs[end] != '\n'
            invariant
                n == cs@.len(),
                i <= end <= n,
                line_break(cs@, end as int) == line_break(cs@, i as int),
            decreases n - end,
        {
            end = end + 1;
        }
        let line = text::copy_range(cs.as_slice(), i, end);
        let bare = text::trim(line.as_slice());
        let ghost before = config_views(lines@);
        let ghost rest = if end >= n {
            Seq::empty()
        } else {
            config_lines(cs@, end + 1, number + 1, source_file@)
        };
        if bare.len() > 0 && bare[0] != '#' {
            let (command, args) = split_first_word(line.as_slice());
            let entry = ConfigLine {
                command,
                args,
                source_file: source_file.to_string(),
                line_num: number,
            };
            let ghost entry_v = entry@;
            lines.push(entry);
            proof {
                assert(config_views(lines@) =~= before.push(entry_v));
                assert(Some(entry_v) == line_command(
                    cs@.subrange(i as int, end as int),
                    source_file@,
                    number as int,
                ));
                assert(before.push(entry_v) + rest =~= before + (seq![entry_v] + rest));
            }
        }
        proof {
            assert(config_views(lines@) + rest == all);
        }
        if end < n {
            i = end + 1;
            number = number + 1;
        } else {
            proof {
                assert(config_lines(cs@, n as int, number as int, source_file@) =~= Seq::empty());
            }
            i = n;
        }
    }
    proof {
        assert(config_views(lines@) =~= all);
    }
    lines
}

/// Modifiers and key name of a key combination: prefixes for Control, Alt and Shift, as many as
/// there are, and the rest.
pub open spec fn modifiers_of(s: Seq<char>, m: KeyModifiers) -> (KeyModifiers, Seq<char>)
    decreases s.len(),
{
    if s.len() >= 2 && s[0] == 'C' && s[1] == '-' {
        modifiers_of(s.skip(2), KeyModifiers { control: true, ..m })
    } else if s.len() >= 1 && s[0] == '^' {
        modifiers_of(s.skip(1), KeyModifiers { control: true, ..m })
    } else if s.len() >= 2 && s[0] == 'M' && s[1] == '-' {
        modifiers_of(s.skip(2), KeyModifiers { alt: true, ..m })
    } else if s.len() >= 2 && s[0] == 'S' && s[1] == '-' {
        modifiers_of(s.skip(2), KeyModifiers { shift: true, ..m })
    } else {
        (m, s)
    }
}

/// The key that a name stands for: one of the named keys, or a single character for itself.
pub open spec fn named_key(s: Seq<char>) -> Option<KeyCode> {
    if s == "Space"@ || s == "space"@ {
        Some(KeyCode::Char(' '))
    } else if s == "Enter"@ || s == "enter"@ {
        Some(KeyCode::Enter)
    } else if s == "Escape"@ || s == "escape"@ || s == "Esc"@ || s == "esc"@ {
        Some(KeyCode::Esc)
    } else if s == "Tab"@ || s == "tab"@ {
        Some(KeyCode::Tab)
    } else if s == "BSpace"@ || s == "bspace"@ || s == "BackSpace"@ || s == "backspace"@ {
        Some(KeyCode::Backspace)
    } else if s == "Up"@ || s == "up"@ {
        Some(KeyCode::Up)
    } else if s == "Down"@ || s == "down"@ {
        Some(KeyCode::Down)
    } else if s == "Left"@ || s == "left"@ {
        Some(KeyCode::Left)
    } else if s == "Right"@ || s == "right"@ {
        Some(KeyCode::Right)
    } else if s == "Home"@ || s == "home"@ {
        Some(KeyCode::Home)
    } else if s == "End"@ || s == "end"@ {
        Some(KeyCode::End)
    } else if s == "PgUp"@ || s == "pgup"@ || s == "PageUp"@ {
        Some(KeyCode::PageUp)
    } else if s == "PgDn"@ || s == "pgdn"@ || s == "PageDown"@ {
        Some(KeyCode::PageDown)
    } else if s == "Delete"@ || s == "delete"@ || s == "Del"@ || s == "del"@ {
        Some(KeyCode::Delete)
    } else if s == "Insert"@ || s == "insert"@ || s == "Ins"@ || s == "ins"@ {
        Some(KeyCode::Insert)
    } else if s == "F1"@ {
        Some(KeyCode::F(1))
    } else if s == "F2"@ {
        Some(KeyCode::F(2))
    } else if s == "F3"@ {
        Some(KeyCode::F(3))
    } else if s == "F4"@ {
        Some(KeyCode::F(4))
    } else if s == "F5"@ {
        Some(KeyCode::F(5))
    } else if s == "F6"@ {
        Some(KeyCode::F(6))
    } else if s == "F7"@ {
        Some(KeyCode::F(7))
    } else if s == "F8"@ {
        Some(KeyCode::F(8))
    } else if s == "F9"@ {
        Some(KeyCode::F(9))
    } else if s == "F10"@ {
        Some(KeyCode::F(10))
    } else if s == "F11"@ {
        Some(KeyCode::F(11))
    } else if s == "F12"@ {
        Some(KeyCode::F(12))
    } else if s.len() == 1 {
        Some(KeyCode::Char(s[0]))
    } else {
        None
    }
}

/// The key combination that a text names.
pub open spec fn key_combo(s: Seq<char>) -> Option<(KeyCode, KeyModifiers)> {
    let (m, name) = modifiers_of(text::trimmed(s), keys::no_modifiers());
    match named_key(name) {
        Some(code) => Some((code, m)),
        None => None,
    }
}

fn key_named(name: &str) -> (r: Option<KeyCode>)
    ensures
        r == named_key(name@),
{
    if text::same_text(name, "Space") || text::same_text(name, "space") {
        return Some(KeyCode::Char(' '));
    }
    if text::same_text(name, "Enter") || text::same_text(name, "enter") {
        return Some(KeyCode::Enter);
    }
    if text::same_text(name, "Escape") || text::same_text(name, "escape") || text::same_text(name, "Esc") || text::same_text(
        name,
        "esc",
    ) {
        return Some(KeyCode::Esc);
    }
    if text::same_text(name, "Tab") || text::same_text(name, "tab") {
        return Some(KeyCode::Tab);
    }
    if text::same_text(name, "BSpace") || text::same_text(name, "bspace") || text::same_text(name, "BackSpace")
        || text::same_text(name, "backspace") {
        return Some(KeyCode::Backspace);
    }
    if text::same_text(name, "Up") || text::same_text(name, "up") {
        return Some(KeyCode::Up);
    }
    if text::same_text(name, "Down") || text::same_text(name, "down") {
        return Some(KeyCode::Down);
    }
    if text::same_text(name, "Left") || text::same_text(name, "left") {
        return Some(KeyCode::Left);
    }
    if text::same_text(name, "Right") || text::same_text(name, "right") {
        return Some(KeyCode::Right);
    }
    if text::same_text(name, "Home") || text::same_text(name, "home") {
        return Some(KeyCode::Home);
    }
    if text::same_text(name, "End") || text::same_text(name, "end") {
        return Some(KeyCode::End);
    }
    if text::same_text(name, "PgUp") || text::same_text(name, "pgup") || text::same_text(name, "PageUp") {
        return Some(KeyCode::PageUp);
    }
    if text::same_text(name, "PgDn") || text::same_text(name, "pgdn") || text::same_text(name, "PageDown") {
        return Some(KeyCode::PageDown);
    }
    if text::same_text(name, "Delete") || text::same_text(name, "delete") || text::same_text(name, "Del") || text::same_text(
        name,
        "del",
    ) {
        return Some(KeyCode::Delete);
    }
    if text::same_text(name, "Insert") || text::same_text(name, "insert") || text::same_text(name, "Ins") || text::same_text(
        name,
        "ins",
    ) {
        return Some(KeyCode::Insert);
    }
    if text::same_text(name, "F1") {
        return Some(KeyCode::F(1));
    }
    if text::same_text(name, "F2") {
        return Some(KeyCode::F(2));
    }
    if text::same_text(name, "F3") {
        return Some(KeyCode::F(3));
    }
    if text::same_text(name, "F4") {
        return Some(KeyCode::F(4));
    }
    if text::same_text(name, "F5") {
        return Some(KeyCode::F(5));
    }
    if text::same_text(name, "F6") {
        return Some(KeyCode::F(6));
    }
    if text::same_text(name, "F7") {
        return Some(KeyCode::F(7));
    }
    if text::same_text(name, "F8") {
        return Some(KeyCode::F(8));
    }
    if text::same_text(name, "F9") {
        return Some(KeyCode::F(9));
    }
    if text::same_text(name, "F10") {
        return Some(KeyCode::F(10));
    }
    if text::same_text(name, "F11") {
        return Some(KeyCode::F(11));
    }
    if text::same_text(name, "F12") {
        return Some(KeyCode::F(12));
    }
    if name.unicode_len() == 1 {
        return Some(KeyCode::Char(name.get_char(0)));
    }
    None
}

/// The key combination that a text names.
pub fn parse_key_combo(s: &str) -> (r: Option<(KeyCode, KeyModifiers)>)
    ensures
        r == key_combo(s@),
{
    let chars = text::chars_of(s);
    let cs = text::trim(chars.as_slice());
    let n: usize = cs.len();
    let mut m = KeyModifiers::none();
    let mut at: usize = 0;
    proof {
        assert(cs@.skip(0) =~= cs@);
    }
    loop
        invariant
            n == cs@.len(),
            at <= n,
            modifiers_of(cs@.skip(at as int), m) == modifiers_of(cs@, keys::no_modifiers()),
        ensures
            (m, cs@.skip(at as int)) == modifiers_of(cs@, keys::no_modifiers()),
            at <= n,
        decreases n - at,
    {
        let left: usize = n - at;
        proof {
            if left >= 1 {
                assert(cs@.skip(at as int)[0] == cs@[at as int]);
                assert(cs@.skip(at as int).skip(1) =~= cs@.skip(at + 1));
            }
            if left >= 2 {
                assert(cs@.skip(at as int)[1] == cs@[at + 1]);
                assert(cs@.skip(at as int).skip(2) =~= cs@.skip(at + 2));
            }
        }
        if left >= 2 && cs[at] == 'C' && cs[at + 1] == '-' {
            m.control = true;
            at = at + 2;
        } else if left >= 1 && cs[at] == '^' {
            m.control = true;
            at = at + 1;
        } else if left >= 2 && cs[at] == 'M' && cs[at + 1] == '-' {
            m.alt = true;
            at = at + 2;
        } else if left >= 2 && cs[at] == 'S' && cs[at + 1] == '-' {
            m.shift = true;
            at = at + 2;
        } else {
            break ;
        }
    }
    let name = text::slice_of(cs.as_slice(), at, n);
    proof {
        assert(cs@.skip(at as int) =~= name@);
    }
    match key_named(name.as_str()) {
        Some(code) => Some((code, m)),
        None => None,
    }
}

/// A binding of the key that a text names, to no command yet.
pub fn parse_key(s: &str) -> (r: Option<KeyBinding>)
    ensures
        match r {
            Some(b) => key_combo(s@) == Some(b.key) && b.action->0@ == Seq::<char>::empty()
                && !b.repeat,
            None => key_combo(s@) is None,
        },
{
    match parse_key_combo(s) {
        Some(key) => Some(
            KeyBinding { key, action: Action::Command(String::new()), repeat: false },
        ),
        None => None,
    }
}

/// A name below a directory.
pub open spec fn below(dir: Seq<char>, name: Seq<char>) -> Seq<char> {
    if dir.len() == 0 {
        name
    } else if dir.last() == '/' {
        dir + name
    } else {
        dir + "/"@ + name
    }
}

/// A name below a directory.
pub fn join_path(dir: &str, name: &str) -> (r: String)
    ensures
        r@ == below(dir@, name@),
{
    let cs = text::chars_of(dir);
    let n: usize = cs.len();
    let mut out = dir.to_string();
    if n > 0 && cs[n - 1] != '/' {
        out.append("/");
    }
    out.append(name);
    proof {
        if n == 0 {
            assert(out@ =~= name@);
        }
    }
    out
}

/// Where the configuration may be, the best place first. Without a home directory only the place
/// that was named is one.
pub open spec fn config_places(named: Option<Seq<char>>, home: Option<Seq<char>>) -> Seq<Seq<char>> {
    (match named {
        Some(p) => seq![p],
        None => Seq::empty(),
    }) + (match home {
        Some(h) => seq![
            below(h, ".zmux.conf"@),
            below(below(below(h, ".config"@), "zmux"@), "zmux.conf"@),
            below(h, ".tmux.conf"@),
            "/etc/zmux.conf"@,
        ],
        None => Seq::empty(),
    })
}

/// Where the configuration may be, the best place first. The first that exists is it.
pub fn find_config_file(named: Option<String>, home: Option<String>) -> (r: Vec<String>)
    ensures
        commands::texts(r@) == config_places(commands::opt_text(named), commands::opt_text(home)),
{
    let mut out: Vec<String> = Vec::new();
    if let Some(path) = &named {
        out.push(path.clone());
    }
    if let Some(dir) = &home {
        out.push(join_path(dir.as_str(), ".zmux.conf"));
        let config = join_path(dir.as_str(), ".config");
        let own = join_path(config.as_str(), "zmux");
        out.push(join_path(own.as_str(), "zmux.conf"));
        out.push(join_path(dir.as_str(), ".tmux.conf"));
        out.push("/etc/zmux.conf".to_string());
    }
    proof {
        assert(commands::texts(out@) =~= config_places(commands::opt_text(named), commands::opt_text(home)));
    }
    out
}

} // verus!
