//! The command line: separating commands, splitting them into words, and reading their flags.

use crate::text;
use crate::strmap::StrMap;
use vstd::prelude::*;

verus! {

/// A command: its name, its arguments, and its flags with their values.
#[derive(Debug)]
pub struct ParsedCommand {
    pub name: String,
    pub args: Vec<String>,
    pub flags: StrMap<Option<String>>,
}

#[verifier::ext_equal]
pub struct CommandV {
    pub name: Seq<char>,
    pub args: Seq<Seq<char>>,
    pub flags: Map<Seq<char>, Option<Seq<char>>>,
}

/// What an optional text stands for.
pub open spec fn opt_text(s: Option<String>) -> Option<Seq<char>> {
    match s {
        Some(x) => Some(x@),
        None => None,
    }
}

/// What a vector of texts stands for.
pub open spec fn texts(v: Seq<String>) -> Seq<Seq<char>> {
    Seq::new(v.len(), |i: int| v[i]@)
}

impl View for ParsedCommand {
    type V = CommandV;

    open spec fn view(&self) -> CommandV {
        CommandV {
            name: self.name@,
            args: texts(self.args@),
            flags: flags_view(self.flags),
        }
    }
}

pub open spec fn flags_view(flags: StrMap<Option<String>>) -> Map<Seq<char>, Option<Seq<char>>> {
    flags@.map_values(|v: Option<String>| opt_text(v))
}

/// The position behind a double-quoted stretch that begins at `i`: behind the next quote that no
/// backslash stands before, or the end of the text.
pub open spec fn double_after(s: Seq<char>, i: int) -> int
    decreases s.len() - i,
{
    if i >= s.len() {
        s.len() as int
    } else if s[i] == '"' {
        i + 1
    } else if s[i] == '\\' && i + 1 < s.len() {
        double_after(s, i + 2)
    } else {
        double_after(s, i + 1)
    }
}

/// The position behind a single-quoted stretch that begins at `i`.
pub open spec fn single_after(s: Seq<char>, i: int) -> int
    decreases s.len() - i,
{
    if i >= s.len() {
        s.len() as int
    } else if s[i] == '\'' {
        i + 1
    } else {
        single_after(s, i + 1)
    }
}

pub proof fn lemma_double_after(s: Seq<char>, i: int)
    requires
        i <= s.len(),
    ensures
        i <= double_after(s, i) <= s.len(),
    decreases s.len() - i,
{
    if i < s.len() && s[i] != '"' {
        if s[i] == '\\' && i + 1 < s.len() {
            lemma_double_after(s, i + 2);
        } else {
            lemma_double_after(s, i + 1);
        }
    }
}

pub proof fn lemma_single_after(s: Seq<char>, i: int)
    requires
        i <= s.len(),
    ensures
        i <= single_after(s, i) <= s.len(),
    decreases s.len() - i,
{
    if i < s.len() && s[i] != '\'' {
        lemma_single_after(s, i + 1);
    }
}

/// The commands of a line from position `i` on, when the one under way began at `start` inside
/// `depth` open brackets. A semicolon ends a command unless it stands in quotes or brackets.
pub open spec fn segments(s: Seq<char>, i: int, depth: int, start: int) -> Seq<Seq<char>>
    decreases s.len() - i,
{
    if i >= s.len() {
        seq![s.subrange(start, s.len() as int)]
    } else if s[i] == '{' || s[i] == '(' {
        segments(s, i + 1, depth + 1, start)
    } else if s[i] == '}' || s[i] == ')' {
        segments(s, i + 1, depth - 1, start)
    } else if s[i] == '"' {
        proof {
            lemma_double_after(s, i + 1);
        }
        segments(s, double_after(s, i + 1), depth, start)
    } else if s[i] == '\'' {
        proof {
            lemma_single_after(s, i + 1);
        }
        segments(s, single_after(s, i + 1), depth, start)
    } else if s[i] == ';' && depth == 0 {
        seq![s.subrange(start, i)] + segments(s, i + 1, depth, i + 1)
    } else {
        segments(s, i + 1, depth, start)
    }
}

/// The text of a double-quoted stretch: a backslash stands for the character behind it.
pub open spec fn double_text(s: Seq<char>, i: int) -> Seq<char>
    decreases s.len() - i,
{
    if i >= s.len() || s[i] == '"' {
        Seq::empty()
    } else if s[i] == '\\' {
        if i + 1 < s.len() {
            seq![s[i + 1]] + double_text(s, i + 2)
        } else {
            Seq::empty()
        }
    } else {
        seq![s[i]] + double_text(s, i + 1)
    }
}

/// The text of a single-quoted stretch.
pub open spec fn single_text(s: Seq<char>, i: int) -> Seq<char>
    decreases s.len() - i,
{
    if i >= s.len() || s[i] == '\'' {
        Seq::empty()
    } else {
        seq![s[i]] + single_text(s, i + 1)
    }
}

/// The words of a command from position `i` on, when `word` is under way. Blanks and tabs separate
/// words; quotes keep them together; a word without a character is none.
pub open spec fn words(s: Seq<char>, i: int, word: Seq<char>) -> Seq<Seq<char>>
    decreases s.len() - i,
{
    if i >= s.len() {
        if word.len() == 0 {
            Seq::empty()
        } else {
            seq![word]
        }
    } else if s[i] == ' ' || s[i] == '\t' {
        if word.len() == 0 {
            words(s, i + 1, word)
        } else {
            seq![word] + words(s, i + 1, Seq::empty())
        }
    } else if s[i] == '"' {
        proof {
            lemma_double_after(s, i + 1);
        }
        words(s, double_after(s, i + 1), word + double_text(s, i + 1))
    } else if s[i] == '\'' {
        proof {
            lemma_single_after(s, i + 1);
        }
        words(s, single_after(s, i + 1), word + single_text(s, i + 1))
    } else {
        words(s, i + 1, word.push(s[i]))
    }
}

/// Whether a flag takes a value.
pub open spec fn takes_value(c: char) -> bool {
    ||| c == 't'
    ||| c == 's'
    ||| c == 'n'
    ||| c == 'c'
    ||| c == 'F'
    ||| c == 'f'
    ||| c == 'l'
    ||| c == 'w'
    ||| c == 'h'
    ||| c == 'e'
    ||| c == 'p'
    ||| c == 'T'
    ||| c == 'C'
    ||| c == 'L'
    ||| c == 'I'
    ||| c == 'm'
}

/// Flags read from the letters of one word from position `i` on, and whether the word behind was
/// used up as a value. A flag with a value takes the rest of its word or, at the word's end, the
/// word behind.
pub open spec fn letters(
    word: Seq<char>,
    i: int,
    behind: Option<Seq<char>>,
    flags: Map<Seq<char>, Option<Seq<char>>>,
) -> (Map<Seq<char>, Option<Seq<char>>>, bool)
    decreases word.len() - i,
{
    if i >= word.len() {
        (flags, false)
    } else if takes_value(word[i]) && i + 1 < word.len() {
        (flags.insert(seq![word[i]], Some(word.skip(i + 1))), false)
    } else if takes_value(word[i]) && behind is Some {
        (flags.insert(seq![word[i]], behind), true)
    } else {
        letters(word, i + 1, behind, flags.insert(seq![word[i]], None))
    }
}

/// Whether a word is a group of flag letters: one dash and something behind it.
pub open spec fn is_flag_word(word: Seq<char>) -> bool {
    word.len() > 1 && word[0] == '-' && word[1] != '-'
}

/// Arguments and flags of the words from position `i` on. Behind `--` everything is an argument.
pub open spec fn read_words(
    ws: Seq<Seq<char>>,
    i: int,
    args: Seq<Seq<char>>,
    flags: Map<Seq<char>, Option<Seq<char>>>,
) -> (Seq<Seq<char>>, Map<Seq<char>, Option<Seq<char>>>)
    decreases ws.len() - i,
{
    if i >= ws.len() {
        (args, flags)
    } else if ws[i] == seq!['-', '-'] {
        (args + ws.skip(i + 1), flags)
    } else if is_flag_word(ws[i]) {
        let behind = if i + 1 < ws.len() {
            Some(ws[i + 1])
        } else {
            None
        };
        let (read, used) = letters(ws[i], 1, behind, flags);
        read_words(
            ws,
            if used && i + 1 < ws.len() {
                i + 2
            } else {
                i + 1
            },
            args,
            read,
        )
    } else {
        read_words(ws, i + 1, args.push(ws[i]), flags)
    }
}

/// The command that a text holds, none where it has no word.
pub open spec fn command_of(s: Seq<char>) -> Option<CommandV> {
    let ws = words(s, 0, Seq::empty());
    if ws.len() == 0 {
        None
    } else {
        let (args, flags) = read_words(ws, 1, Seq::empty(), Map::empty());
        Some(CommandV { name: ws[0], args, flags })
    }
}

/// The commands that the first `n` segments hold.
pub open spec fn commands_of(parts: Seq<Seq<char>>, n: int) -> Seq<CommandV>
    decreases n,
{
    if n <= 0 {
        Seq::empty()
    } else {
        let before = commands_of(parts, n - 1);
        match command_of(text::trimmed(parts[n - 1])) {
            Some(c) => before.push(c),
            None => before,
        }
    }
}

/// The commands of a line.
pub open spec fn line_commands(s: Seq<char>) -> Seq<CommandV> {
    let parts = segments(s, 0, 0, 0);
    commands_of(parts, parts.len() as int)
}

pub open spec fn command_views(cmds: Seq<ParsedCommand>) -> Seq<CommandV> {
    Seq::new(cmds.len(), |i: int| cmds[i]@)
}

fn close_double(cs: &Vec<char>, from: usize) -> (r: usize)
    requires
        from <= cs@.len(),
    ensures
        r == double_after(cs@, from as int),
        from <= r <= cs@.len(),
{
    let n: usize = cs.len();
    let mut i: usize = from;
    while i < n && cs[i] != '"'
        invariant
            n == cs@.len(),
            from <= i <= n,
            double_after(cs@, i as int) == double_after(cs@, from as int),
        decreases n - i,
    {
        if cs[i] == '\\' && n - i >= 2 {
            i = i + 2;
        } else {
            i = i + 1;
        }
    }
    if i < n {
        i + 1
    } else {
        n
    }
}

fn close_single(cs: &Vec<char>, from: usize) -> (r: usize)
    requires
        from <= cs@.len(),
    ensures
        r == single_after(cs@, from as int),
        from <= r <= cs@.len(),
{
    let n: usize = cs.len();
    let mut i: usize = from;
    while i < n && cs[i] != '\''
        invariant
            n == cs@.len(),
            from <= i <= n,
            single_after(cs@, i as int) == single_after(cs@, from as int),
        decreases n - i,
    {
        i = i + 1;
    }
    if i < n {
        i + 1
    } else {
        n
    }
}

pub open spec fn char_views(v: Seq<Vec<char>>) -> Seq<Seq<char>> {
    Seq::new(v.len(), |i: int| v[i]@)
}

/// The commands of a line, separated at the semicolons outside quotes and brackets.
pub fn split_on_semicolon(cs: &Vec<char>) -> (r: Vec<Vec<char>>)
    ensures
        char_views(r@) == segments(cs@, 0, 0, 0),
{
    let n: usize = cs.len();
    let mut parts: Vec<Vec<char>> = Vec::new();
    let mut start: usize = 0;
    let mut depth: i128 = 0;
    let mut i: usize = 0;
    let ghost all = segments(cs@, 0, 0, 0);
    proof {
        assert(char_views(parts@) + all =~= all);
    }
    while i < n
        invariant
            n == cs@.len(),
            start <= i <= n,
            -i <= depth <= i,
            char_views(parts@) + segments(cs@, i as int, depth as int, start as int) == all,
        decreases n - i,
    {
        let c = cs[i];
        if c == '"' {
            i = close_double(cs, i + 1);
        } else if c == '\'' {
            i = close_single(cs, i + 1);
        } else {
            if c == '{' || c == '(' {
                depth = depth + 1;
            } else if c == '}' || c == ')' {
                depth = depth - 1;
            } else if c == ';' && depth == 0 {
                let part = text::copy_range(cs.as_slice(), start, i);
                let ghost before = char_views(parts@);
                let ghost part_v = part@;
                parts.push(part);
                proof {
                    let rest = segments(cs@, i + 1, depth as int, i + 1);
                    assert(char_views(parts@) =~= before.push(part_v));
                    assert(before.push(part_v) + rest =~= before + (seq![part_v] + rest));
                }
                start = i + 1;
            }
            i = i + 1;
        }
    }
    let part = text::copy_range(cs.as_slice(), start, n);
    let ghost before = char_views(parts@);
    let ghost part_v = part@;
    parts.push(part);
    proof {
        assert(char_views(parts@) =~= before.push(part_v));
        assert(before.push(part_v) =~= before + seq![part_v]);
    }
    parts
}

/// Appends the text of a double-quoted stretch; gives the position behind it.
fn take_double(cs: &Vec<char>, from: usize, word: &mut Vec<char>) -> (r: usize)
    requires
        from <= cs@.len(),
    ensures
        r == double_after(cs@, from as int),
        from <= r <= cs@.len(),
        final(word)@ == old(word)@ + double_text(cs@, from as int),
{
    let n: usize = cs.len();
    let mut i: usize = from;
    let ghost goal = word@ + double_text(cs@, from as int);
    while i < n && cs[i] != '"'
        invariant
            n == cs@.len(),
            from <= i <= n,
            double_after(cs@, i as int) == double_after(cs@, from as int),
            word@ + double_text(cs@, i as int) == goal,
        decreases n - i,
    {
        let ghost before = word@;
        if cs[i] == '\\' {
            if n - i < 2 {
                proof {
                    assert(double_text(cs@, i as int) =~= Seq::empty());
                    assert(double_text(cs@, n as int) =~= Seq::empty());
                }
                i = n;
            } else {
                word.push(cs[i + 1]);
                proof {
                    let rest = double_text(cs@, i + 2);
                    assert(before.push(cs@[i + 1]) + rest =~= before + (seq![cs@[i + 1]] + rest));
                }
                i = i + 2;
            }
        } else {
            word.push(cs[i]);
            proof {
                let rest = double_text(cs@, i + 1);
                assert(before.push(cs@[i as int]) + rest =~= before + (seq![cs@[i as int]] + rest));
            }
            i = i + 1;
        }
    }
    proof {
        assert(double_text(cs@, i as int) =~= Seq::empty());
        assert(word@ + double_text(cs@, i as int) =~= word@);
    }
    if i < n {
        i + 1
    } else {
        n
    }
}

/// Appends the text of a single-quoted stretch; gives the position behind it.
fn take_single(cs: &Vec<char>, from: usize, word: &mut Vec<char>) -> (r: usize)
    requires
        from <= cs@.len(),
    ensures
        r == single_after(cs@, from as int),
        from <= r <= cs@.len(),
        final(word)@ == old(word)@ + single_text(cs@, from as int),
{
    let n: usize = cs.len();
    let mut i: usize = from;
    let ghost goal = word@ + single_text(cs@, from as int);
    while i < n && cs[i] != '\''
        invariant
            n == cs@.len(),
            from <= i <= n,
            single_after(cs@, i as int) == single_after(cs@, from as int),
            word@ + single_text(cs@, i as int) == goal,
        decreases n - i,
    {
        let ghost before = word@;
        word.push(cs[i]);
        proof {
            let rest = single_text(cs@, i + 1);
            assert(before.push(cs@[i as int]) + rest =~= before + (seq![cs@[i as int]] + rest));
        }
        i = i + 1;
    }
    proof {
        assert(word@ + single_text(cs@, i as int) =~= word@);
    }
    if i < n {
        i + 1
    } else {
        n
    }
}

/// The words of a command.
pub fn tokenize(cs: &Vec<char>) -> (r: Vec<Vec<char>>)
    ensures
        char_views(r@) == words(cs@, 0, Seq::empty()),
{
    let n: usize = cs.len();
    let mut tokens: Vec<Vec<char>> = Vec::new();
    let mut word: Vec<char> = Vec::new();
    let mut i: usize = 0;
    let ghost all = words(cs@, 0, Seq::empty());
    proof {
        assert(word@ =~= Seq::empty());
        assert(char_views(tokens@) + all =~= all);
    }
    while i < n
        invariant
            n == cs@.len(),
            i <= n,
            char_views(tokens@) + words(cs@, i as int, word@) == all,
        decreases n - i,
    {
        let c = cs[i];
        if c == ' ' || c == '\t' {
            if word.len() > 0 {
                let ghost before = char_views(tokens@);
                let ghost word_v = word@;
                tokens.push(word);
                word = Vec::new();
                proof {
                    let rest = words(cs@, i + 1, Seq::empty());
                    assert(word@ =~= Seq::empty());
                    assert(char_views(tokens@) =~= before.push(word_v));
                    assert(before.push(word_v) + rest =~= before + (seq![word_v] + rest));
                }
            }
            i = i + 1;
        } else if c == '"' {
            i = take_double(cs, i + 1, &mut word);
        } else if c == '\'' {
            i = take_single(cs, i + 1, &mut word);
        } else {
            word.push(c);
            i = i + 1;
        }
    }
    let ghost before = char_views(tokens@);
    if word.len() > 0 {
        let ghost word_v = word@;
        tokens.push(word);
        proof {
            assert(char_views(tokens@) =~= before.push(word_v));
            assert(before.push(word_v) =~= before + seq![word_v]);
        }
    } else {
        proof {
            assert(before + Seq::<Seq<char>>::empty() =~= before);
        }
    }
    tokens
}

fn flag_takes_value(c: char) -> (r: bool)
    ensures
        r == takes_value(c),
{
    c == 't' || c == 's' || c == 'n' || c == 'c' || c == 'F' || c == 'f' || c == 'l' || c == 'w' || c
        == 'h' || c == 'e' || c == 'p' || c == 'T' || c == 'C' || c == 'L' || c == 'I' || c
        == 'm'
}

fn insert_flag(flags: &mut StrMap<Option<String>>, c: char, value: Option<String>)
    ensures
        flags_view(*final(flags)) == flags_view(*old(flags)).insert(seq![c], opt_text(value)),
{
    let mut key = String::new();
    key.push(c);
    proof {
        assert(key@ =~= seq![c]);
    }
    flags.insert(key, value);
    proof {
        assert(flags_view(*flags) =~= flags_view(*old(flags)).insert(seq![c], opt_text(value)));
    }
}

/// Reads the flags of one word; true where the word behind was used up as a value.
fn read_letters(
    word: &Vec<char>,
    behind: Option<&Vec<char>>,
    flags: &mut StrMap<Option<String>>,
) -> (r: bool)
    requires
        word@.len() > 0,
    ensures
        (flags_view(*final(flags)), r) == letters(
            word@,
            1,
            match behind {
                Some(b) => Some(b@),
                None => None,
            },
            flags_view(*old(flags)),
        ),
        r ==> behind is Some,
{
    let n: usize = word.len();
    let ghost next = match behind {
        Some(b) => Some(b@),
        None => None,
    };
    let ghost goal = letters(word@, 1, next, flags_view(*flags));
    let mut i: usize = 1;
    while i < n
        invariant
            n == word@.len(),
            1 <= i <= n,
            next == (match behind {
                Some(b) => Some(b@),
                None => None,
            }),
            letters(word@, i as int, next, flags_view(*flags)) == goal,
            goal == letters(word@, 1, next, flags_view(*old(flags))),
        decreases n - i,
    {
        let c = word[i];
        if flag_takes_value(c) {
            if i + 1 < n {
                let value = text::slice_of(word.as_slice(), i + 1, n);
                proof {
                    assert(word@.skip(i + 1) =~= word@.subrange(i + 1, n as int));
                }
                insert_flag(flags, c, Some(value));
                return false;
            }
            if let Some(b) = behind {
                insert_flag(flags, c, Some(text::string_of(b.as_slice())));
                return true;
            }
        }
        insert_flag(flags, c, None);
        i = i + 1;
    }
    false
}

/// The command that a text holds, none where it has no word.
pub fn parse_single(cs: &Vec<char>) -> (r: Option<ParsedCommand>)
    ensures
        (match r {
            Some(c) => Some(c@),
            None => None,
        }) == command_of(cs@),
{
    let tokens = tokenize(cs);
    let n: usize = tokens.len();
    if n == 0 {
        return None;
    }
    let ghost ws = words(cs@, 0, Seq::empty());
    let mut args: Vec<String> = Vec::new();
    let mut flags: StrMap<Option<String>> = StrMap::new();
    proof {
        assert(texts(args@) =~= Seq::empty());
        assert(flags_view(flags) =~= Map::empty());
    }
    let ghost goal = read_words(ws, 1, Seq::empty(), Map::empty());
    let mut i: usize = 1;
    while i < n
        invariant_except_break
            read_words(ws, i as int, texts(args@), flags_view(flags)) == goal,
        invariant
            n == tokens@.len(),
            ws == char_views(tokens@),
            1 <= i <= n,
        ensures
            (texts(args@), flags_view(flags)) == goal,
        decreases n - i,
    {
        let tok = &tokens[i];
        proof {
            assert(ws[i as int] == tok@);
        }
        let len: usize = tok.len();
        if len == 2 && tok[0] == '-' && tok[1] == '-' {
            proof {
                assert(tok@ =~= seq!['-', '-']);
            }
            let ghost before = texts(args@);
            let mut k: usize = i + 1;
            proof {
                assert(texts(args@) =~= before + ws.subrange(i + 1, k as int));
            }
            while k < n
                invariant
                    n == tokens@.len(),
                    ws == char_views(tokens@),
                    i < k <= n,
                    texts(args@) == before + ws.subrange(i + 1, k as int),
                decreases n - k,
            {
                let ghost so_far = texts(args@);
                let arg = text::string_of(tokens[k].as_slice());
                let ghost arg_v = arg@;
                args.push(arg);
                proof {
                    assert(texts(args@) =~= so_far.push(arg_v));
                    assert(ws.subrange(i + 1, k + 1) =~= ws.subrange(i + 1, k as int).push(arg_v));
                    assert(before + ws.subrange(i + 1, k as int).push(arg_v) =~= (before
                        + ws.subrange(i + 1, k as int)).push(arg_v));
                }
                k = k + 1;
            }
            proof {
                assert(ws.skip(i + 1) =~= ws.subrange(i + 1, n as int));
            }
            break ;
        }
        if len > 1 && tok[0] == '-' && tok[1] != '-' {
            proof {
                assert(ws[i as int] != seq!['-', '-']) by {
                    if ws[i as int] == seq!['-', '-'] {
                        assert(tok@[1] == '-');
                    }
                }
            }
            let behind: Option<&Vec<char>> = if i + 1 < n {
                Some(&tokens[i + 1])
            } else {
                None
            };
            let used: bool = read_letters(tok, behind, &mut flags);
            i = if used {
                i + 2
            } else {
                i + 1
            };
        } else {
            let ghost so_far = texts(args@);
            let arg = text::string_of(tok.as_slice());
            let ghost arg_v = arg@;
            args.push(arg);
            proof {
                assert(texts(args@) =~= so_far.push(arg_v));
            }
            i = i + 1;
        }
    }
    let name = text::string_of(tokens[0].as_slice());
    let r = ParsedCommand { name, args, flags };
    proof {
        assert(ws[0] == tokens@[0]@);
        assert(command_of(cs@) == Some(
            CommandV { name: ws[0], args: goal.0, flags: goal.1 },
        ));
        assert(r@ =~= CommandV { name: ws[0], args: goal.0, flags: goal.1 });
    }
    Some(r)
}

impl ParsedCommand {
    /// The commands of a line.
    pub fn parse(input: &str) -> (r: Vec<ParsedCommand>)
        ensures
            command_views(r@) == line_commands(input@),
    {
        let cs = text::chars_of(input);
        let parts = split_on_semicolon(&cs);
        let n: usize = parts.len();
        let ghost all = segments(input@, 0, 0, 0);
        let mut cmds: Vec<ParsedCommand> = Vec::new();
        proof {
            assert(command_views(cmds@) =~= Seq::empty());
        }
        let mut i: usize = 0;
        while i < n
            invariant
                n == parts@.len(),
                all == char_views(parts@),
                i <= n,
                command_views(cmds@) == commands_of(all, i as int),
            decreases n - i,
        {
            let ghost before = command_views(cmds@);
            let part = text::trim(parts[i].as_slice());
            proof {
                assert(all[i as int] == parts@[i as int]@);
            }
            if let Some(cmd) = parse_single(&part) {
                let ghost cmd_v = cmd@;
                cmds.push(cmd);
                proof {
                    assert(command_views(cmds@) =~= before.push(cmd_v));
                }
            }
            i = i + 1;
        }
        cmds
    }

    /// Whether a flag was given.
    pub fn flag(&self, name: &str) -> (r: bool)
        ensures
            r == self@.flags.contains_key(name@),
    {
        self.flags.contains_key(name)
    }

    /// The value of a flag, if it was given with one.
    pub fn flag_value(&self, name: &str) -> (r: Option<&String>)
        ensures
            (match r {
                Some(v) => Some(v@),
                None => None,
            }) == (if self@.flags.contains_key(name@) {
                self@.flags[name@]
            } else {
                None
            }),
    {
        match self.flags.get(name) {
            Some(v) => match v {
                Some(s) => Some(s),
                None => None,
            },
            None => None,
        }
    }
}

/// A text with a backslash before each backslash and each double quote.
pub open spec fn escaped(s: Seq<char>) -> Seq<char>
    decreases s.len(),
{
    if s.len() == 0 {
        Seq::empty()
    } else if s.last() == '\\' || s.last() == '"' {
        escaped(s.drop_last()) + seq!['\\', s.last()]
    } else {
        escaped(s.drop_last()).push(s.last())
    }
}

/// A text as one word of a command line.
pub open spec fn quoted(s: Seq<char>) -> Seq<char> {
    seq!['"'] + escaped(s) + seq!['"']
}

/// Puts a text in double quotes, so that it is one word of a command line.
pub fn shell_quote(s: &str) -> (r: String)
    ensures
        r@ == quoted(s@),
{
    let cs = text::chars_of(s);
    let mut out = String::new();
    out.push('"');
    let mut i: usize = 0;
    proof {
        assert(out@ =~= seq!['"'] + escaped(cs@.take(0)));
    }
    while i < cs.len()
        invariant
            i <= cs@.len(),
            out@ == seq!['"'] + escaped(cs@.take(i as int)),
        decreases cs@.len() - i,
    {
        let c = cs[i];
        let ghost front = cs@.take(i as int);
        let ghost before = out@;
        proof {
            assert(cs@.take(i + 1).drop_last() =~= front);
        }
        if c == '\\' || c == '"' {
            out.push('\\');
            out.push(c);
            proof {
                assert(out@ =~= seq!['"'] + (escaped(front) + seq!['\\', c]));
            }
        } else {
            out.push(c);
            proof {
                assert(out@ =~= seq!['"'] + escaped(front).push(c));
            }
        }
        i = i + 1;
    }
    proof {
        assert(cs@.take(i as int) =~= cs@);
    }
    let ghost before = out@;
    out.push('"');
    proof {
        assert(before.push('"') =~= before + seq!['"']);
    }
    out
}

proof fn lemma_escaped_add(a: Seq<char>, b: Seq<char>)
    ensures
        escaped(a + b) == escaped(a) + escaped(b),
    decreases b.len(),
{
    if b.len() == 0 {
        assert(a + b =~= a);
        assert(escaped(a) + escaped(b) =~= escaped(a));
    } else {
        assert((a + b).drop_last() =~= a + b.drop_last());
        lemma_escaped_add(a, b.drop_last());
        if b.last() == '\\' || b.last() == '"' {
            assert((escaped(a) + escaped(b.drop_last())) + seq!['\\', b.last()] =~= escaped(a) + (
            escaped(b.drop_last()) + seq!['\\', b.last()]));
        } else {
            assert((escaped(a) + escaped(b.drop_last())).push(b.last()) =~= escaped(a) + escaped(
                b.drop_last(),
            ).push(b.last()));
        }
    }
}

/// Behind an opening quote, an escaped text and its closing quote are read as the text, whatever
/// stands behind them.
pub proof fn lemma_quoted_read_back(s: Seq<char>, start: int, name: Seq<char>, k: int)
    requires
        0 <= start,
        0 <= k <= name.len(),
        start + escaped(name).len() < s.len(),
        s.subrange(start, start + escaped(name).len() + 1) == escaped(name).push('"'),
    ensures
        double_text(s, start + escaped(name.take(k)).len()) == name.skip(k),
        double_after(s, start + escaped(name.take(k)).len()) == start + escaped(name).len() + 1,
    decreases name.len() - k,
{
    let at = start + escaped(name.take(k)).len();
    let stretch = s.subrange(start, start + escaped(name).len() + 1);
    assert(name =~= name.take(k) + name.skip(k));
    lemma_escaped_add(name.take(k), name.skip(k));
    if k == name.len() {
        assert(name.take(k) =~= name);
        assert(s[at] == stretch[at - start]);
        assert(s[at] == '"');
        assert(name.skip(k) =~= Seq::empty());
    } else {
        let c = name[k];
        let one = seq![c];
        assert(name.take(k + 1) =~= name.take(k) + one);
        lemma_escaped_add(name.take(k), one);
        assert(name =~= name.take(k + 1) + name.skip(k + 1));
        lemma_escaped_add(name.take(k + 1), name.skip(k + 1));
        assert(one.drop_last() =~= Seq::empty());
        assert(escaped(Seq::<char>::empty()) =~= Seq::empty());
        let done = escaped(name.take(k));
        lemma_quoted_read_back(s, start, name, k + 1);
        assert(name.skip(k) =~= seq![c] + name.skip(k + 1));
        if c == '\\' || c == '"' {
            assert(escaped(one) =~= seq!['\\', c]);
            assert(escaped(name)[done.len() as int] == '\\');
            assert(escaped(name)[(done.len() + 1) as int] == c);
            assert(s[at] == stretch[at - start]);
            assert(s[at + 1] == stretch[at + 1 - start]);
        } else {
            assert(escaped(one) =~= seq![c]);
            assert(escaped(name)[done.len() as int] == c);
            assert(s[at] == stretch[at - start]);
        }
    }
}

/// Whether a character stands for itself anywhere on a command line.
pub open spec fn plain(c: char) -> bool {
    &&& !text::white_space(c)
    &&& c != '"' && c != '\'' && c != ';'
    &&& c != '{' && c != '}' && c != '(' && c != ')'
}

/// Plain characters and blanks end no command.
pub proof fn lemma_segments_plain(s: Seq<char>, i: int, j: int, start: int)
    requires
        0 <= i <= j <= s.len(),
        forall|k: int| i <= k < j ==> plain(#[trigger] s[k]) || s[k] == ' ',
    ensures
        segments(s, i, 0, start) == segments(s, j, 0, start),
    decreases j - i,
{
    if i < j {
        assert(plain(s[i]) || s[i] == ' ');
        lemma_segments_plain(s, i + 1, j, start);
    }
}

/// Plain characters go to the word under way.
pub proof fn lemma_words_plain(s: Seq<char>, i: int, j: int, word: Seq<char>)
    requires
        0 <= i <= j <= s.len(),
        forall|k: int| i <= k < j ==> plain(#[trigger] s[k]),
    ensures
        words(s, i, word) == words(s, j, word + s.subrange(i, j)),
    decreases j - i,
{
    if i < j {
        assert(plain(s[i]));
        lemma_words_plain(s, i + 1, j, word.push(s[i]));
        assert(word.push(s[i]) + s.subrange(i + 1, j) =~= word + s.subrange(i, j));
    } else {
        assert(word + s.subrange(i, j) =~= word);
    }
}

/// A quoted text behind `--` comes back as the one argument of its command, whatever it holds:
/// blanks, semicolons, quotes, brackets, dashes or backslashes. (An empty text is no argument.)
pub proof fn law_quoted_text_is_one_argument(name: Seq<char>, text: Seq<char>)
    requires
        name.len() > 0,
        forall|k: int| 0 <= k < name.len() ==> plain(#[trigger] name[k]),
        text.len() > 0,
    ensures
        line_commands(name + seq![' ', '-', '-', ' '] + quoted(text)) == seq![
            CommandV { name, args: seq![text], flags: Map::empty() },
        ],
{
    let line = name + seq![' ', '-', '-', ' '] + quoted(text);
    let n = name.len() as int;
    let open = n + 4;
    let end = line.len() as int;
    assert(forall|k: int| 0 <= k < n ==> line[k] == name[k]);
    assert(line[n] == ' ' && line[n + 1] == '-' && line[n + 2] == '-' && line[n + 3] == ' ');
    assert(line[open] == '"');
    assert(line.subrange(open + 1, end) =~= escaped(text).push('"'));
    assert(text.take(0) =~= Seq::empty());
    assert(escaped(text.take(0)) =~= Seq::empty());
    lemma_quoted_read_back(line, open + 1, text, 0);
    assert(text.skip(0) =~= text);
    // One command, and nothing around it to take away.
    lemma_segments_plain(line, 0, open, 0);
    assert(segments(line, open, 0, 0) == segments(line, end, 0, 0));
    assert(line.subrange(0, end) =~= line);
    let parts = segments(line, 0, 0, 0);
    assert(parts =~= seq![line]);
    assert(plain(name[0]));
    assert(line[0] == name[0]);
    assert(text::trimmed_start(line) == line);
    assert(line.last() == '"');
    assert(!text::white_space('"'));
    assert(text::trimmed(line) == line);
    // Three words.
    let none = Seq::<char>::empty();
    lemma_words_plain(line, 0, n, none);
    assert(none + line.subrange(0, n) =~= name);
    lemma_words_plain(line, n + 1, n + 3, none);
    let dashes = seq!['-', '-'];
    assert(none + line.subrange(n + 1, n + 3) =~= dashes);
    assert(words(line, n + 4, none) == words(line, end, none + text));
    assert(none + text =~= text);
    assert(words(line, n + 4, none) == seq![text]);
    assert(words(line, n + 3, dashes) == seq![dashes] + seq![text]);
    assert(words(line, n + 1, none) == seq![dashes] + seq![text]);
    let ws = words(line, 0, none);
    assert(ws == seq![name] + (seq![dashes] + seq![text]));
    assert(ws =~= seq![name, dashes, text]);
    let no_args = Seq::<Seq<char>>::empty();
    assert(no_args + ws.skip(2) =~= seq![text]);
    let c = CommandV { name, args: seq![text], flags: Map::empty() };
    assert(command_of(line) == Some(c));
    assert(commands_of(parts, 0) =~= Seq::empty());
    assert(commands_of(parts, 1) =~= seq![c]);
}

} // verus!
