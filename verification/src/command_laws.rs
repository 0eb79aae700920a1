//! What the command lines that the client writes mean to a server that reads them.

use crate::commands;
use crate::key_laws;
use crate::text;
use crate::commands::CommandV;
use vstd::prelude::*;

verus! {

/// A command that names its target: its name, ` -t ` and the target as it is written.
spec fn to_target(name: Seq<char>, written: Seq<char>) -> Seq<char> {
    name + seq![' ', '-', 't', ' '] + written
}

/// Whether a text may stand for a word: in quotes, or as it is where nothing in it needs them.
spec fn stands_for(written: Seq<char>, word: Seq<char>) -> bool {
    &&& word.len() > 0
    &&& written == commands::quoted(word) || (written == word && all_plain(word))
}

spec fn all_plain(s: Seq<char>) -> bool {
    forall|k: int| 0 <= k < s.len() ==> commands::plain(#[trigger] s[k])
}

/// A command with a target and nothing else.
pub open spec fn targeting(name: Seq<char>, target: Seq<char>) -> CommandV {
    CommandV { name, args: Seq::empty(), flags: map![seq!['t'] => Some(target)] }
}

proof fn lemma_quoted_at(s: Seq<char>, at: int, word: Seq<char>)
    requires
        0 <= at,
        at + commands::quoted(word).len() <= s.len(),
        s.subrange(at, at + commands::quoted(word).len()) == commands::quoted(word),
    ensures
        s[at] == '"',
        commands::double_text(s, at + 1) == word,
        commands::double_after(s, at + 1) == at + commands::quoted(word).len(),
{
    let q = s.subrange(at, at + commands::quoted(word).len());
    assert(q[0] == s[at]);
    assert(s.subrange(at + 1, at + 1 + commands::escaped(word).len() + 1) =~= commands::escaped(word).push('"')) by {
        assert forall|k: int| 0 <= k < commands::escaped(word).len() + 1 implies s[at + 1 + k] == commands::escaped(
            word,
        ).push('"')[k] by {
            assert(q[k + 1] == s[at + 1 + k]);
        }
    }
    assert(word.take(0) =~= Seq::empty());
    assert(commands::escaped(word.take(0)) =~= Seq::empty());
    commands::lemma_quoted_read_back(s, at + 1, word, 0);
    assert(word.skip(0) =~= word);
}

proof fn lemma_target_words(name: Seq<char>, written: Seq<char>, word: Seq<char>)
    requires
        name.len() > 0,
        all_plain(name),
        stands_for(written, word),
    ensures
        commands::command_of(to_target(name, written)) == Some(targeting(name, word)),
        !text::white_space(to_target(name, written)[0]),
        !text::white_space(to_target(name, written).last()),
{
    let line = to_target(name, written);
    let n = name.len() as int;
    let end = line.len() as int;
    let none = Seq::<char>::empty();
    let dash = seq!['-', 't'];
    assert(forall|k: int| 0 <= k < n ==> line[k] == name[k]);
    assert(line[n] == ' ' && line[n + 1] == '-' && line[n + 2] == 't' && line[n + 3] == ' ');
    assert(commands::plain(name[0]));
    assert(line.subrange(n + 4, end) =~= written);
    commands::lemma_words_plain(line, 0, n, none);
    assert(none + line.subrange(0, n) =~= name);
    commands::lemma_words_plain(line, n + 1, n + 3, none);
    assert(none + line.subrange(n + 1, n + 3) =~= dash);
    if written == commands::quoted(word) {
        lemma_quoted_at(line, n + 4, word);
        assert(none + word =~= word);
        assert(commands::words(line, n + 4, none) == commands::words(line, end, word));
        assert(line.last() == '"');
    } else {
        assert(forall|k: int| 0 <= k < word.len() ==> line[n + 4 + k] == word[k]);
        assert forall|k: int| n + 4 <= k < end implies commands::plain(#[trigger] line[k]) by {
            assert(line[k] == word[k - n - 4]);
        }
        commands::lemma_words_plain(line, n + 4, end, none);
        assert(none + line.subrange(n + 4, end) =~= word);
        assert(commands::plain(line[end - 1]));
    }
    assert(commands::words(line, n + 4, none) == seq![word]);
    assert(commands::words(line, n + 3, dash) == seq![dash] + seq![word]);
    assert(commands::words(line, n + 1, none) == seq![dash] + seq![word]);
    let ws = commands::words(line, 0, none);
    assert(ws == seq![name] + (seq![dash] + seq![word]));
    assert(ws =~= seq![name, dash, word]);
    let no_args = Seq::<Seq<char>>::empty();
    let no_flags = Map::<Seq<char>, Option<Seq<char>>>::empty();
    assert(dash[1] != '-');
    assert(ws[1] != seq!['-', '-']) by {
        assert(seq!['-', '-'][1] == '-');
    }
    let flags = no_flags.insert(seq!['t'], Some(word));
    assert(commands::letters(dash, 1, Some(word), no_flags) == (flags, true));
    assert(commands::read_words(ws, 3, no_args, flags) == (no_args, flags));
    assert(commands::read_words(ws, 1, no_args, no_flags) == (no_args, flags));
    assert(flags =~= map![seq!['t'] => Some(word)]);
}

proof fn lemma_target_trimmed(name: Seq<char>, written: Seq<char>, word: Seq<char>)
    requires
        name.len() > 0,
        all_plain(name),
        stands_for(written, word),
    ensures
        text::trimmed(to_target(name, written)) == to_target(name, written),
        text::trimmed(seq![' '] + to_target(name, written)) == to_target(name, written),
{
    let t = to_target(name, written);
    lemma_target_words(name, written, word);
    assert((seq![' '] + t).drop_first() =~= t);
    assert(text::trimmed_start(seq![' '] + t) == text::trimmed_start(t));
}

/// Reading a line goes over a command with a target as one stretch.
proof fn lemma_target_segment(
    s: Seq<char>,
    at: int,
    start: int,
    name: Seq<char>,
    written: Seq<char>,
    word: Seq<char>,
)
    requires
        0 <= at,
        at + to_target(name, written).len() <= s.len(),
        s.subrange(at, at + to_target(name, written).len()) == to_target(name, written),
        all_plain(name),
        stands_for(written, word),
    ensures
        commands::segments(s, at, 0, start) == commands::segments(s, at + to_target(name, written).len(), 0, start),
{
    let t = to_target(name, written);
    let n = name.len() as int;
    let end = at + t.len();
    let q = s.subrange(at, end as int);
    assert forall|k: int| at <= k < at + n + 4 implies commands::plain(#[trigger] s[k]) || s[k] == ' ' by {
        assert(s[k] == q[k - at]);
        assert(q[k - at] == t[k - at]);
        if k < at + n {
            assert(t[k - at] == name[k - at]);
        }
    }
    commands::lemma_segments_plain(s, at, at + n + 4, start);
    assert(s.subrange(at + n + 4, end as int) =~= written) by {
        assert forall|k: int| 0 <= k < written.len() implies s[at + n + 4 + k] == written[k] by {
            assert(q[n + 4 + k] == t[n + 4 + k]);
        }
    }
    if written == commands::quoted(word) {
        lemma_quoted_at(s, at + n + 4, word);
    } else {
        assert forall|k: int| at + n + 4 <= k < end implies commands::plain(#[trigger] s[k]) || s[k] == ' ' by {
            assert(s[k] == s.subrange(at + n + 4, end as int)[k - at - n - 4]);
            assert(commands::plain(word[k - at - n - 4]));
        }
        commands::lemma_segments_plain(s, at + n + 4, end as int, start);
    }
}

/// One command with a target is read as that command.
proof fn lemma_one_target(name: Seq<char>, written: Seq<char>, word: Seq<char>)
    requires
        name.len() > 0,
        all_plain(name),
        stands_for(written, word),
    ensures
        commands::line_commands(to_target(name, written)) == seq![targeting(name, word)],
{
    let line = to_target(name, written);
    assert(line.subrange(0, line.len() as int) =~= line);
    lemma_target_segment(line, 0, 0, name, written, word);
    lemma_target_words(name, written, word);
    lemma_target_trimmed(name, written, word);
    let parts = commands::segments(line, 0, 0, 0);
    assert(parts =~= seq![line]);
    assert(commands::commands_of(parts, 0) =~= Seq::empty());
    assert(commands::commands_of(parts, 1) =~= seq![targeting(name, word)]);
}

/// Two commands with a semicolon and a blank between them are read as the two.
proof fn lemma_two_targets(
    n1: Seq<char>,
    w1: Seq<char>,
    t1: Seq<char>,
    n2: Seq<char>,
    w2: Seq<char>,
    t2: Seq<char>,
)
    requires
        n1.len() > 0 && n2.len() > 0,
        all_plain(n1) && all_plain(n2),
        stands_for(w1, t1) && stands_for(w2, t2),
    ensures
        commands::line_commands(to_target(n1, w1) + seq![';', ' '] + to_target(n2, w2)) == seq![
            targeting(n1, t1),
            targeting(n2, t2),
        ],
{
    let c1 = to_target(n1, w1);
    let c2 = to_target(n2, w2);
    let line = c1 + seq![';', ' '] + c2;
    let a = c1.len() as int;
    let end = line.len() as int;
    assert(line.subrange(0, a) =~= c1);
    assert(line[a] == ';' && line[a + 1] == ' ');
    assert(line.subrange(a + 2, end) =~= c2);
    assert(line.subrange(a + 1, end) =~= seq![' '] + c2);
    lemma_target_segment(line, 0, 0, n1, w1, t1);
    commands::lemma_segments_plain(line, a + 1, a + 2, a + 1);
    lemma_target_segment(line, a + 2, a + 1, n2, w2, t2);
    let parts = commands::segments(line, 0, 0, 0);
    assert(parts =~= seq![c1, seq![' '] + c2]);
    lemma_target_words(n1, w1, t1);
    lemma_target_trimmed(n1, w1, t1);
    lemma_target_words(n2, w2, t2);
    lemma_target_trimmed(n2, w2, t2);
    assert(commands::commands_of(parts, 0) =~= Seq::empty());
    assert(commands::commands_of(parts, 1) =~= seq![targeting(n1, t1)]);
    assert(commands::commands_of(parts, 2) =~= seq![targeting(n1, t1), targeting(n2, t2)]);
}

/// Three commands with semicolons and blanks between them are read as the three.
proof fn lemma_three_targets(
    n1: Seq<char>,
    w1: Seq<char>,
    t1: Seq<char>,
    n2: Seq<char>,
    w2: Seq<char>,
    t2: Seq<char>,
    n3: Seq<char>,
    w3: Seq<char>,
    t3: Seq<char>,
)
    requires
        n1.len() > 0 && n2.len() > 0 && n3.len() > 0,
        all_plain(n1) && all_plain(n2) && all_plain(n3),
        stands_for(w1, t1) && stands_for(w2, t2) && stands_for(w3, t3),
    ensures
        commands::line_commands(
            to_target(n1, w1) + seq![';', ' '] + to_target(n2, w2) + seq![';', ' '] + to_target(
                n3,
                w3,
            ),
        ) == seq![targeting(n1, t1), targeting(n2, t2), targeting(n3, t3)],
{
    let c1 = to_target(n1, w1);
    let c2 = to_target(n2, w2);
    let c3 = to_target(n3, w3);
    let line = c1 + seq![';', ' '] + c2 + seq![';', ' '] + c3;
    let a = c1.len() as int;
    let b = a + 2 + c2.len();
    let end = line.len() as int;
    assert(line.subrange(0, a) =~= c1);
    assert(line[a] == ';' && line[a + 1] == ' ');
    assert(line.subrange(a + 2, b) =~= c2);
    assert(line.subrange(a + 1, b) =~= seq![' '] + c2);
    assert(line[b] == ';' && line[b + 1] == ' ');
    assert(line.subrange(b + 2, end) =~= c3);
    assert(line.subrange(b + 1, end) =~= seq![' '] + c3);
    lemma_target_segment(line, 0, 0, n1, w1, t1);
    commands::lemma_segments_plain(line, a + 1, a + 2, a + 1);
    lemma_target_segment(line, a + 2, a + 1, n2, w2, t2);
    commands::lemma_segments_plain(line, b + 1, b + 2, b + 1);
    lemma_target_segment(line, b + 2, b + 1, n3, w3, t3);
    let parts = commands::segments(line, 0, 0, 0);
    assert(commands::segments(line, b + 1, 0, b + 1) =~= seq![seq![' '] + c3]);
    assert(commands::segments(line, a + 1, 0, a + 1) =~= seq![seq![' '] + c2, seq![' '] + c3]);
    assert(parts =~= seq![c1, seq![' '] + c2, seq![' '] + c3]);
    lemma_target_words(n1, w1, t1);
    lemma_target_trimmed(n1, w1, t1);
    lemma_target_words(n2, w2, t2);
    lemma_target_trimmed(n2, w2, t2);
    lemma_target_words(n3, w3, t3);
    lemma_target_trimmed(n3, w3, t3);
    assert(commands::commands_of(parts, 0) =~= Seq::empty());
    assert(commands::commands_of(parts, 1) =~= seq![targeting(n1, t1)]);
    assert(commands::commands_of(parts, 2) =~= seq![targeting(n1, t1), targeting(n2, t2)]);
    assert(commands::commands_of(parts, 3) =~= seq![
        targeting(n1, t1),
        targeting(n2, t2),
        targeting(n3, t3),
    ]);
}

proof fn lemma_decimal_plain(n: nat)
    ensures
        stands_for(text::decimal(n), text::decimal(n)),
        stands_for(seq!['%'] + text::decimal(n), seq!['%'] + text::decimal(n)),
{
    key_laws::law_decimal_is_read_back(n);
    let d = text::decimal(n);
    let p = seq!['%'] + d;
    assert forall|k: int| 0 <= k < d.len() implies commands::plain(#[trigger] d[k]) by {
        assert('0' <= d[k] && d[k] <= '9');
    }
    assert forall|k: int| 0 <= k < p.len() implies commands::plain(#[trigger] p[k]) by {
        if k > 0 {
            assert(p[k] == d[k - 1]);
        }
    }
}

/// `name -t "text"`, with the text in quotes, is read as the command of that name with the whole
/// text as its target, whatever the text holds.
pub proof fn law_quoted_target(name: Seq<char>, text: Seq<char>)
    requires
        name.len() > 0,
        forall|k: int| 0 <= k < name.len() ==> commands::plain(#[trigger] name[k]),
        text.len() > 0,
    ensures
        commands::line_commands(name + seq![' ', '-', 't', ' '] + commands::quoted(text)) == seq![
            targeting(name, text),
        ],
{
    lemma_one_target(name, commands::quoted(text), text);
}

/// A session's switch is read as one command: switch to the session.
pub proof fn law_session_switch_is_read(session: Seq<char>)
    requires
        session.len() > 0,
    ensures
        commands::line_commands("switch-client -t "@ + commands::quoted(session)) == seq![
            targeting("switch-client"@, session),
        ],
{
    reveal_strlit("switch-client");
    reveal_strlit("switch-client -t ");
    let name = "switch-client"@;
    lemma_one_target(name, commands::quoted(session), session);
    assert(to_target(name, commands::quoted(session)) =~= "switch-client -t "@ + commands::quoted(session));
}

/// A window's switch is read as two commands: switch to the session, and select the window.
pub proof fn law_window_switch_is_read(session: Seq<char>, index: nat)
    requires
        session.len() > 0,
    ensures
        commands::line_commands(
            "switch-client -t "@ + commands::quoted(session) + "; select-window -t "@ + text::decimal(index),
        ) == seq![
            targeting("switch-client"@, session),
            targeting("select-window"@, text::decimal(index)),
        ],
{
    reveal_strlit("switch-client");
    reveal_strlit("switch-client -t ");
    reveal_strlit("select-window");
    reveal_strlit("; select-window -t ");
    let n1 = "switch-client"@;
    let n2 = "select-window"@;
    lemma_decimal_plain(index);
    lemma_two_targets(n1, commands::quoted(session), session, n2, text::decimal(index), text::decimal(index));
    assert(to_target(n1, commands::quoted(session)) + seq![';', ' '] + to_target(n2, text::decimal(index))
        =~= "switch-client -t "@ + commands::quoted(session) + "; select-window -t "@ + text::decimal(index));
}

/// A pane's switch is read as three commands: switch to the session, select the window, and select
/// the pane.
pub proof fn law_pane_switch_is_read(session: Seq<char>, window: nat, pane: nat)
    requires
        session.len() > 0,
    ensures
        commands::line_commands(
            "switch-client -t "@ + commands::quoted(session) + "; select-window -t "@ + text::decimal(window)
                + "; select-pane -t %"@ + text::decimal(pane),
        ) == seq![
            targeting("switch-client"@, session),
            targeting("select-window"@, text::decimal(window)),
            targeting("select-pane"@, seq!['%'] + text::decimal(pane)),
        ],
{
    reveal_strlit("switch-client");
    reveal_strlit("switch-client -t ");
    reveal_strlit("select-window");
    reveal_strlit("; select-window -t ");
    reveal_strlit("select-pane");
    reveal_strlit("; select-pane -t %");
    let n1 = "switch-client"@;
    let n2 = "select-window"@;
    let n3 = "select-pane"@;
    let shown = seq!['%'] + text::decimal(pane);
    lemma_decimal_plain(window);
    lemma_decimal_plain(pane);
    lemma_three_targets(
        n1,
        commands::quoted(session),
        session,
        n2,
        text::decimal(window),
        text::decimal(window),
        n3,
        shown,
        shown,
    );
    assert(to_target(n1, commands::quoted(session)) + seq![';', ' '] + to_target(n2, text::decimal(window)) + seq![
        ';',
        ' ',
    ] + to_target(n3, shown) =~= "switch-client -t "@ + commands::quoted(session) + "; select-window -t "@
        + text::decimal(window) + "; select-pane -t %"@ + text::decimal(pane));
}

/// A pane's selection is read as one command with the pane as its target.
pub proof fn law_pane_selection_is_read(pane: nat)
    ensures
        commands::line_commands("select-pane -t %"@ + text::decimal(pane)) == seq![
            targeting("select-pane"@, seq!['%'] + text::decimal(pane)),
        ],
{
    reveal_strlit("select-pane");
    reveal_strlit("select-pane -t %");
    let name = "select-pane"@;
    let shown = seq!['%'] + text::decimal(pane);
    lemma_decimal_plain(pane);
    lemma_one_target(name, shown, shown);
    assert(to_target(name, shown) =~= "select-pane -t %"@ + text::decimal(pane));
}

/// A window's selection is read as one command with the window as its target.
pub proof fn law_window_selection_is_read(index: nat)
    ensures
        commands::line_commands("select-window -t "@ + text::decimal(index)) == seq![
            targeting("select-window"@, text::decimal(index)),
        ],
{
    reveal_strlit("select-window");
    reveal_strlit("select-window -t ");
    let name = "select-window"@;
    lemma_decimal_plain(index);
    lemma_one_target(name, text::decimal(index), text::decimal(index));
    assert(to_target(name, text::decimal(index)) =~= "select-window -t "@ + text::decimal(index));
}

/// The letters of the flags that take a value.
pub open spec fn value_letters() -> Seq<char> {
    seq!['t', 's', 'n', 'c', 'F', 'f', 'l', 'w', 'h', 'e', 'p', 'T', 'C', 'L', 'I', 'm']
}

proof fn lemma_value_letters(c: char)
    ensures
        commands::takes_value(c) <==> value_letters().contains(c),
{
    let v = value_letters();
    if commands::takes_value(c) {
        assert(v[0] == 't' && v[1] == 's' && v[2] == 'n' && v[3] == 'c' && v[4] == 'F' && v[5] == 'f'
            && v[6] == 'l' && v[7] == 'w' && v[8] == 'h' && v[9] == 'e' && v[10] == 'p' && v[11]
            == 'T' && v[12] == 'C' && v[13] == 'L' && v[14] == 'I' && v[15] == 'm');
    }
}

proof fn lemma_three_words(name: Seq<char>, c: char, word: Seq<char>)
    requires
        name.len() > 0,
        all_plain(name),
        commands::plain(c),
        word.len() > 0,
        all_plain(word),
    ensures
        ({
            let line = name + seq![' ', '-', c, ' '] + word;
            &&& commands::words(line, 0, Seq::empty()) == seq![name, seq!['-', c], word]
            &&& commands::segments(line, 0, 0, 0) == seq![line]
            &&& text::trimmed(line) == line
        }),
{
    let line = name + seq![' ', '-', c, ' '] + word;
    let n = name.len() as int;
    let end = line.len() as int;
    let none = Seq::<char>::empty();
    let dash = seq!['-', c];
    assert(forall|k: int| 0 <= k < n ==> line[k] == name[k]);
    assert(line[n] == ' ' && line[n + 1] == '-' && line[n + 2] == c && line[n + 3] == ' ');
    assert(forall|k: int| 0 <= k < word.len() ==> line[n + 4 + k] == word[k]);
    assert forall|k: int| n + 4 <= k < end implies commands::plain(#[trigger] line[k]) by {
        assert(line[k] == word[k - n - 4]);
    }
    assert(commands::plain(name[0]));
    assert(commands::plain(line[end - 1]));
    commands::lemma_words_plain(line, 0, n, none);
    assert(none + line.subrange(0, n) =~= name);
    commands::lemma_words_plain(line, n + 1, n + 3, none);
    assert(none + line.subrange(n + 1, n + 3) =~= dash);
    commands::lemma_words_plain(line, n + 4, end, none);
    assert(none + line.subrange(n + 4, end) =~= word);
    assert(commands::words(line, n + 4, none) == seq![word]);
    assert(commands::words(line, n + 3, dash) == seq![dash] + seq![word]);
    assert(commands::words(line, n + 1, none) == seq![dash] + seq![word]);
    assert(commands::words(line, 0, none) =~= seq![name, dash, word]);
    commands::lemma_segments_plain(line, 0, end, 0);
    assert(line.subrange(0, end) =~= line);
    assert(commands::segments(line, 0, 0, 0) =~= seq![line]);
    assert(text::trimmed_start(line) == line);
}

/// A dash and a letter before a word: where the letter is one of those that take a value the word
/// is its value, and else the flag has none and the word is an argument.
pub proof fn law_flags_and_values(name: Seq<char>, c: char, word: Seq<char>)
    requires
        name.len() > 0,
        forall|k: int| 0 <= k < name.len() ==> commands::plain(#[trigger] name[k]),
        commands::plain(c),
        c != '-',
        word.len() > 0,
        forall|k: int| 0 <= k < word.len() ==> commands::plain(#[trigger] word[k]),
        word[0] != '-',
    ensures
        commands::line_commands(name + seq![' ', '-', c, ' '] + word) == (if value_letters().contains(c) {
            seq![
                CommandV {
                    name,
                    args: Seq::empty(),
                    flags: map![seq![c] => Some(word)],
                },
            ]
        } else {
            seq![
                CommandV {
                    name,
                    args: seq![word],
                    flags: map![seq![c] => None],
                },
            ]
        }),
{
    lemma_value_letters(c);
    lemma_three_words(name, c, word);
    let line = name + seq![' ', '-', c, ' '] + word;
    let dash = seq!['-', c];
    let ws = seq![name, dash, word];
    let no_args = Seq::<Seq<char>>::empty();
    let no_flags = Map::<Seq<char>, Option<Seq<char>>>::empty();
    assert(dash[1] != '-');
    assert(ws[1] != seq!['-', '-']) by {
        assert(seq!['-', '-'][1] == '-');
    }
    assert(ws[2] != seq!['-', '-']) by {
        assert(seq!['-', '-'][0] == '-');
    }
    let parts = commands::segments(line, 0, 0, 0);
    assert(commands::commands_of(parts, 0) =~= Seq::empty());
    if commands::takes_value(c) {
        let flags = no_flags.insert(seq![c], Some(word));
        assert(commands::letters(dash, 1, Some(word), no_flags) == (flags, true));
        assert(commands::read_words(ws, 3, no_args, flags) == (no_args, flags));
        assert(commands::read_words(ws, 1, no_args, no_flags) == (no_args, flags));
        assert(flags =~= map![seq![c] => Some(word)]);
        let cmd = CommandV { name, args: no_args, flags };
        assert(commands::command_of(line) == Some(cmd));
        assert(commands::commands_of(parts, 1) =~= seq![cmd]);
    } else {
        let flags = no_flags.insert(seq![c], None);
        assert(commands::letters(dash, 2, Some(word), flags) == (flags, false));
        assert(commands::letters(dash, 1, Some(word), no_flags) == (flags, false));
        assert(commands::read_words(ws, 3, no_args.push(word), flags) == (no_args.push(word), flags));
        assert(commands::read_words(ws, 2, no_args, flags) == (no_args.push(word), flags));
        assert(commands::read_words(ws, 1, no_args, no_flags) == (no_args.push(word), flags));
        assert(flags =~= map![seq![c] => None]);
        assert(no_args.push(word) =~= seq![word]);
        let cmd = CommandV { name, args: no_args.push(word), flags };
        assert(commands::command_of(line) == Some(cmd));
        assert(commands::commands_of(parts, 1) =~= seq![cmd]);
    }
}

/// A semicolon separates commands: the commands of two lines with a semicolon between them are
/// those of the first and then those of the second.
pub proof fn law_semicolons_separate(a: Seq<char>, b: Seq<char>)
    requires
        forall|k: int| 0 <= k < a.len() ==> commands::plain(#[trigger] a[k]) || a[k] == ' ',
        forall|k: int| 0 <= k < b.len() ==> commands::plain(#[trigger] b[k]) || b[k] == ' ',
    ensures
        commands::line_commands(a + seq![';'] + b) == commands::line_commands(a) + commands::line_commands(b),
{
    let line = a + seq![';'] + b;
    let n = a.len() as int;
    let end = line.len() as int;
    assert(forall|k: int| 0 <= k < n ==> line[k] == a[k]);
    assert(line[n] == ';');
    assert forall|k: int| n + 1 <= k < end implies commands::plain(#[trigger] line[k]) || line[k] == ' ' by {
        assert(line[k] == b[k - n - 1]);
    }
    commands::lemma_segments_plain(line, 0, n, 0);
    commands::lemma_segments_plain(line, n + 1, end, n + 1);
    commands::lemma_segments_plain(a, 0, n, 0);
    commands::lemma_segments_plain(b, 0, b.len() as int, 0);
    assert(line.subrange(0, n) =~= a);
    assert(line.subrange(n + 1, end) =~= b);
    assert(a.subrange(0, n) =~= a);
    assert(b.subrange(0, b.len() as int) =~= b);
    let parts = commands::segments(line, 0, 0, 0);
    assert(parts =~= seq![a, b]);
    assert(commands::segments(a, 0, 0, 0) =~= seq![a]);
    assert(commands::segments(b, 0, 0, 0) =~= seq![b]);
    assert(commands::commands_of(parts, 0) =~= Seq::empty());
    assert(commands::commands_of(seq![a], 0) =~= Seq::empty());
    assert(commands::commands_of(seq![b], 0) =~= Seq::empty());
    assert(commands::commands_of(parts, 1) =~= commands::commands_of(seq![a], 1));
    assert(commands::commands_of(parts, 2) =~= commands::commands_of(seq![a], 1) + commands::commands_of(seq![b], 1));
}

proof fn lemma_single_read_back(s: Seq<char>, start: int, text: Seq<char>, k: int)
    requires
        0 <= start,
        0 <= k <= text.len(),
        start + text.len() < s.len(),
        s[start + text.len()] == '\'',
        forall|i: int| 0 <= i < text.len() ==> s[start + i] == #[trigger] text[i],
        forall|i: int| 0 <= i < text.len() ==> #[trigger] text[i] != '\'',
    ensures
        commands::single_text(s, start + k) == text.skip(k),
        commands::single_after(s, start + k) == start + text.len() + 1,
    decreases text.len() - k,
{
    if k < text.len() {
        assert(s[start + k] == text[k]);
        lemma_single_read_back(s, start, text, k + 1);
        assert(text.skip(k) =~= seq![text[k]] + text.skip(k + 1));
    } else {
        assert(text.skip(k) =~= Seq::empty());
    }
}

/// A text in single quotes is one argument as it stands, backslashes and double quotes included.
pub proof fn law_single_quotes(name: Seq<char>, text: Seq<char>)
    requires
        name.len() > 0,
        forall|k: int| 0 <= k < name.len() ==> commands::plain(#[trigger] name[k]),
        text.len() > 0,
        text[0] != '-',
        forall|i: int| 0 <= i < text.len() ==> #[trigger] text[i] != '\'',
    ensures
        commands::line_commands(name + seq![' ', '\''] + text + seq!['\'']) == seq![
            CommandV { name, args: seq![text], flags: Map::empty() },
        ],
{
    let line = name + seq![' ', '\''] + text + seq!['\''];
    let n = name.len() as int;
    let end = line.len() as int;
    let none = Seq::<char>::empty();
    assert(forall|k: int| 0 <= k < n ==> line[k] == name[k]);
    assert(line[n] == ' ' && line[n + 1] == '\'');
    lemma_single_read_back(line, n + 2, text, 0);
    assert(text.skip(0) =~= text);
    commands::lemma_segments_plain(line, 0, n + 1, 0);
    assert(line.subrange(0, end) =~= line);
    assert(commands::single_after(line, n + 2 + 0) == end);
    assert(commands::segments(line, n + 1, 0, 0) == commands::segments(line, end, 0, 0));
    let parts = commands::segments(line, 0, 0, 0);
    assert(parts =~= seq![line]);
    assert(commands::plain(name[0]));
    assert(text::trimmed_start(line) == line);
    assert(line.last() == '\'');
    assert(text::trimmed(line) == line);
    commands::lemma_words_plain(line, 0, n, none);
    assert(none + line.subrange(0, n) =~= name);
    assert(none + text =~= text);
    assert(commands::words(line, n + 1, none) == commands::words(line, end, text));
    let ws = commands::words(line, 0, none);
    assert(ws =~= seq![name, text]);
    let no_args = Seq::<Seq<char>>::empty();
    let no_flags = Map::<Seq<char>, Option<Seq<char>>>::empty();
    assert(ws[1] != seq!['-', '-']) by {
        assert(seq!['-', '-'][0] == '-');
    }
    assert(commands::read_words(ws, 2, no_args.push(text), no_flags) == (no_args.push(text), no_flags));
    assert(commands::read_words(ws, 1, no_args, no_flags) == (no_args.push(text), no_flags));
    assert(no_args.push(text) =~= seq![text]);
    let cmd = CommandV { name, args: seq![text], flags: Map::empty() };
    assert(commands::command_of(line) == Some(cmd));
    assert(commands::commands_of(parts, 0) =~= Seq::empty());
    assert(commands::commands_of(parts, 1) =~= seq![cmd]);
}

} // verus!
