//! What keys do.

use crate::client::commands_run;
use crate::client::mode;
use crate::client::places;
use crate::client::remotes;
use crate::client::state;
use crate::client::tree;
use crate::commands;
use crate::frame;
use crate::help;
use crate::keys;
use crate::navigation;
use crate::prompt;
use crate::text;
use crate::client::actions::{CopyKey, EffectV, OutputUse, RequestV};
use crate::client::commands_run::ClientCommandResultV;
use crate::client::mode::ModeV;
use crate::client::state::{ClientV, EnvV, NOTICE, NavV, RESIZE_IDLE_TIMEOUT, UiV};
use crate::client::tree::ClosingV;
use crate::copy_mode::model::SelectionMode;
use crate::frame::{FrameData, WindowTabJson};
use crate::geometry::Rect;
use crate::keys::{KeyCode, KeyEvent, KeyModifiers, NavDir};
use crate::navigation::{EntryV, NavigationNodeKind, NodeV};
use crate::prompt::PromptV;
use vstd::prelude::*;

verus! {

/// Whether a key is the prefix key: control and `a`, and nothing else held.
pub open spec fn prefix_key(key: KeyEvent) -> bool {
    key.code == KeyCode::Char('a') && key.modifiers == (KeyModifiers {
        control: true,
        ..keys::no_modifiers()
    })
}

pub fn is_prefix_key(key: KeyEvent) -> (r: bool)
    ensures
        r == prefix_key(key),
{
    let m = key.modifiers;
    let held: bool = m.control && !m.shift && !m.alt && !m.super_key && !m.hyper && !m.meta;
    match key.code {
        KeyCode::Char(c) => c == 'a' && held,
        _ => false,
    }
}

pub open spec fn plain_char(key: KeyEvent, c: char) -> bool {
    key.code == KeyCode::Char(c) && key.modifiers == keys::no_modifiers()
}

pub fn is_plain(m: KeyModifiers) -> (r: bool)
    ensures
        r == (m == keys::no_modifiers()),
{
    !m.shift && !m.control && !m.alt && !m.super_key && !m.hyper && !m.meta
}

/// The command of a key behind the prefix, for the keys that only send one.
pub open spec fn prefix_command(key: KeyEvent) -> Option<Seq<char>> {
    let plain = key.modifiers == keys::no_modifiers();
    match key.code {
        KeyCode::Char('%') => Some("split-window -h"@),
        KeyCode::Char('"') => Some("split-window -v"@),
        KeyCode::Char('c') => if plain {
            Some("new-window"@)
        } else {
            None
        },
        KeyCode::Char('n') => if plain {
            Some("select-window -n"@)
        } else {
            None
        },
        KeyCode::Char('p') => if plain {
            Some("select-window -p"@)
        } else {
            None
        },
        KeyCode::Char('x') => if plain {
            Some("kill-pane"@)
        } else {
            None
        },
        KeyCode::Char('z') => if plain {
            Some("zoom-pane"@)
        } else {
            None
        },
        KeyCode::Char('h') => if plain {
            Some("select-pane -L"@)
        } else {
            None
        },
        KeyCode::Char('j') => if plain {
            Some("select-pane -D"@)
        } else {
            None
        },
        KeyCode::Char('k') => if keys::shifted_letter(key, 'K') {
            Some("clear-pane"@)
        } else if plain {
            Some("select-pane -U"@)
        } else {
            None
        },
        KeyCode::Char('K') => if keys::shifted_letter(key, 'K') {
            Some("clear-pane"@)
        } else {
            None
        },
        KeyCode::Char('l') => if plain {
            Some("select-pane -R"@)
        } else {
            None
        },
        KeyCode::Up => Some("select-pane -U"@),
        KeyCode::Down => Some("select-pane -D"@),
        KeyCode::Left => Some("select-pane -L"@),
        KeyCode::Right => Some("select-pane -R"@),
        _ => None,
    }
}

/// The command of a key behind the prefix.
pub fn handle_prefix_key(key: KeyEvent) -> (r: Option<&'static str>)
    ensures
        (match r {
            Some(s) => Some(s@),
            None => None,
        }) == prefix_command(key),
{
    let plain: bool = is_plain(key.modifiers);
    match key.code {
        KeyCode::Char(c) => {
            if c == '%' {
                Some("split-window -h")
            } else if c == '"' {
                Some("split-window -v")
            } else if keys::is_shifted_letter(key, 'K') {
                Some("clear-pane")
            } else if !plain {
                None
            } else if c == 'c' {
                Some("new-window")
            } else if c == 'n' {
                Some("select-window -n")
            } else if c == 'p' {
                Some("select-window -p")
            } else if c == 'x' {
                Some("kill-pane")
            } else if c == 'z' {
                Some("zoom-pane")
            } else if c == 'h' {
                Some("select-pane -L")
            } else if c == 'j' {
                Some("select-pane -D")
            } else if c == 'k' {
                Some("select-pane -U")
            } else if c == 'l' {
                Some("select-pane -R")
            } else {
                None
            }
        },
        KeyCode::Up => Some("select-pane -U"),
        KeyCode::Down => Some("select-pane -D"),
        KeyCode::Left => Some("select-pane -L"),
        KeyCode::Right => Some("select-pane -R"),
        _ => None,
    }
}

/// The name of the active window in a frame.
pub open spec fn window_name_in(fd: Option<FrameData>) -> Seq<char> {
    match fd {
        Some(f) => match f.status {
            Some(s) => active_name(s.windows@, 0),
            None => Seq::empty(),
        },
        None => Seq::empty(),
    }
}

/// The name of the first active window from `i` on.
pub open spec fn active_name(windows: Seq<WindowTabJson>, i: int) -> Seq<char>
    decreases windows.len() - i,
{
    if i < 0 || i >= windows.len() {
        Seq::empty()
    } else if windows[i].active {
        windows[i].name@
    } else {
        active_name(windows, i + 1)
    }
}

/// The name of the active window in a frame.
pub fn active_window_name(frame: Option<&FrameData>) -> (r: String)
    ensures
        r@ == window_name_in(
            match frame {
                Some(f) => Some(*f),
                None => None,
            },
        ),
{
    if let Some(fd) = frame {
        if let Some(status) = &fd.status {
            let mut i: usize = 0;
            while i < status.windows.len()
                invariant
                    i <= status.windows@.len(),
                    frame == Some(fd),
                    fd.status == Some(*status),
                    active_name(status.windows@, i as int) == active_name(status.windows@, 0),
                decreases status.windows@.len() - i,
            {
                if status.windows[i].active {
                    return status.windows[i].name.clone();
                }
                i = i + 1;
            }
        }
    }
    String::new()
}

/// A text without a character in front of it, however often it stands there.
pub open spec fn without_front(s: Seq<char>, c: char) -> Seq<char>
    decreases s.len(),
{
    if s.len() > 0 && s[0] == c {
        without_front(s.drop_first(), c)
    } else {
        s
    }
}

/// A text without a character at its end, however often it stands there.
pub open spec fn without_back(s: Seq<char>, c: char) -> Seq<char>
    decreases s.len(),
{
    if s.len() > 0 && s.last() == c {
        without_back(s.drop_last(), c)
    } else {
        s
    }
}

/// The session's name in a frame: what stands at the left of the status bar, without brackets.
pub open spec fn session_name_in(fd: Option<FrameData>) -> Seq<char> {
    match fd {
        Some(f) => match f.status {
            Some(s) => without_back(without_front(s.left@, '['), ']'),
            None => Seq::empty(),
        },
        None => Seq::empty(),
    }
}

/// The session's name in a frame.
pub fn session_name(frame: Option<&FrameData>) -> (r: String)
    ensures
        r@ == session_name_in(
            match frame {
                Some(f) => Some(*f),
                None => None,
            },
        ),
{
    if let Some(fd) = frame {
        if let Some(status) = &fd.status {
            let chars = text::chars_of(status.left.as_str());
            let ghost s = status.left@;
            let mut from: usize = 0;
            proof {
                assert(s.skip(0) =~= s);
            }
            while from < chars.len() && chars[from] == '['
                invariant
                    chars@ == s,
                    from <= s.len(),
                    without_front(s.skip(from as int), '[') == without_front(s, '['),
                decreases s.len() - from,
            {
                proof {
                    assert(s.skip(from as int).drop_first() =~= s.skip(from + 1));
                }
                from = from + 1;
            }
            let ghost t = s.skip(from as int);
            proof {
                assert(without_front(t, '[') == t);
            }
            let mut end: usize = chars.len();
            proof {
                assert(t.take(end - from) =~= t);
            }
            while end > from && chars[end - 1] == ']'
                invariant
                    chars@ == s,
                    t == s.skip(from as int),
                    from <= end <= s.len(),
                    without_back(t.take(end - from), ']') == without_back(t, ']'),
                decreases end,
            {
                proof {
                    assert(t.take(end - from).drop_last() =~= t.take(end - from - 1));
                    assert(t.take(end - from).last() == s[end - 1]);
                }
                end = end - 1;
            }
            proof {
                if end > from {
                    assert(t.take(end - from).last() == s[end - 1]);
                }
                assert(text::cut(s, from as int, end as int) =~= t.take(end - from));
            }
            return text::slice_of(chars.as_slice(), from, end);
        }
    }
    String::new()
}

/// Keys go to the program in the pane.
pub open spec fn keys_sent(c: ClientV, key: KeyEvent) -> ClientV {
    let bytes = vstd::utf8::encode_utf8(keys::key_text(key));
    if bytes.len() > 0 {
        state::asked(c, RequestV::Input(bytes))
    } else {
        c
    }
}

/// Copy mode left.
pub open spec fn copy_left(c: ClientV) -> ClientV {
    let c = state::asked(c, RequestV::ExitCopyMode);
    ClientV {
        ui: UiV {
            mode: ModeV::Normal,
            copy_confirmed: false,
            copy_exit_pending: true,
            scrolled: false,
            ..c.ui
        },
        ..c
    }
}

pub open spec fn frame_copying(env: EnvV) -> bool {
    match env.frame {
        Some(f) => frame::copying_in(f.layout),
        None => false,
    }
}

/// A key for the panes.
#[verifier::opaque]
pub open spec fn normal_key(c: ClientV, key: KeyEvent, press: bool, env: EnvV) -> ClientV {
    if prefix_key(key) {
        state::in_mode(c, ModeV::Prefix)
    } else if press && keys::cloud_paste(key) {
        state::asked(c, RequestV::PasteCloud)
    } else if (key.code == KeyCode::Esc || plain_char(key, 'q')) && c.ui.scrolled {
        let c = state::asked(c, RequestV::DisplayBottom);
        state::with_ui(c, UiV { scrolled: false, ..c.ui })
    } else {
        keys_sent(
            if frame_copying(env) && c.ui.copy_exit_pending {
                copy_left(c)
            } else {
                c
            },
            key,
        )
    }
}

/// Whether a key behind the prefix makes the pane kept in mind stale.
pub open spec fn loses_focus(key: KeyEvent) -> bool {
    let plain = key.modifiers == keys::no_modifiers();
    match key.code {
        KeyCode::Char('%') | KeyCode::Char('"') | KeyCode::Char('z') => true,
        KeyCode::Char('c') | KeyCode::Char('n') | KeyCode::Char('p') => plain,
        _ => false,
    }
}

/// Whether a key behind the prefix makes the tree stale.
pub open spec fn loses_tree(key: KeyEvent) -> bool {
    let plain = key.modifiers == keys::no_modifiers();
    match key.code {
        KeyCode::Char('%') | KeyCode::Char('"') => true,
        KeyCode::Char('c') | KeyCode::Char('n') | KeyCode::Char('p') => plain,
        _ => false,
    }
}

/// A key behind the prefix that moves to a neighbour, closes a pane or sends a command.
pub open spec fn prefix_other(c: ClientV, key: KeyEvent, env: EnvV) -> ClientV {
    match keys::nav_dir(key) {
        Some(dir) => match places::pane_moved(c, dir, env) {
            Some(moved) => moved,
            None => if dir == NavDir::Left {
                state::sidebar_set(state::in_mode(places::nav_synced(c, env), ModeV::Navigator), true, env)
            } else {
                c
            },
        },
        None => if plain_char(key, 'x') {
            state::unfocused(state::tree_stale(state::asked(c, RequestV::Command("kill-pane"@)), env.now))
        } else {
            let sent = match prefix_command(key) {
                Some(command) => state::asked(c, commands_run::command_request(command)),
                None => c,
            };
            let seen = if loses_focus(key) {
                state::unfocused(sent)
            } else {
                sent
            };
            if loses_tree(key) {
                state::tree_stale(seen, env.now)
            } else {
                seen
            }
        },
    }
}

/// Resizing begins, or goes on.
pub open spec fn resizing(c: ClientV, env: EnvV) -> ClientV {
    state::with_ui(
        c,
        UiV {
            mode: ModeV::Resize,
            resize_deadline: Some(state::after_ms(env.now, RESIZE_IDLE_TIMEOUT as int)),
            ..c.ui
        },
    )
}

/// The session before or behind the current one gone to.
pub open spec fn session_switched(c: ClientV, command: Seq<char>, env: EnvV) -> ClientV {
    state::tree_stale(state::unfocused(state::asked(c, RequestV::Command(command))), env.now)
}

/// The keys behind the prefix once its special cases are dealt with.
#[verifier::opaque]
pub open spec fn prefix_action(c: ClientV, key: KeyEvent, env: EnvV) -> ClientV {
    let plain = key.modifiers == keys::no_modifiers();
    if keys::shifted_letter(key, 'H') {
        state::touched(
            state::asked(
                c,
                RequestV::Output {
                    command: "set-workspace-home"@,
                    purpose: OutputUse::WorkspaceHome,
                },
            ),
        )
    } else {
        match key.code {
            KeyCode::Char('d') => if plain {
                state::acting(state::asked_all(c, RequestV::Detach, c.ws.list.len() as int), EffectV::Quit)
            } else {
                prefix_other(c, key, env)
            },
            KeyCode::Char(',') => state::in_mode(
                c,
                ModeV::RenameWindow { prompt: byte_prompt(window_name_in(env.frame)), back: false },
            ),
            KeyCode::Char('$') => state::in_mode(
                c,
                ModeV::RenameSession {
                    prompt: byte_prompt(session_name_in(env.frame)),
                    back: false,
                },
            ),
            KeyCode::Char(':') => state::in_mode(c, ModeV::Command { prompt: empty_prompt() }),
            KeyCode::Char('O') => state::asked(c, RequestV::AskEraseScroll),
            KeyCode::Char('[') => state::asked(c, RequestV::EnterCopyMode),
            KeyCode::Char('(') => session_switched(c, "prev-session"@, env),
            KeyCode::Char(')') => session_switched(c, "next-session"@, env),
            KeyCode::Char('b') => if plain {
                let d = state::with_ui(c, UiV { hide_borders: !c.ui.hide_borders, ..c.ui });
                state::asked(d, RequestV::HideBorders(!c.ui.hide_borders))
            } else {
                prefix_other(c, key, env)
            },
            KeyCode::Char(']') => if plain {
                state::asked(c, RequestV::PasteCloud)
            } else {
                prefix_other(c, key, env)
            },
            _ => prefix_other(c, key, env),
        }
    }
}

pub open spec fn empty_prompt() -> PromptV {
    PromptV { buf: Seq::empty(), cursor: 0 }
}

/// A prompt with a text in it, the cursor behind as many characters as it has bytes.
pub open spec fn byte_prompt(text: Seq<char>) -> PromptV {
    PromptV { buf: text, cursor: text::clip(vstd::utf8::encode_utf8(text).len()) }
}

/// A key behind the prefix, once it is known that it is not for the tree.
pub open spec fn prefix_rest(c: ClientV, key: KeyEvent, env: EnvV) -> ClientV {
    if keys::resize_modifier(key) {
        resizing(c, env)
    } else if keys::resize_dir(key) is Some {
        resizing(
            state::touched(
                state::asked(
                    c,
                    RequestV::Command(keys::resize_command(keys::resize_dir(key)->0)),
                ),
            ),
            env,
        )
    } else {
        state::touched(prefix_action(c, key, env))
    }
}

/// A key behind the prefix.
#[verifier::opaque]
pub open spec fn prefix_mode_key(c: ClientV, key: KeyEvent, env: EnvV) -> ClientV {
    let was_nav = c.ui.prefix_from_navigator;
    let was_copy = c.ui.prefix_from_copy;
    let a = state::with_ui(
        c,
        UiV { mode: ModeV::Normal, prefix_from_navigator: false, ..c.ui },
    );
    let b = state::with_ui(a, UiV { prefix_from_copy: false, ..a.ui });
    if was_nav && (key.code == KeyCode::Char('t') || key.code == KeyCode::Char('T') || key.code
        == KeyCode::Char('S')) {
        state::in_mode(a, ModeV::Navigator)
    } else if was_nav && keys::nav_dir(key) is Some {
        state::in_mode(a, mode::navigator_after(keys::nav_dir(key)->0))
    } else if prefix_key(key) {
        keys_sent(b, key)
    } else {
        prefix_rest(
            if was_copy {
                state::with_ui(
                    b,
                    UiV { copy_confirmed: false, copy_suppress: Some(env.counter), ..b.ui },
                )
            } else {
                b
            },
            key,
            env,
        )
    }
}

/// The selected line of the tree, if there is one.
pub open spec fn selected_entry(c: ClientV) -> Option<EntryV> {
    if c.nav.selected < c.entries.len() {
        Some(c.entries[c.nav.selected as int])
    } else {
        None
    }
}

pub open spec fn with_nav(c: ClientV, nav: NavV) -> ClientV {
    ClientV { nav, ..c }
}

pub open spec fn nav_prev(nav: NavV, entries: Seq<EntryV>) -> NavV {
    let at = text::max_int(nav.selected - 1, 0) as usize;
    NavV { selected: at, id: navigation::id_at(entries, at as int), ..nav }
}

pub open spec fn nav_next(nav: NavV, entries: Seq<EntryV>) -> NavV {
    if entries.len() == 0 {
        nav
    } else {
        let at = text::min_int(nav.selected + 1, entries.len() - 1) as usize;
        NavV { selected: at, id: navigation::id_at(entries, at as int), ..nav }
    }
}

pub open spec fn nav_first(nav: NavV, entries: Seq<EntryV>) -> NavV {
    NavV { selected: 0, id: navigation::id_at(entries, 0), ..nav }
}

pub open spec fn nav_last(nav: NavV, entries: Seq<EntryV>) -> NavV {
    let at = text::max_int(entries.len() - 1, 0) as usize;
    NavV { selected: at, id: navigation::id_at(entries, at as int), ..nav }
}

pub open spec fn nav_in(nav: NavV, entries: Seq<EntryV>) -> NavV {
    let at = nav.selected as int;
    if at >= entries.len() {
        nav
    } else if entries[at].expandable && !entries[at].expanded {
        NavV { folded: nav.folded.remove(entries[at].id), ..nav }
    } else if at + 1 < entries.len() && entries[at + 1].depth > entries[at].depth {
        NavV { selected: (at + 1) as usize, id: Some(entries[at + 1].id), ..nav }
    } else {
        nav
    }
}

pub open spec fn nav_out(nav: NavV, entries: Seq<EntryV>) -> NavV {
    let at = nav.selected as int;
    if at >= entries.len() {
        nav
    } else if entries[at].expandable && entries[at].expanded {
        NavV { folded: nav.folded.insert(entries[at].id), ..nav }
    } else {
        match navigation::parent_line(entries, entries[at].depth as int, at) {
            Some(p) => NavV { selected: p as usize, id: Some(entries[p].id), ..nav },
            None => nav,
        }
    }
}

/// A rename of the selected node begins.
pub open spec fn rename_begun(c: ClientV, e: EntryV, env: EnvV) -> ClientV {
    if e.kind == NavigationNodeKind::Machine || e.kind == NavigationNodeKind::Workspace {
        state::in_mode(
            c,
            ModeV::RenameIdentity {
                id: e.id,
                prompt: PromptV { buf: e.label, cursor: text::clip(e.label.len()) },
            },
        )
    } else {
        match places::activated(c, e.id, env) {
            None => state::told(c, "navigation target is unavailable"@, env.now, 3000),
            Some(there) => {
                let start = tree::rename_start(e);
                let prompt = PromptV { buf: start, cursor: text::clip(start.len()) };
                state::asked(
                    state::in_mode(
                        there,
                        match e.kind {
                            NavigationNodeKind::Session => ModeV::RenameSession {
                                prompt,
                                back: true,
                            },
                            NavigationNodeKind::Window => ModeV::RenameWindow {
                                prompt,
                                back: true,
                            },
                            _ => ModeV::RenamePane { prompt, back: true },
                        },
                    ),
                    RequestV::RefreshDisplay,
                )
            },
        }
    }
}

/// The machine that a line stands for, if it is a remote one.
pub open spec fn remote_machine(e: EntryV) -> Option<Seq<char>> {
    match e.id {
        NodeV::Machine(id) => if id != "local"@ {
            Some(id)
        } else {
            None
        },
        _ => None,
    }
}

/// The tree left for where input was before.
pub open spec fn tree_left(c: ClientV, env: EnvV) -> ClientV {
    if c.ui.popup {
        state::with_ui(c, UiV { popup: false, mode: c.ui.popup_return, ..c.ui })
    } else {
        state::in_mode(state::sidebar_set(c, false, env), ModeV::Normal)
    }
}

/// The selected line opened, or unfolded where it can be and `into` asks for it.
pub open spec fn selected_opened(c: ClientV, into: bool, env: EnvV) -> ClientV {
    match selected_entry(c) {
        Some(e) => if into && e.expandable {
            with_nav(c, nav_in(c.nav, c.entries))
        } else {
            tree::opened(c, e, env)
        },
        None => c,
    }
}

/// The selected remote machine probed, or else the screen drawn anew.
pub open spec fn machine_refreshed(c: ClientV) -> ClientV {
    match selected_entry(c) {
        Some(e) => match remote_machine(e) {
            Some(id) => tree::with_probe(c, id, false),
            None => state::asked(c, RequestV::RefreshDisplay),
        },
        None => state::asked(c, RequestV::RefreshDisplay),
    }
}

/// The question whether the selected node is to be closed, or why it cannot be.
pub open spec fn close_begun(c: ClientV, env: EnvV) -> ClientV {
    match selected_entry(c) {
        Some(e) => match tree::close_block(c.entries, e.id) {
            Some(reason) => state::told(c, reason, env.now, 4000),
            None => state::in_mode(c, ModeV::ConfirmNavigationClose { entry: e }),
        },
        None => c,
    }
}

/// A key in the navigation tree, other than the prefix key.
#[verifier::opaque]
pub open spec fn tree_key(c: ClientV, key: KeyEvent, env: EnvV) -> ClientV {
    match key.code {
        KeyCode::Esc | KeyCode::Char('q') => tree_left(c, env),
        KeyCode::Up | KeyCode::Char('k') => with_nav(c, nav_prev(c.nav, c.entries)),
        KeyCode::Down | KeyCode::Char('j') => with_nav(c, nav_next(c.nav, c.entries)),
        KeyCode::Home | KeyCode::Char('g') => with_nav(c, nav_first(c.nav, c.entries)),
        KeyCode::End | KeyCode::Char('G') => with_nav(c, nav_last(c.nav, c.entries)),
        _ => if keys::shifted_letter(key, 'H') {
            state::in_mode(c, ModeV::NavigationHelp { scroll: 0 })
        } else {
            match key.code {
                KeyCode::Left | KeyCode::Char('h') => with_nav(c, nav_out(c.nav, c.entries)),
                KeyCode::Right | KeyCode::Char('l') => selected_opened(c, true, env),
                KeyCode::Char('R') => machine_refreshed(c),
                KeyCode::Char('r') => match selected_entry(c) {
                    Some(e) => rename_begun(c, e, env),
                    None => c,
                },
                KeyCode::Char('K') | KeyCode::Char('d') | KeyCode::Delete => close_begun(c, env),
                KeyCode::Enter => selected_opened(c, false, env),
                _ => c,
            }
        },
    }
}

#[verifier::opaque]
pub open spec fn navigator_key(c: ClientV, key: KeyEvent, env: EnvV) -> ClientV {
    if prefix_key(key) {
        state::with_ui(c, UiV { prefix_from_navigator: true, mode: ModeV::Prefix, ..c.ui })
    } else {
        state::touched(tree_key(c, key, env))
    }
}

/// A key while panes are resized.
#[verifier::opaque]
pub open spec fn resize_key(c: ClientV, key: KeyEvent, env: EnvV) -> ClientV {
    let deadline = Some(state::after_ms(env.now, RESIZE_IDLE_TIMEOUT as int));
    if keys::resize_modifier(key) {
        state::with_ui(c, UiV { resize_deadline: deadline, ..c.ui })
    } else if keys::resize_dir(key) is Some {
        let d = state::touched(state::asked(c, RequestV::Command(keys::resize_command(keys::resize_dir(key)->0))));
        state::with_ui(d, UiV { resize_deadline: deadline, ..d.ui })
    } else if key.code == KeyCode::Esc {
        state::with_ui(c, UiV { mode: ModeV::Normal, resize_deadline: None, ..c.ui })
    } else if prefix_key(key) {
        state::with_ui(c, UiV { mode: ModeV::Prefix, resize_deadline: None, ..c.ui })
    } else {
        state::touched(state::with_ui(c, UiV { mode: ModeV::Normal, resize_deadline: None, ..c.ui }))
    }
}

/// How far a key reference is scrolled after a key.
pub open spec fn help_scroll(scroll: usize, key: KeyEvent, max: int) -> usize {
    let wanted = match key.code {
        KeyCode::Down | KeyCode::Char('j') => text::clip((scroll + 1) as nat) as int,
        KeyCode::Up | KeyCode::Char('k') => text::max_int(scroll - 1, 0),
        KeyCode::PageDown => text::clip((scroll + 8) as nat) as int,
        KeyCode::PageUp => text::max_int(scroll - 8, 0),
        KeyCode::Home | KeyCode::Char('g') => 0,
        KeyCode::End | KeyCode::Char('G') => max,
        _ => scroll as int,
    };
    text::min_int(wanted, max) as usize
}

pub open spec fn leaves_help(key: KeyEvent) -> bool {
    key.code == KeyCode::Esc || key.code == KeyCode::Char('q') || key.code == KeyCode::Char('H')
}

pub open spec fn screen_of(env: EnvV) -> Rect {
    Rect { x: 0, y: 0, width: env.cols, height: env.rows }
}

/// How far a key reference can be scrolled: that of all keys, or that of the tree.
#[verifier::opaque]
pub open spec fn help_limit(all: bool, env: EnvV) -> int {
    if all {
        help::help_max_scroll(screen_of(env), help::shortcuts())
    } else {
        help::help_max_scroll(screen_of(env), help::navigation_help())
    }
}

/// A key reference after a key.
pub open spec fn help_mode(mode: ModeV, key: KeyEvent, env: EnvV) -> ModeV {
    match mode {
        ModeV::NavigationHelp { scroll } => if leaves_help(key) {
            ModeV::Navigator
        } else {
            ModeV::NavigationHelp { scroll: help_scroll(scroll, key, help_limit(false, env)) }
        },
        ModeV::ShortcutsHelp { scroll, return_mode } => if leaves_help(key) {
            *return_mode
        } else {
            ModeV::ShortcutsHelp {
                scroll: help_scroll(scroll, key, help_limit(true, env)),
                return_mode,
            }
        },
        other => other,
    }
}

/// A key in a key reference.
#[verifier::opaque]
pub open spec fn help_key(c: ClientV, key: KeyEvent, env: EnvV) -> ClientV {
    state::in_mode(c, help_mode(c.ui.mode, key, env))
}

/// A key in the prompt for a machine's or a workspace's name.
#[verifier::opaque]
pub open spec fn identity_key(c: ClientV, id: NodeV, prompt: PromptV, key: KeyEvent) -> ClientV {
    match key.code {
        KeyCode::Enter => state::acting(
            state::in_mode(c, ModeV::Navigator),
            EffectV::SaveName { node: id, name: prompt.buf },
        ),
        KeyCode::Esc => state::in_mode(c, ModeV::Navigator),
        _ => state::in_mode(c, ModeV::RenameIdentity { id, prompt: prompt::edit_key(prompt, key) }),
    }
}

/// What follows a command that the client did itself.
pub open spec fn handled(c: ClientV) -> ClientV {
    state::with_ui(c, UiV { copy_confirmed: false, selection: None, drawn_counter: 0, ..c.ui })
}

/// A host named in a command.
pub open spec fn host_added(c: ClientV, host: Seq<char>, env: EnvV) -> ClientV {
    if remotes::host_ok(host) {
        let name = text::trimmed(host);
        let id = remotes::machine_id(seq![name]);
        let p = remotes::probed(remotes::with_host(c.remotes, name), id, true);
        let d = ClientV { remotes: p.0, ..c };
        state::told(
            handled(
                match p.1 {
                    Some(route) => state::acting(d, EffectV::Probe { id, route }),
                    None => d,
                },
            ),
            "connecting to "@ + host,
            env.now,
            NOTICE as int,
        )
    } else {
        state::told(handled(c), "usage: new -m <SSH_HOST>"@, env.now, NOTICE as int)
    }
}

/// A command line carried out.
pub open spec fn line_run(c: ClientV, line: Seq<char>, env: EnvV) -> ClientV {
    match commands_run::own_command(line) {
        ClientCommandResultV::ShowHelp => state::touched(
            state::in_mode(
                c,
                ModeV::ShortcutsHelp { scroll: 0, return_mode: Box::new(ModeV::Normal) },
            ),
        ),
        ClientCommandResultV::Say(text) => state::told(handled(c), text, env.now, NOTICE as int),
        ClientCommandResultV::PasteCloud => state::asked(handled(c), RequestV::PasteCloud),
        ClientCommandResultV::SetHome => state::asked(
            handled(c),
            RequestV::Output {
                command: "set-workspace-home"@,
                purpose: OutputUse::WorkspaceHome,
            },
        ),
        ClientCommandResultV::AddHost(host) => host_added(c, host, env),
        ClientCommandResultV::NotHandled => {
            let sent = state::asked(c, commands_run::command_request(line));
            if commands_run::line_changes_tree(line) {
                state::tree_stale(state::unfocused(sent), env.now)
            } else {
                sent
            }
        },
    }
}

/// A key in the command prompt.
#[verifier::opaque]
pub open spec fn command_mode_key(c: ClientV, prompt: PromptV, key: KeyEvent, env: EnvV) -> ClientV {
    match key.code {
        KeyCode::Enter => {
            let line = text::trimmed(prompt.buf);
            if line.len() == 0 {
                state::in_mode(c, ModeV::Normal)
            } else {
                line_run(state::in_mode(c, ModeV::Normal), line, env)
            }
        },
        KeyCode::Esc => state::in_mode(c, ModeV::Normal),
        _ => state::in_mode(c, ModeV::Command { prompt: prompt::command_key(prompt, key) }),
    }
}

/// The movement of a key in copy mode, for the keys that only move or select.
pub open spec fn copy_movement(key: KeyEvent) -> Option<CopyKey> {
    let plain = key.modifiers == keys::no_modifiers();
    let ctrl = key.modifiers == (KeyModifiers { control: true, ..keys::no_modifiers() });
    let loose = keys::copy_plain(key.modifiers);
    if plain && (key.code == KeyCode::Char('h') || key.code == KeyCode::Left) {
        Some(CopyKey::Left)
    } else if plain && (key.code == KeyCode::Char('l') || key.code == KeyCode::Right) {
        Some(CopyKey::Right)
    } else if plain && (key.code == KeyCode::Char('k') || key.code == KeyCode::Up) {
        Some(CopyKey::Up)
    } else if plain && (key.code == KeyCode::Char('j') || key.code == KeyCode::Down) {
        Some(CopyKey::Down)
    } else if plain && key.code == KeyCode::Char('b') {
        Some(CopyKey::WordBackward)
    } else if plain && key.code == KeyCode::Char('w') {
        Some(CopyKey::WordForward)
    } else if plain && key.code == KeyCode::Char('e') {
        Some(CopyKey::WordEnd)
    } else if (plain && key.code == KeyCode::PageUp) || (ctrl && key.code == KeyCode::Char('b')) {
        Some(CopyKey::PageUp)
    } else if (plain && key.code == KeyCode::PageDown) || (ctrl && key.code == KeyCode::Char('f')) {
        Some(CopyKey::PageDown)
    } else if plain && key.code == KeyCode::Char('g') {
        Some(CopyKey::Top)
    } else if loose && key.code == KeyCode::Char('G') {
        Some(CopyKey::Bottom)
    } else if keys::copy_line_start(key) {
        Some(CopyKey::LineStart)
    } else if keys::copy_line_end(key) {
        Some(CopyKey::LineEnd)
    } else if plain && (key.code == KeyCode::Char('v') || key.code == KeyCode::Char(' ')) {
        Some(CopyKey::Select(SelectionMode::Char))
    } else if loose && key.code == KeyCode::Char('V') {
        Some(CopyKey::Select(SelectionMode::Line))
    } else if ctrl && key.code == KeyCode::Char('v') {
        Some(CopyKey::Select(SelectionMode::Rect))
    } else if plain && key.code == KeyCode::Char('n') {
        Some(CopyKey::SearchNext)
    } else if loose && key.code == KeyCode::Char('N') {
        Some(CopyKey::SearchPrev)
    } else {
        None
    }
}

pub fn movement_for_key(key: KeyEvent) -> (r: Option<CopyKey>)
    ensures
        r == copy_movement(key),
{
    let m = key.modifiers;
    let plain: bool = is_plain(m);
    let ctrl: bool = m.control && !m.shift && !m.alt && !m.super_key && !m.hyper && !m.meta;
    let loose: bool = keys::is_copy_plain_key(m);
    if plain {
        let found: Option<CopyKey> = match key.code {
            KeyCode::Char('h') | KeyCode::Left => Some(CopyKey::Left),
            KeyCode::Char('l') | KeyCode::Right => Some(CopyKey::Right),
            KeyCode::Char('k') | KeyCode::Up => Some(CopyKey::Up),
            KeyCode::Char('j') | KeyCode::Down => Some(CopyKey::Down),
            KeyCode::Char('b') => Some(CopyKey::WordBackward),
            KeyCode::Char('w') => Some(CopyKey::WordForward),
            KeyCode::Char('e') => Some(CopyKey::WordEnd),
            KeyCode::PageUp => Some(CopyKey::PageUp),
            KeyCode::PageDown => Some(CopyKey::PageDown),
            KeyCode::Char('g') => Some(CopyKey::Top),
            KeyCode::Char('v') | KeyCode::Char(' ') => Some(
                CopyKey::Select(SelectionMode::Char),
            ),
            KeyCode::Char('n') => Some(CopyKey::SearchNext),
            _ => None,
        };
        if found.is_some() {
            return found;
        }
    }
    if ctrl {
        match key.code {
            KeyCode::Char('b') => {
                return Some(CopyKey::PageUp);
            },
            KeyCode::Char('f') => {
                return Some(CopyKey::PageDown);
            },
            KeyCode::Char('v') => {
                return Some(CopyKey::Select(SelectionMode::Rect));
            },
            _ => {},
        }
    }
    if loose {
        match key.code {
            KeyCode::Char('G') => {
                return Some(CopyKey::Bottom);
            },
            KeyCode::Char('V') => {
                return Some(CopyKey::Select(SelectionMode::Line));
            },
            KeyCode::Char('N') => {
                return Some(CopyKey::SearchPrev);
            },
            _ => {},
        }
    }
    if keys::is_copy_line_start_key(key) {
        Some(CopyKey::LineStart)
    } else if keys::is_copy_line_end_key(key) {
        Some(CopyKey::LineEnd)
    } else {
        None
    }
}

/// The prefix key in copy mode.
pub open spec fn prefix_in_copy(c: ClientV) -> ClientV {
    state::with_ui(c, UiV { mode: ModeV::Prefix, prefix_from_copy: true, ..c.ui })
}

/// What a key in copy mode does, other than the prefix key.
pub open spec fn copy_acted(c: ClientV, key: KeyEvent) -> ClientV {
    if key.code == KeyCode::Esc || plain_char(key, 'q') {
        copy_left(c)
    } else if key.code == KeyCode::Char('/') && keys::copy_plain(key.modifiers) {
        state::in_mode(c, ModeV::CopySearch { prompt: empty_prompt(), forward: true })
    } else if key.code == KeyCode::Char('?') && keys::copy_plain(key.modifiers) {
        state::in_mode(c, ModeV::CopySearch { prompt: empty_prompt(), forward: false })
    } else {
        match copy_movement(key) {
            Some(k) => state::asked(c, RequestV::Copy(k)),
            None => if plain_char(key, 'y') || key.code == KeyCode::Enter {
                state::asked(c, RequestV::Yank)
            } else {
                c
            },
        }
    }
}

/// A key in copy mode.
#[verifier::opaque]
pub open spec fn copy_key(c: ClientV, key: KeyEvent) -> ClientV {
    if prefix_key(key) {
        prefix_in_copy(c)
    } else {
        state::touched(copy_acted(c, key))
    }
}

/// What a key in the search prompt does, other than the prefix key.
pub open spec fn search_acted(c: ClientV, prompt: PromptV, forward: bool, key: KeyEvent) -> ClientV {
    match key.code {
        KeyCode::Enter => {
            let d = state::in_mode(c, ModeV::CopyMode);
            if prompt.buf.len() == 0 {
                d
            } else {
                state::asked(d, RequestV::Search { text: prompt.buf, forward })
            }
        },
        KeyCode::Esc => state::in_mode(c, ModeV::CopyMode),
        _ => if plain_char(key, 'q') {
            copy_left(c)
        } else {
            state::in_mode(c, ModeV::CopySearch { prompt: prompt::line_key(prompt, key), forward })
        },
    }
}

/// A key in the search prompt.
#[verifier::opaque]
pub open spec fn search_key(c: ClientV, prompt: PromptV, forward: bool, key: KeyEvent) -> ClientV {
    if prefix_key(key) {
        prefix_in_copy(c)
    } else {
        state::touched(search_acted(c, prompt, forward, key))
    }
}

/// A key in the options.
#[verifier::opaque]
pub open spec fn option_key(c: ClientV, selected: usize, enabled: bool, key: KeyEvent) -> ClientV {
    match key.code {
        KeyCode::Esc | KeyCode::Char('q') => state::in_mode(c, ModeV::Normal),
        KeyCode::Enter | KeyCode::Char(' ') => state::in_mode(
            state::asked(c, RequestV::EraseScroll(!enabled)),
            ModeV::OptionPanel { selected, enabled: !enabled },
        ),
        _ => c,
    }
}

/// What follows the attempt to close a node.
pub open spec fn after_closing(c: ClientV) -> ClientV {
    state::with_ui(
        c,
        UiV {
            mode: ModeV::Navigator,
            copy_confirmed: false,
            selection: None,
            drawn_counter: 0,
            ..c.ui
        },
    )
}

/// The answer to whether a node is to be closed: only `y` closes it.
#[verifier::opaque]
pub open spec fn confirm_key(c: ClientV, e: EntryV, key: KeyEvent, env: EnvV) -> ClientV {
    match key.code {
        KeyCode::Char('y') | KeyCode::Char('Y') => {
            let r = tree::node_closed(c, e, env);
            match r.1 {
                ClosingV::Empty => state::acting(r.0, EffectV::Quit),
                ClosingV::Closed => after_closing(
                    state::told(
                        state::asked(state::tree_stale(r.0, env.now), RequestV::RefreshDisplay),
                        "closed "@ + tree::kind_label(e.kind) + " '"@ + e.label + "'"@,
                        env.now,
                        NOTICE as int,
                    ),
                ),
                ClosingV::Failed(error) => after_closing(state::told(r.0, error, env.now, 4000)),
            }
        },
        KeyCode::Esc | KeyCode::Char('n') | KeyCode::Char('N') | KeyCode::Enter => state::touched(
            state::in_mode(c, ModeV::Navigator),
        ),
        _ => c,
    }
}

/// No other key than `y` closes a node: the workspaces and machines stay as they are, and nothing
/// is asked of anyone.
pub proof fn law_only_y_closes(c: ClientV, e: EntryV, key: KeyEvent, env: EnvV)
    requires
        key.code != KeyCode::Char('y'),
        key.code != KeyCode::Char('Y'),
    ensures
        confirm_key(c, e, key, env).ws == c.ws,
        confirm_key(c, e, key, env).remotes == c.remotes,
        confirm_key(c, e, key, env).out == c.out,
{
    reveal(confirm_key);
}

/// Where a rename goes back to.
pub open spec fn back_to(back: bool) -> ModeV {
    if back {
        ModeV::Navigator
    } else {
        ModeV::Normal
    }
}

/// A rename carried out, unless the new name is empty.
pub open spec fn rename_done(
    c: ClientV,
    verb: Seq<char>,
    name: Seq<char>,
    back: bool,
    env: EnvV,
) -> ClientV {
    let sent = if name.len() == 0 {
        c
    } else {
        state::asked(c, RequestV::Command(verb + commands::quoted(name)))
    };
    state::in_mode(state::tree_stale(sent, env.now), back_to(back))
}

/// A key in the prompt for a window's name.
#[verifier::opaque]
pub open spec fn rename_window_key(
    c: ClientV,
    prompt: PromptV,
    back: bool,
    key: KeyEvent,
    env: EnvV,
) -> ClientV {
    match key.code {
        KeyCode::Enter => rename_done(c, "rename-window -- "@, prompt.buf, back, env),
        KeyCode::Esc => state::in_mode(c, back_to(back)),
        _ => state::in_mode(c, ModeV::RenameWindow { prompt: prompt::line_key(prompt, key), back }),
    }
}

/// A key in the prompt for a session's name.
#[verifier::opaque]
pub open spec fn rename_session_key(
    c: ClientV,
    prompt: PromptV,
    back: bool,
    key: KeyEvent,
    env: EnvV,
) -> ClientV {
    match key.code {
        KeyCode::Enter => rename_done(c, "rename-session -- "@, prompt.buf, back, env),
        KeyCode::Esc => state::in_mode(c, back_to(back)),
        _ => state::in_mode(c, ModeV::RenameSession { prompt: prompt::line_key(prompt, key), back }),
    }
}

/// A key in the prompt for a pane's name.
#[verifier::opaque]
pub open spec fn rename_pane_key(
    c: ClientV,
    prompt: PromptV,
    back: bool,
    key: KeyEvent,
    env: EnvV,
) -> ClientV {
    match key.code {
        KeyCode::Enter => rename_done(c, "rename-pane -- "@, prompt.buf, back, env),
        KeyCode::Esc => state::in_mode(c, back_to(back)),
        _ => state::in_mode(c, ModeV::RenamePane { prompt: prompt::pane_line_key(prompt, key), back }),
    }
}

/// The floating tree opened or closed.
#[verifier::opaque]
pub open spec fn popup_toggled(c: ClientV, env: EnvV) -> ClientV {
    let d = if c.ui.popup {
        state::with_ui(c, UiV { popup: false, mode: c.ui.popup_return, ..c.ui })
    } else {
        let s = places::nav_synced(
            state::with_ui(c, UiV { popup: true, popup_return: c.ui.prefix_origin, ..c.ui }),
            env,
        );
        state::in_mode(s, ModeV::Navigator)
    };
    pointer_forgotten(d)
}

/// Nothing is kept of the prefix or of what the mouse was doing.
pub open spec fn pointer_forgotten(c: ClientV) -> ClientV {
    state::with_ui(
        c,
        UiV {
            prefix_from_navigator: false,
            prefix_from_copy: false,
            selection: None,
            drag: None,
            drawn_selection: None,
            drawn_counter: 0,
            ..c.ui
        },
    )
}

/// The sidebar shown or taken away.
#[verifier::opaque]
pub open spec fn sidebar_toggled(c: ClientV, env: EnvV) -> ClientV {
    let d = state::sidebar_set(
        state::with_ui(c, UiV { popup: false, ..c.ui }),
        !c.ws.sidebar,
        env,
    );
    let origin = c.ui.prefix_origin;
    state::in_mode(
        pointer_forgotten(d),
        if origin is Navigator || origin is NavigationHelp || origin is Prefix {
            ModeV::Normal
        } else {
            origin
        },
    )
}

/// Whether a key behind the prefix opens the floating tree.
pub open spec fn popup_key(key: KeyEvent) -> bool {
    let m = key.modifiers;
    key.code == KeyCode::Char('m') && !m.shift && !m.alt && !m.control
}

/// What is kept of the prefix key, which works in every mode for the tree and the sidebar.
pub open spec fn prefix_noted(c: ClientV, key: KeyEvent) -> ClientV {
    let pending = prefix_key(key) && !c.ui.prefix_pending;
    state::with_ui(
        c,
        UiV {
            prefix_pending: pending,
            prefix_origin: if pending && !(c.ui.mode is Prefix) {
                if c.ui.mode is Resize {
                    ModeV::Normal
                } else {
                    c.ui.mode
                }
            } else {
                c.ui.prefix_origin
            },
            ..c.ui
        },
    )
}

/// A key goes to the prompt that has the input.
#[verifier::opaque]
pub open spec fn prompt_mode_key(c: ClientV, key: KeyEvent, env: EnvV) -> ClientV {
    match c.ui.mode {
        ModeV::RenameIdentity { id, prompt } => state::touched(identity_key(c, id, prompt, key)),
        ModeV::Command { prompt } => state::touched(command_mode_key(c, prompt, key, env)),
        ModeV::CopySearch { prompt, forward } => search_key(c, prompt, forward, key),
        ModeV::RenameWindow { prompt, back } => state::touched(
            rename_window_key(c, prompt, back, key, env),
        ),
        ModeV::RenameSession { prompt, back } => state::touched(
            rename_session_key(c, prompt, back, key, env),
        ),
        ModeV::RenamePane { prompt, back } => state::touched(
            rename_pane_key(c, prompt, back, key, env),
        ),
        _ => c,
    }
}

/// A key goes to what has the input.
#[verifier::opaque]
pub open spec fn mode_key(c: ClientV, key: KeyEvent, press: bool, env: EnvV) -> ClientV {
    match c.ui.mode {
        ModeV::Normal => state::touched(normal_key(c, key, press, env)),
        ModeV::Prefix => prefix_mode_key(c, key, env),
        ModeV::Navigator => navigator_key(c, key, env),
        ModeV::Resize => resize_key(c, key, env),
        ModeV::NavigationHelp { .. } | ModeV::ShortcutsHelp { .. } => state::touched(
            help_key(c, key, env),
        ),
        ModeV::CopyMode => copy_key(c, key),
        ModeV::OptionPanel { selected, enabled } => state::touched(
            option_key(c, selected, enabled, key),
        ),
        ModeV::ConfirmNavigationClose { entry } => state::touched(confirm_key(c, entry, key, env)),
        _ => prompt_mode_key(c, key, env),
    }
}

/// A key pressed, or repeated while it is held.
pub open spec fn on_key(c: ClientV, key: KeyEvent, press: bool, env: EnvV) -> ClientV {
    let d = prefix_noted(c, key);
    if c.ui.prefix_pending && popup_key(key) {
        popup_toggled(d, env)
    } else if c.ui.prefix_pending && keys::shifted_letter(key, 'M') {
        sidebar_toggled(d, env)
    } else {
        mode_key(d, key, press, env)
    }
}

} // verus!
