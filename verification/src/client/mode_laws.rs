//! The keys of the tree, of copy mode, of the prompts and of the questions.

use crate::client::commands_run;
use crate::client::errands;
use crate::client::keyboard;
use crate::client::place_laws;
use crate::client::places;
use crate::client::shortcut_laws;
use crate::client::state;
use crate::client::tree;
use crate::commands;
use crate::navigation;
use crate::text;
use crate::client::actions::{EffectV, RequestV};
use crate::client::commands_run::ClientCommandResultV;
use crate::client::mode::ModeV;
use crate::client::state::{ClientV, EnvV, ManagerV};
use crate::commands::CommandV;
use crate::keys::{KeyCode, KeyEvent, KeyModifiers};
use crate::navigation::{EntryV, NavigationNodeKind, NodeV};
use crate::prompt::PromptV;
use crate::socket::WriteV;
use vstd::prelude::*;

verus! {

/// The line that a movement key of copy mode sends to the server: h, j, k, l and the arrows for a
/// step, b, w and e for words, the page keys and Control with b and f for pages, g and G for the
/// ends of the text, 0, $, Home and End for the ends of the line, v, V and Control with v for the
/// three ways to select, n and N for the search.
pub open spec fn copy_line_of(code: KeyCode, control: bool, shift: bool) -> Option<Seq<char>> {
    if control {
        match code {
            KeyCode::Char('b') => Some("COPY_KEY page_up"@),
            KeyCode::Char('f') => Some("COPY_KEY page_down"@),
            KeyCode::Char('v') => Some("COPY_KEY sel_rect"@),
            _ => None,
        }
    } else if shift {
        match code {
            KeyCode::Char('G') => Some("COPY_KEY bottom"@),
            KeyCode::Char('V') => Some("COPY_KEY sel_line"@),
            KeyCode::Char('N') => Some("COPY_SEARCH_PREV"@),
            KeyCode::Char('0') | KeyCode::Home => Some("COPY_KEY line_start"@),
            KeyCode::Char('$') | KeyCode::Char('4') | KeyCode::End => Some("COPY_KEY line_end"@),
            _ => None,
        }
    } else {
        match code {
            KeyCode::Char('h') | KeyCode::Left => Some("COPY_KEY left"@),
            KeyCode::Char('j') | KeyCode::Down => Some("COPY_KEY down"@),
            KeyCode::Char('k') | KeyCode::Up => Some("COPY_KEY up"@),
            KeyCode::Char('l') | KeyCode::Right => Some("COPY_KEY right"@),
            KeyCode::Char('b') => Some("COPY_KEY word_back"@),
            KeyCode::Char('w') => Some("COPY_KEY word_fwd"@),
            KeyCode::Char('e') => Some("COPY_KEY word_end"@),
            KeyCode::PageUp => Some("COPY_KEY page_up"@),
            KeyCode::PageDown => Some("COPY_KEY page_down"@),
            KeyCode::Char('g') => Some("COPY_KEY top"@),
            KeyCode::Char('G') => Some("COPY_KEY bottom"@),
            KeyCode::Char('0') | KeyCode::Home => Some("COPY_KEY line_start"@),
            KeyCode::Char('$') | KeyCode::End => Some("COPY_KEY line_end"@),
            KeyCode::Char('v') | KeyCode::Char(' ') => Some("COPY_KEY sel_char"@),
            KeyCode::Char('V') => Some("COPY_KEY sel_line"@),
            KeyCode::Char('n') => Some("COPY_SEARCH_NEXT"@),
            KeyCode::Char('N') => Some("COPY_SEARCH_PREV"@),
            _ => None,
        }
    }
}

/// Whether of the modifier keys only Control and Shift may be held, and not both.
pub open spec fn control_or_shift(m: KeyModifiers) -> bool {
    &&& !m.alt && !m.super_key && !m.hyper && !m.meta
    &&& !(m.control && m.shift)
}

/// In copy mode a movement key makes exactly one request of the active workspace, which goes to the
/// server as the line of that key.
pub proof fn law_copy_keys(c: ClientV, key: KeyEvent, press: bool, env: EnvV)
    requires
        c.wf(),
        c.ui.mode is CopyMode,
        !c.ui.prefix_pending,
        control_or_shift(key.modifiers),
        copy_line_of(key.code, key.modifiers.control, key.modifiers.shift) is Some,
    ensures
        ({
            let d = keyboard::on_key(c, key, press, env);
            let line = copy_line_of(key.code, key.modifiers.control, key.modifiers.shift)->0;
            &&& d.out.len() == c.out.len() + 1
            &&& d.out.drop_last() == c.out
            &&& d.out.last() matches EffectV::Ask { workspace, request } && workspace
                == c.ws.active && errands::request_writes(request) == seq![WriteV::Line(line)]
            &&& d.ui.mode is CopyMode
        }),
{
    reveal(keyboard::mode_key);
    reveal(keyboard::copy_key);
    let d = keyboard::on_key(c, key, press, env);
    assert(d.out.drop_last() =~= c.out);
}

/// In copy mode y and Enter ask for the selected text, Escape and q leave, and / and ? begin a
/// search onwards and backwards.
pub proof fn law_other_copy_keys(c: ClientV, press: bool, env: EnvV)
    requires
        c.wf(),
        c.ui.mode is CopyMode,
        !c.ui.prefix_pending,
    ensures
        keyboard::on_key(c, shortcut_laws::bare(KeyCode::Char('y')), press, env).out == c.out.push(
            shortcut_laws::to_active(c, RequestV::Yank),
        ),
        keyboard::on_key(c, shortcut_laws::bare(KeyCode::Enter), press, env).out == c.out.push(shortcut_laws::to_active(c, RequestV::Yank)),
        keyboard::on_key(c, shortcut_laws::bare(KeyCode::Esc), press, env).out == c.out.push(
            shortcut_laws::to_active(c, RequestV::ExitCopyMode),
        ),
        keyboard::on_key(c, shortcut_laws::bare(KeyCode::Esc), press, env).ui.mode is Normal,
        keyboard::on_key(c, shortcut_laws::bare(KeyCode::Char('q')), press, env).out == c.out.push(
            shortcut_laws::to_active(c, RequestV::ExitCopyMode),
        ),
        keyboard::on_key(c, shortcut_laws::bare(KeyCode::Char('q')), press, env).ui.mode is Normal,
        keyboard::on_key(c, shortcut_laws::bare(KeyCode::Char('/')), press, env).out == c.out,
        keyboard::on_key(c, shortcut_laws::bare(KeyCode::Char('/')), press, env).ui.mode matches ModeV::CopySearch {
            prompt,
            forward,
        } && forward && prompt.buf.len() == 0 && prompt.cursor == 0,
        keyboard::on_key(c, shortcut_laws::bare(KeyCode::Char('?')), press, env).out == c.out,
        keyboard::on_key(c, shortcut_laws::bare(KeyCode::Char('?')), press, env).ui.mode matches ModeV::CopySearch {
            prompt,
            forward,
        } && !forward && prompt.buf.len() == 0 && prompt.cursor == 0,
{
    reveal(keyboard::mode_key);
    reveal(keyboard::copy_key);
}

/// Enter in the search prompt searches for what was typed, in the direction that the search was
/// begun in, and goes back to copy mode; Escape only goes back.
pub proof fn law_search_is_sent(
    c: ClientV,
    prompt: PromptV,
    forward: bool,
    press: bool,
    env: EnvV,
)
    requires
        c.wf(),
        c.ui.mode == (ModeV::CopySearch { prompt, forward }),
        !c.ui.prefix_pending,
    ensures
        prompt.buf.len() > 0 ==> keyboard::on_key(c, shortcut_laws::bare(KeyCode::Enter), press, env).out == c.out.push(
            shortcut_laws::to_active(c, RequestV::Search { text: prompt.buf, forward }),
        ),
        prompt.buf.len() == 0 ==> keyboard::on_key(c, shortcut_laws::bare(KeyCode::Enter), press, env).out == c.out,
        keyboard::on_key(c, shortcut_laws::bare(KeyCode::Enter), press, env).ui.mode is CopyMode,
        keyboard::on_key(c, shortcut_laws::bare(KeyCode::Esc), press, env).out == c.out,
        keyboard::on_key(c, shortcut_laws::bare(KeyCode::Esc), press, env).ui.mode is CopyMode,
{
    reveal(keyboard::mode_key);
    reveal(keyboard::prompt_mode_key);
    reveal(keyboard::search_key);
}

/// Whether input is in the tree and no prefix is under way.
pub open spec fn in_tree(c: ClientV) -> bool {
    &&& c.wf()
    &&& c.ui.mode is Navigator
    &&& !c.ui.prefix_pending
    &&& c.nav.selected < c.entries.len()
    &&& c.entries.len() <= usize::MAX
}

/// Whether a key did nothing but select another line, with its node.
pub open spec fn only_selects(c: ClientV, d: ClientV, line: int) -> bool {
    &&& d.nav.selected == line
    &&& d.nav.id == Some(c.entries[line].id)
    &&& d.nav.folded == c.nav.folded
    &&& d.out == c.out
    &&& d.ws == c.ws
    &&& d.remotes == c.remotes
    &&& d.ui.mode is Navigator
}

/// In the tree k and Up select the line above, j and Down the line below, g and Home the first and
/// G and End the last; at the ends they stay.
pub proof fn law_tree_lines_are_stepped_through(
    c: ClientV,
    key: KeyEvent,
    press: bool,
    env: EnvV,
)
    requires
        in_tree(c),
    ensures
        key.code == KeyCode::Char('k') || key.code == KeyCode::Up ==> only_selects(
            c,
            keyboard::on_key(c, key, press, env),
            if c.nav.selected > 0 {
                c.nav.selected - 1
            } else {
                0
            },
        ),
        key.code == KeyCode::Char('j') || key.code == KeyCode::Down ==> only_selects(
            c,
            keyboard::on_key(c, key, press, env),
            if c.nav.selected + 1 < c.entries.len() {
                c.nav.selected + 1
            } else {
                c.entries.len() - 1
            },
        ),
        key.code == KeyCode::Char('g') || key.code == KeyCode::Home ==> only_selects(
            c,
            keyboard::on_key(c, key, press, env),
            0,
        ),
        key.code == KeyCode::Char('G') || key.code == KeyCode::End ==> only_selects(
            c,
            keyboard::on_key(c, key, press, env),
            c.entries.len() - 1,
        ),
{
    reveal(keyboard::mode_key);
    reveal(keyboard::navigator_key);
    reveal(keyboard::tree_key);
}

proof fn lemma_parent(entries: Seq<EntryV>, depth: int, n: int)
    requires
        0 <= n <= entries.len(),
    ensures
        navigation::parent_line(entries, depth, n) matches Some(p) ==> 0 <= p < n && entries[p].depth < depth
            && forall|j: int| p < j < n ==> (#[trigger] entries[j]).depth >= depth,
        navigation::parent_line(entries, depth, n) is None ==> forall|j: int|
            0 <= j < n ==> (#[trigger] entries[j]).depth >= depth,
    decreases n,
{
    if n > 0 && entries[n - 1].depth >= depth {
        lemma_parent(entries, depth, n - 1);
    }
}

/// In the tree h and Left fold an unfolded node, and go from any other to its parent: the nearest
/// line above that is less deep.
pub proof fn law_left_folds_or_goes_out(c: ClientV, key: KeyEvent, press: bool, env: EnvV)
    requires
        in_tree(c),
        key == shortcut_laws::bare(KeyCode::Char('h')) || key.code == KeyCode::Left,
    ensures
        ({
            let d = keyboard::on_key(c, key, press, env);
            let at = c.nav.selected as int;
            let e = c.entries[at];
            &&& d.out == c.out
            &&& d.ws == c.ws
            &&& d.ui.mode is Navigator
            &&& e.expandable && e.expanded ==> d.nav.folded == c.nav.folded.insert(e.id)
                && d.nav.selected == at
            &&& !(e.expandable && e.expanded) ==> d.nav.folded == c.nav.folded
            &&& !(e.expandable && e.expanded) ==> {
                ||| d.nav.selected < at && c.entries[d.nav.selected as int].depth < e.depth
                    && d.nav.id == Some(c.entries[d.nav.selected as int].id) && forall|j: int|
                    d.nav.selected < j < at ==> (#[trigger] c.entries[j]).depth >= e.depth
                ||| d.nav == c.nav && forall|j: int|
                    0 <= j < at ==> (#[trigger] c.entries[j]).depth >= e.depth
            }
        }),
{
    reveal(keyboard::mode_key);
    reveal(keyboard::navigator_key);
    reveal(keyboard::tree_key);
    let at = c.nav.selected as int;
    lemma_parent(c.entries, c.entries[at].depth as int, at);
}

/// In the tree l and Right unfold a folded node, and go from an unfolded one to its first child.
pub proof fn law_right_unfolds_or_goes_in(c: ClientV, key: KeyEvent, press: bool, env: EnvV)
    requires
        in_tree(c),
        key.code == KeyCode::Char('l') || key.code == KeyCode::Right,
        c.entries[c.nav.selected as int].expandable,
    ensures
        ({
            let d = keyboard::on_key(c, key, press, env);
            let at = c.nav.selected as int;
            let e = c.entries[at];
            &&& d.out == c.out
            &&& d.ws == c.ws
            &&& d.ui.mode is Navigator
            &&& !e.expanded ==> d.nav.folded == c.nav.folded.remove(e.id) && d.nav.selected == at
            &&& e.expanded && at + 1 < c.entries.len() && c.entries[at + 1].depth > e.depth
                ==> only_selects(c, d, at + 1)
            &&& e.expanded && !(at + 1 < c.entries.len() && c.entries[at + 1].depth > e.depth)
                ==> d.nav == c.nav
        }),
{
    reveal(keyboard::mode_key);
    reveal(keyboard::navigator_key);
    reveal(keyboard::tree_key);
}

/// In the tree Enter goes to the selected session, window or pane: its workspace becomes the active
/// one and is asked for the screen's size, the steps to the node, its tree and its display, in this
/// order, and input goes to the panes.
pub proof fn law_enter_opens_the_node(c: ClientV, press: bool, env: EnvV)
    requires
        in_tree(c),
        c.ws.list.len() <= usize::MAX,
        c.entries[c.nav.selected as int].kind != NavigationNodeKind::Machine,
        place_laws::session_in(c.entries[c.nav.selected as int].id) matches Some(s) && s.len() > 0,
    ensures
        ({
            let e = c.entries[c.nav.selected as int];
            let d = keyboard::on_key(c, shortcut_laws::bare(KeyCode::Enter), press, env);
            let n = c.out.len() as int;
            (exists|j: int|
                0 <= j < c.ws.list.len() && Some((#[trigger] c.ws.list[j]).socket)
                    == e.id.workspace()) ==> {
                &&& place_laws::first_with_socket(c.ws.list, e.id.workspace()->0, d.ws.active as int)
                &&& d.ui.mode is Normal
                &&& d.out.len() == n + 4
                &&& d.out.take(n) == c.out
                &&& d.out[n] == shortcut_laws::to_active(
                    d,
                    RequestV::Resize(state::server_size(env, c.ws.sidebar)),
                )
                &&& d.out[n + 1] matches EffectV::Ask {
                    workspace,
                    request: RequestV::Command(line),
                } && workspace == d.ws.active && commands::line_commands(line) == place_laws::steps_to(e.id)
                &&& d.out[n + 2] == shortcut_laws::to_active(d, RequestV::RefreshTree)
                &&& d.out[n + 3] == shortcut_laws::to_active(d, RequestV::RefreshDisplay)
            }
        }),
{
    reveal(keyboard::mode_key);
    reveal(keyboard::navigator_key);
    reveal(keyboard::tree_key);
    reveal(tree::opened);
    let e = c.entries[c.nav.selected as int];
    let noted = keyboard::prefix_noted(c, shortcut_laws::bare(KeyCode::Enter));
    place_laws::law_going_to_a_node(noted, e.id, env);
    let d = keyboard::on_key(c, shortcut_laws::bare(KeyCode::Enter), press, env);
    if places::activated(noted, e.id, env) is Some {
        let there = places::activated(noted, e.id, env)->0;
        assert(d.out == there.out.push(shortcut_laws::to_active(there, RequestV::RefreshDisplay)));
        let n = c.out.len() as int;
        assert(d.out.take(n) =~= there.out.take(n));
    }
}

/// In the tree K, d and Delete ask whether the node is to be closed, or say why it cannot be; they
/// ask nothing of a server yet.
pub proof fn law_closing_is_asked_about(c: ClientV, key: KeyEvent, press: bool, env: EnvV)
    requires
        in_tree(c),
        key == shortcut_laws::bare(KeyCode::Char('K')) || key == shortcut_laws::bare(KeyCode::Char('d')) || key == shortcut_laws::bare(
            KeyCode::Delete,
        ),
    ensures
        ({
            let d = keyboard::on_key(c, key, press, env);
            let e = c.entries[c.nav.selected as int];
            &&& d.out == c.out
            &&& d.ws == c.ws
            &&& tree::close_block(c.entries, e.id) is None ==> d.ui.mode == (
            ModeV::ConfirmNavigationClose { entry: e })
            &&& tree::close_block(c.entries, e.id) matches Some(reason) ==> d.ui.mode is Navigator
                && (d.ui.notice matches Some(n) && n.text == reason)
        }),
{
    reveal(keyboard::mode_key);
    reveal(keyboard::navigator_key);
    reveal(keyboard::tree_key);
}

/// In the tree q and Escape close the floating tree and give back what had the input before, or
/// take the sidebar away.
pub proof fn law_leaving_the_tree(c: ClientV, key: KeyEvent, press: bool, env: EnvV)
    requires
        in_tree(c),
        key.code == KeyCode::Esc || key.code == KeyCode::Char('q'),
    ensures
        c.ui.popup ==> !keyboard::on_key(c, key, press, env).ui.popup && keyboard::on_key(c, key, press, env).ui.mode
            == c.ui.popup_return && keyboard::on_key(c, key, press, env).out == c.out,
        !c.ui.popup ==> !keyboard::on_key(c, key, press, env).ws.sidebar && keyboard::on_key(
            c,
            key,
            press,
            env,
        ).ui.mode is Normal,
{
    reveal(keyboard::mode_key);
    reveal(keyboard::navigator_key);
    reveal(keyboard::tree_key);
    let d = keyboard::prefix_noted(c, key);
    if c.ws.sidebar {
        let shown = state::unfocused(
            ClientV {
                ws: ManagerV { sidebar: false, ..d.ws },
                ..d
            },
        );
        state::lemma_asked_all(
            shown,
            RequestV::Resize(state::server_size(env, false)),
            shown.ws.list.len() as int,
        );
    }
}

/// In the tree R probes a remote machine that is selected, and elsewhere has the display sent anew.
pub proof fn law_capital_r_refreshes(c: ClientV, press: bool, env: EnvV)
    requires
        in_tree(c),
        !(c.entries[c.nav.selected as int].id is Machine),
    ensures
        keyboard::on_key(c, shortcut_laws::bare(KeyCode::Char('R')), press, env).out == c.out.push(
            shortcut_laws::to_active(c, RequestV::RefreshDisplay),
        ),
{
    reveal(keyboard::mode_key);
    reveal(keyboard::navigator_key);
    reveal(keyboard::tree_key);
}

/// A command and one argument, and nothing else.
pub open spec fn with_argument(name: Seq<char>, argument: Seq<char>) -> CommandV {
    CommandV { name, args: seq![argument], flags: Map::empty() }
}

proof fn lemma_rename_line(verb: Seq<char>, head: Seq<char>, name: Seq<char>)
    requires
        verb.len() > 0,
        forall|k: int| 0 <= k < verb.len() ==> commands::plain(#[trigger] verb[k]),
        head == verb + seq![' ', '-', '-', ' '],
        name.len() > 0,
    ensures
        commands::line_commands(head + commands::quoted(name)) == seq![with_argument(verb, name)],
{
    commands::law_quoted_text_is_one_argument(verb, name);
}

/// Enter in a prompt for a window's, a session's or a pane's name has the active workspace rename
/// it to what was typed, whatever that holds, and then asks for its tree; an empty name is not
/// sent.
pub proof fn law_renames_are_read(c: ClientV, prompt: PromptV, back: bool, press: bool, env: EnvV)
    requires
        c.wf(),
        !c.ui.prefix_pending,
        c.ui.mode == (ModeV::RenameWindow { prompt, back }) || c.ui.mode == (
        ModeV::RenameSession { prompt, back }) || c.ui.mode == (ModeV::RenamePane { prompt, back }),
    ensures
        ({
            let d = keyboard::on_key(c, shortcut_laws::bare(KeyCode::Enter), press, env);
            let n = c.out.len() as int;
            let verb = if c.ui.mode is RenameWindow {
                "rename-window"@
            } else if c.ui.mode is RenameSession {
                "rename-session"@
            } else {
                "rename-pane"@
            };
            &&& back ==> d.ui.mode is Navigator
            &&& !back ==> d.ui.mode is Normal
            &&& prompt.buf.len() == 0 ==> d.out == c.out.push(shortcut_laws::to_active(c, RequestV::RefreshTree))
            &&& prompt.buf.len() > 0 ==> {
                &&& d.out.len() == n + 2
                &&& d.out.take(n) == c.out
                &&& d.out[n] matches EffectV::Ask { workspace, request: RequestV::Command(line) }
                    && workspace == c.ws.active && commands::line_commands(line) == seq![
                    with_argument(verb, prompt.buf),
                ]
                &&& d.out[n + 1] == shortcut_laws::to_active(c, RequestV::RefreshTree)
            }
        }),
{
    reveal(keyboard::mode_key);
    reveal(keyboard::prompt_mode_key);
    reveal(keyboard::rename_window_key);
    reveal(keyboard::rename_session_key);
    reveal(keyboard::rename_pane_key);
    let d = keyboard::on_key(c, shortcut_laws::bare(KeyCode::Enter), press, env);
    let n = c.out.len() as int;
    if prompt.buf.len() > 0 {
        reveal_strlit("rename-window");
        reveal_strlit("rename-window -- ");
        reveal_strlit("rename-session");
        reveal_strlit("rename-session -- ");
        reveal_strlit("rename-pane");
        reveal_strlit("rename-pane -- ");
        let dashes = seq![' ', '-', '-', ' '];
        assert("rename-window -- "@ =~= "rename-window"@ + dashes);
        assert("rename-session -- "@ =~= "rename-session"@ + dashes);
        assert("rename-pane -- "@ =~= "rename-pane"@ + dashes);
        lemma_rename_line("rename-window"@, "rename-window -- "@, prompt.buf);
        lemma_rename_line("rename-session"@, "rename-session -- "@, prompt.buf);
        lemma_rename_line("rename-pane"@, "rename-pane -- "@, prompt.buf);
        assert(d.out.take(n) =~= c.out);
    }
}

/// Escape in a prompt for a name goes back without asking anything of anyone.
pub proof fn law_escape_renames_nothing(
    c: ClientV,
    prompt: PromptV,
    back: bool,
    press: bool,
    env: EnvV,
)
    requires
        c.wf(),
        !c.ui.prefix_pending,
        c.ui.mode == (ModeV::RenameWindow { prompt, back }) || c.ui.mode == (
        ModeV::RenameSession { prompt, back }) || c.ui.mode == (ModeV::RenamePane { prompt, back }),
    ensures
        keyboard::on_key(c, shortcut_laws::bare(KeyCode::Esc), press, env).out == c.out,
        back ==> keyboard::on_key(c, shortcut_laws::bare(KeyCode::Esc), press, env).ui.mode is Navigator,
        !back ==> keyboard::on_key(c, shortcut_laws::bare(KeyCode::Esc), press, env).ui.mode is Normal,
{
    reveal(keyboard::mode_key);
    reveal(keyboard::prompt_mode_key);
    reveal(keyboard::rename_window_key);
    reveal(keyboard::rename_session_key);
    reveal(keyboard::rename_pane_key);
}

/// Enter in the prompt for a machine's or a workspace's name keeps the name that was typed for that
/// node, and tells no server.
pub proof fn law_own_names_are_kept_here(
    c: ClientV,
    id: NodeV,
    prompt: PromptV,
    press: bool,
    env: EnvV,
)
    requires
        c.wf(),
        !c.ui.prefix_pending,
        c.ui.mode == (ModeV::RenameIdentity { id, prompt }),
    ensures
        keyboard::on_key(c, shortcut_laws::bare(KeyCode::Enter), press, env).out == c.out.push(
            EffectV::SaveName { node: id, name: prompt.buf },
        ),
        keyboard::on_key(c, shortcut_laws::bare(KeyCode::Enter), press, env).ui.mode is Navigator,
        keyboard::on_key(c, shortcut_laws::bare(KeyCode::Esc), press, env).out == c.out,
        keyboard::on_key(c, shortcut_laws::bare(KeyCode::Esc), press, env).ui.mode is Navigator,
{
    reveal(keyboard::mode_key);
    reveal(keyboard::prompt_mode_key);
    reveal(keyboard::identity_key);
}

/// In the options Enter and a blank turn the option over, here and in the active workspace; q and
/// Escape leave.
pub proof fn law_option_is_turned(
    c: ClientV,
    selected: usize,
    enabled: bool,
    press: bool,
    env: EnvV,
)
    requires
        c.wf(),
        !c.ui.prefix_pending,
        c.ui.mode == (ModeV::OptionPanel { selected, enabled }),
    ensures
        keyboard::on_key(c, shortcut_laws::bare(KeyCode::Enter), press, env).out == c.out.push(
            shortcut_laws::to_active(c, RequestV::EraseScroll(!enabled)),
        ),
        keyboard::on_key(c, shortcut_laws::bare(KeyCode::Enter), press, env).ui.mode == (ModeV::OptionPanel {
            selected,
            enabled: !enabled,
        }),
        keyboard::on_key(c, shortcut_laws::bare(KeyCode::Char(' ')), press, env).out == c.out.push(
            shortcut_laws::to_active(c, RequestV::EraseScroll(!enabled)),
        ),
        keyboard::on_key(c, shortcut_laws::bare(KeyCode::Esc), press, env).out == c.out,
        keyboard::on_key(c, shortcut_laws::bare(KeyCode::Esc), press, env).ui.mode is Normal,
        keyboard::on_key(c, shortcut_laws::bare(KeyCode::Char('q')), press, env).ui.mode is Normal,
{
    reveal(keyboard::mode_key);
    reveal(keyboard::option_key);
}

/// Enter in the command prompt sends the line to the active workspace as it was typed, without the
/// white space around it, unless the command is the client's own or prints something; an empty line
/// is not sent. Input goes to the panes either way.
pub proof fn law_commands_are_sent(c: ClientV, prompt: PromptV, press: bool, env: EnvV)
    requires
        c.wf(),
        !c.ui.prefix_pending,
        c.ui.mode == (ModeV::Command { prompt }),
    ensures
        ({
            let d = keyboard::on_key(c, shortcut_laws::bare(KeyCode::Enter), press, env);
            let line = text::trimmed(prompt.buf);
            &&& line.len() == 0 ==> d.out == c.out && d.ui.mode is Normal
            &&& line.len() > 0 && commands_run::own_command(line) is NotHandled && commands_run::command_request(line)
                == RequestV::Command(line) ==> {
                &&& d.ui.mode is Normal
                &&& d.out.len() >= c.out.len() + 1
                &&& d.out.take(c.out.len() as int) == c.out
                &&& d.out[c.out.len() as int] == shortcut_laws::to_active(c, RequestV::Command(line))
                &&& commands_run::line_changes_tree(line) ==> d.out.len() == c.out.len() + 2 && d.out.last()
                    == shortcut_laws::to_active(c, RequestV::RefreshTree)
                &&& !commands_run::line_changes_tree(line) ==> d.out.len() == c.out.len() + 1
            }
        }),
        keyboard::on_key(c, shortcut_laws::bare(KeyCode::Esc), press, env).out == c.out,
        keyboard::on_key(c, shortcut_laws::bare(KeyCode::Esc), press, env).ui.mode is Normal,
{
    reveal(keyboard::mode_key);
    reveal(keyboard::prompt_mode_key);
    reveal(keyboard::command_mode_key);
    let d = keyboard::on_key(c, shortcut_laws::bare(KeyCode::Enter), press, env);
    let line = text::trimmed(prompt.buf);
    if line.len() > 0 && commands_run::own_command(line) is NotHandled && commands_run::command_request(line)
        == RequestV::Command(line) {
        assert(d.out.take(c.out.len() as int) =~= c.out);
    }
}

/// The commands that the client carries out itself, told by their name and flags, and those alone:
/// `h` and `help`, `set-workspace-home`, `paste-cloud`, and `new` with a host or a tab.
pub proof fn law_own_commands(line: Seq<char>)
    requires
        commands::line_commands(line).len() == 1,
    ensures
        ({
            let cmd = commands::line_commands(line)[0];
            let help = cmd.name == "h"@ || cmd.name == "help"@;
            let bare = cmd.args.len() == 0 && cmd.flags == Map::<
                Seq<char>,
                Option<Seq<char>>,
            >::empty();
            &&& help && bare ==> commands_run::own_command(line) is ShowHelp
            &&& help && !bare ==> commands_run::own_command(line) is Say
            &&& cmd.name == "set-workspace-home"@ && !help ==> commands_run::own_command(line) is SetHome
            &&& cmd.name == "paste-cloud"@ && !help && cmd.name != "set-workspace-home"@ && cmd.name
                != "new"@ ==> commands_run::own_command(line) is PasteCloud
            &&& cmd.name == "new"@ && !help && cmd.name != "set-workspace-home"@ ==> {
                &&& cmd.flags.contains_key("m"@) && cmd.flags["m"@] is Some ==> commands_run::own_command(line)
                    == ClientCommandResultV::AddHost(cmd.flags["m"@]->0)
                &&& !cmd.flags.contains_key("m"@) && !cmd.flags.contains_key("t"@) ==> commands_run::own_command(
                    line,
                ) is NotHandled
            }
            &&& !help && cmd.name != "set-workspace-home"@ && cmd.name != "paste-cloud"@ && cmd.name
                != "new"@ ==> commands_run::own_command(line) is NotHandled
        }),
{
    reveal_strlit("new");
    reveal_strlit("paste-cloud");
    reveal_strlit("set-workspace-home");
    reveal_strlit("h");
    reveal_strlit("help");
    assert("new"@.len() == 3 && "paste-cloud"@.len() == 11);
}

} // verus!
