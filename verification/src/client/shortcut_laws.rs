//! The shortcuts: what the prefix key and another key do, from the panes.

use crate::client::commands_run;
use crate::client::keyboard;
use crate::client::places;
use crate::client::state;
use crate::command_laws;
use crate::commands;
use crate::key_laws;
use crate::keys;
use crate::text;
use crate::visual;
use crate::visual_laws;
use crate::client::actions::{EffectV, OutputUse, RequestV};
use crate::client::mode::ModeV;
use crate::client::state::{ClientV, EnvV, ManagerV, UiV};
use crate::keys::{KeyCode, KeyEvent, KeyModifiers, NavDir};
use vstd::prelude::*;

verus! {

/// The prefix key: Control and a, and nothing else held.
pub open spec fn control_a() -> KeyEvent {
    KeyEvent {
        code: KeyCode::Char('a'),
        modifiers: KeyModifiers {
            shift: false,
            control: true,
            alt: false,
            super_key: false,
            hyper: false,
            meta: false,
        },
    }
}

/// A key with nothing held.
pub open spec fn bare(code: KeyCode) -> KeyEvent {
    KeyEvent {
        code,
        modifiers: KeyModifiers {
            shift: false,
            control: false,
            alt: false,
            super_key: false,
            hyper: false,
            meta: false,
        },
    }
}

/// Keys go to the panes, and no prefix is under way.
pub open spec fn at_rest(c: ClientV) -> bool {
    &&& c.wf()
    &&& c.ui.mode is Normal
    &&& !c.ui.prefix_pending
    &&& !c.ui.prefix_from_navigator
}

/// The client after the prefix key and another key.
pub open spec fn after_prefix(c: ClientV, key: KeyEvent, press: bool, env: EnvV) -> ClientV {
    keyboard::on_key(keyboard::on_key(c, control_a(), press, env), key, press, env)
}

/// A request to the workspace that is active.
pub open spec fn to_active(c: ClientV, request: RequestV) -> EffectV {
    EffectV::Ask { workspace: c.ws.active, request }
}

/// A command for the workspace that is active, and then its tree asked for anew.
pub open spec fn command_then_tree(c: ClientV, command: Seq<char>) -> Seq<EffectV> {
    seq![to_active(c, RequestV::Command(command)), to_active(c, RequestV::RefreshTree)]
}

/// What is left of the prefix when the key behind it is dealt with.
spec fn prefix_over(c: ClientV, d: ClientV) -> bool {
    &&& d.ws == c.ws
    &&& d.out == c.out
    &&& d.remotes == c.remotes
    &&& d.nav == c.nav
    &&& d.entries == c.entries
    &&& d.ui.mode is Normal
    &&& d.ui.hide_borders == c.ui.hide_borders
    &&& d.ui.popup == c.ui.popup
    &&& !d.ui.prefix_pending
    &&& !d.ui.prefix_from_navigator
}

proof fn lemma_behind_prefix(c: ClientV, key: KeyEvent, press: bool, env: EnvV) -> (d: ClientV)
    requires
        at_rest(c),
        !keyboard::prefix_key(key),
        !keyboard::popup_key(key),
        !keys::shifted_letter(key, 'M'),
    ensures
        prefix_over(c, d),
        after_prefix(c, key, press, env) == keyboard::prefix_rest(d, key, env),
{
    reveal(keyboard::mode_key);
    reveal(keyboard::normal_key);
    reveal(keyboard::prefix_mode_key);
    let a = keyboard::on_key(c, control_a(), press, env);
    assert(a.ui.mode is Prefix && a.ui.prefix_pending && a.out == c.out && a.ws == c.ws);
    let n = keyboard::prefix_noted(a, key);
    let x = state::with_ui(n, UiV { mode: ModeV::Normal, prefix_from_navigator: false, ..n.ui });
    let b = state::with_ui(x, UiV { prefix_from_copy: false, ..x.ui });
    if n.ui.prefix_from_copy {
        state::with_ui(b, UiV { copy_confirmed: false, copy_suppress: Some(env.counter), ..b.ui })
    } else {
        b
    }
}

proof fn lemma_trimmed_end_is_front(s: Seq<char>)
    ensures
        text::trimmed_end(s).len() <= s.len(),
        forall|k: int| 0 <= k < text::trimmed_end(s).len() ==> #[trigger] text::trimmed_end(s)[k] == s[k],
    decreases s.len(),
{
    if s.len() > 0 && text::white_space(s.last()) {
        lemma_trimmed_end_is_front(s.drop_last());
    }
}

/// A command goes as it is unless it begins with `set` or `sho`.
proof fn lemma_goes_as_it_is(s: Seq<char>)
    requires
        s.len() >= 3,
        !text::white_space(s[0]),
        !text::white_space(s[1]),
        !text::white_space(s[2]),
        !(s[0] == 's' && s[1] == 'e' && s[2] == 't'),
        !(s[0] == 's' && s[1] == 'h' && s[2] == 'o'),
    ensures
        commands_run::command_request(s) == RequestV::Command(s),
{
    reveal_strlit("set-pane-start-dir");
    reveal_strlit("set-option");
    reveal_strlit("set");
    reveal_strlit("show-options");
    reveal_strlit("show");
    lemma_trimmed_end_is_front(s);
    let t = text::trimmed(s);
    assert(t == text::trimmed_end(s));
    if t == "set-pane-start-dir"@ {
        assert(t[0] == s[0] && t[1] == s[1] && t[2] == s[2]);
    }
    lemma_word_end(s, 3);
    assert(commands_run::word_end(s, 0) == commands_run::word_end(s, 1) == commands_run::word_end(s, 2) == commands_run::word_end(s, 3)) by {
        reveal_with_fuel(commands_run::word_end, 4);
    }
    let w = commands_run::first_word(s);
    assert(w[0] == s[0] && w[1] == s[1] && w[2] == s[2]);
}

proof fn lemma_word_end(s: Seq<char>, from: int)
    requires
        0 <= from <= s.len(),
    ensures
        from <= commands_run::word_end(s, from) <= s.len(),
    decreases s.len() - from,
{
    if from < s.len() && !text::white_space(s[from]) {
        lemma_word_end(s, from + 1);
    }
}

/// Prefix and %: the active workspace is asked to split the pane into a left and a right one, once,
/// and then for its tree.
pub proof fn law_percent_splits_left_and_right(
    c: ClientV,
    key: KeyEvent,
    press: bool,
    env: EnvV,
)
    requires
        at_rest(c),
        key.code == KeyCode::Char('%'),
    ensures
        after_prefix(c, key, press, env).out == c.out + command_then_tree(c, "split-window -h"@),
        after_prefix(c, key, press, env).ui.mode is Normal,
{
    reveal(keyboard::prefix_action);
    let d = lemma_behind_prefix(c, key, press, env);
    reveal_strlit("split-window -h");
    lemma_goes_as_it_is("split-window -h"@);
    assert(after_prefix(c, key, press, env).out =~= c.out + command_then_tree(
        c,
        "split-window -h"@,
    ));
}

/// Prefix and ": the active workspace is asked to split the pane into an upper and a lower one,
/// once, and then for its tree.
pub proof fn law_quote_splits_above_and_below(c: ClientV, key: KeyEvent, press: bool, env: EnvV)
    requires
        at_rest(c),
        key.code == KeyCode::Char('"'),
    ensures
        after_prefix(c, key, press, env).out == c.out + command_then_tree(c, "split-window -v"@),
        after_prefix(c, key, press, env).ui.mode is Normal,
{
    reveal(keyboard::prefix_action);
    let d = lemma_behind_prefix(c, key, press, env);
    reveal_strlit("split-window -v");
    lemma_goes_as_it_is("split-window -v"@);
    assert(after_prefix(c, key, press, env).out =~= c.out + command_then_tree(
        c,
        "split-window -v"@,
    ));
}

/// Prefix and x: the active workspace is asked to close its pane, and then for its tree.
pub proof fn law_x_closes_the_pane(c: ClientV, press: bool, env: EnvV)
    requires
        at_rest(c),
    ensures
        after_prefix(c, bare(KeyCode::Char('x')), press, env).out == c.out + command_then_tree(
            c,
            "kill-pane"@,
        ),
        after_prefix(c, bare(KeyCode::Char('x')), press, env).ui.mode is Normal,
{
    reveal(keyboard::prefix_action);
    let key = bare(KeyCode::Char('x'));
    let d = lemma_behind_prefix(c, key, press, env);
    assert(after_prefix(c, key, press, env).out =~= c.out + command_then_tree(c, "kill-pane"@));
}

/// Prefix and z: the active workspace is asked to zoom its pane, and nothing else.
pub proof fn law_z_zooms_the_pane(c: ClientV, press: bool, env: EnvV)
    requires
        at_rest(c),
    ensures
        after_prefix(c, bare(KeyCode::Char('z')), press, env).out == c.out.push(
            to_active(c, RequestV::Command("zoom-pane"@)),
        ),
        after_prefix(c, bare(KeyCode::Char('z')), press, env).ui.mode is Normal,
{
    reveal(keyboard::prefix_action);
    let key = bare(KeyCode::Char('z'));
    let d = lemma_behind_prefix(c, key, press, env);
    reveal_strlit("zoom-pane");
    lemma_goes_as_it_is("zoom-pane"@);
    assert(after_prefix(c, key, press, env).out =~= c.out.push(
        to_active(c, RequestV::Command("zoom-pane"@)),
    ));
}

/// Prefix and K: the active workspace is asked to clear its pane, and nothing else.
pub proof fn law_capital_k_clears_the_pane(c: ClientV, key: KeyEvent, press: bool, env: EnvV)
    requires
        at_rest(c),
        key == bare(KeyCode::Char('K')) || (key.code == KeyCode::Char('k') && key.modifiers.shift
            && !key.modifiers.control && !key.modifiers.alt),
    ensures
        after_prefix(c, key, press, env).out == c.out.push(
            to_active(c, RequestV::Command("clear-pane"@)),
        ),
        after_prefix(c, key, press, env).ui.mode is Normal,
{
    reveal(keyboard::prefix_action);
    let d = lemma_behind_prefix(c, key, press, env);
    reveal_strlit("clear-pane");
    lemma_goes_as_it_is("clear-pane"@);
    assert(after_prefix(c, key, press, env).out =~= c.out.push(
        to_active(c, RequestV::Command("clear-pane"@)),
    ));
}

/// Prefix and b: the borders are shown if they were hidden and hidden if they were shown, here and
/// in the active workspace.
pub proof fn law_b_turns_the_borders(c: ClientV, press: bool, env: EnvV)
    requires
        at_rest(c),
    ensures
        after_prefix(c, bare(KeyCode::Char('b')), press, env).out == c.out.push(
            to_active(c, RequestV::HideBorders(!c.ui.hide_borders)),
        ),
        after_prefix(c, bare(KeyCode::Char('b')), press, env).ui.hide_borders
            == !c.ui.hide_borders,
        after_prefix(c, bare(KeyCode::Char('b')), press, env).ui.mode is Normal,
{
    reveal(keyboard::prefix_action);
    let d = lemma_behind_prefix(c, bare(KeyCode::Char('b')), press, env);
}

/// Prefix and H: the directory of the active workspace is set, and the answer is told to the user.
pub proof fn law_capital_h_sets_the_home(c: ClientV, key: KeyEvent, press: bool, env: EnvV)
    requires
        at_rest(c),
        key == bare(KeyCode::Char('H')) || (key.code == KeyCode::Char('h') && key.modifiers.shift
            && !key.modifiers.control && !key.modifiers.alt),
    ensures
        after_prefix(c, key, press, env).out == c.out.push(
            to_active(
                c,
                RequestV::Output {
                    command: "set-workspace-home"@,
                    purpose: OutputUse::WorkspaceHome,
                },
            ),
        ),
        after_prefix(c, key, press, env).ui.mode is Normal,
{
    reveal(keyboard::prefix_action);
    let d = lemma_behind_prefix(c, key, press, env);
}

/// Prefix and ]: the clipboard is pasted into the active workspace.
pub proof fn law_bracket_pastes(c: ClientV, press: bool, env: EnvV)
    requires
        at_rest(c),
    ensures
        after_prefix(c, bare(KeyCode::Char(']')), press, env).out == c.out.push(
            to_active(c, RequestV::PasteCloud),
        ),
        after_prefix(c, bare(KeyCode::Char(']')), press, env).ui.mode is Normal,
{
    reveal(keyboard::prefix_action);
    let d = lemma_behind_prefix(c, bare(KeyCode::Char(']')), press, env);
}

/// Super and v, pressed at a pane, pastes the clipboard.
pub proof fn law_super_v_pastes(c: ClientV, key: KeyEvent, env: EnvV)
    requires
        at_rest(c),
        key.code == KeyCode::Char('v') || key.code == KeyCode::Char('V'),
        key.modifiers.super_key,
        !key.modifiers.control,
        !key.modifiers.alt,
    ensures
        keyboard::on_key(c, key, true, env).out == c.out.push(to_active(c, RequestV::PasteCloud)),
        keyboard::on_key(c, key, true, env).ui.mode is Normal,
{
    reveal(keyboard::mode_key);
    reveal(keyboard::normal_key);
}

/// Prefix and [: the active workspace is asked to begin copy mode.
pub proof fn law_open_bracket_begins_copy_mode(
    c: ClientV,
    key: KeyEvent,
    press: bool,
    env: EnvV,
)
    requires
        at_rest(c),
        key.code == KeyCode::Char('['),
    ensures
        after_prefix(c, key, press, env).out == c.out.push(to_active(c, RequestV::EnterCopyMode)),
{
    reveal(keyboard::prefix_action);
    let d = lemma_behind_prefix(c, key, press, env);
}

/// Prefix and O: the active workspace is asked for its options.
pub proof fn law_capital_o_asks_for_the_options(
    c: ClientV,
    key: KeyEvent,
    press: bool,
    env: EnvV,
)
    requires
        at_rest(c),
        key.code == KeyCode::Char('O'),
    ensures
        after_prefix(c, key, press, env).out == c.out.push(to_active(c, RequestV::AskEraseScroll)),
{
    reveal(keyboard::prefix_action);
    let d = lemma_behind_prefix(c, key, press, env);
}

/// Prefix and c: the active workspace is asked for a new window, and then for its tree.
pub proof fn law_c_makes_a_window(c: ClientV, press: bool, env: EnvV)
    requires
        at_rest(c),
    ensures
        after_prefix(c, bare(KeyCode::Char('c')), press, env).out == c.out + command_then_tree(
            c,
            "new-window"@,
        ),
        after_prefix(c, bare(KeyCode::Char('c')), press, env).ui.mode is Normal,
{
    reveal(keyboard::prefix_action);
    let key = bare(KeyCode::Char('c'));
    let d = lemma_behind_prefix(c, key, press, env);
    reveal_strlit("new-window");
    lemma_goes_as_it_is("new-window"@);
    assert(after_prefix(c, key, press, env).out =~= c.out + command_then_tree(c, "new-window"@));
}

/// Prefix and n: the active workspace is asked for its next window, and then for its tree.
pub proof fn law_n_goes_to_the_next_window(c: ClientV, press: bool, env: EnvV)
    requires
        at_rest(c),
    ensures
        after_prefix(c, bare(KeyCode::Char('n')), press, env).out == c.out + command_then_tree(
            c,
            "select-window -n"@,
        ),
        after_prefix(c, bare(KeyCode::Char('n')), press, env).ui.mode is Normal,
{
    reveal(keyboard::prefix_action);
    let key = bare(KeyCode::Char('n'));
    let d = lemma_behind_prefix(c, key, press, env);
    reveal_strlit("select-window -n");
    lemma_goes_as_it_is("select-window -n"@);
    assert(after_prefix(c, key, press, env).out =~= c.out + command_then_tree(
        c,
        "select-window -n"@,
    ));
}

/// Prefix and p: the active workspace is asked for the window before, and then for its tree.
pub proof fn law_p_goes_to_the_window_before(c: ClientV, press: bool, env: EnvV)
    requires
        at_rest(c),
    ensures
        after_prefix(c, bare(KeyCode::Char('p')), press, env).out == c.out + command_then_tree(
            c,
            "select-window -p"@,
        ),
        after_prefix(c, bare(KeyCode::Char('p')), press, env).ui.mode is Normal,
{
    reveal(keyboard::prefix_action);
    let key = bare(KeyCode::Char('p'));
    let d = lemma_behind_prefix(c, key, press, env);
    reveal_strlit("select-window -p");
    lemma_goes_as_it_is("select-window -p"@);
    assert(after_prefix(c, key, press, env).out =~= c.out + command_then_tree(
        c,
        "select-window -p"@,
    ));
}

/// Prefix and (: the active workspace is asked for the session before, and then for its tree.
pub proof fn law_open_parenthesis_goes_a_session_back(
    c: ClientV,
    key: KeyEvent,
    press: bool,
    env: EnvV,
)
    requires
        at_rest(c),
        key.code == KeyCode::Char('('),
    ensures
        after_prefix(c, key, press, env).out == c.out + command_then_tree(c, "prev-session"@),
        after_prefix(c, key, press, env).ui.mode is Normal,
{
    reveal(keyboard::prefix_action);
    let d = lemma_behind_prefix(c, key, press, env);
    assert(after_prefix(c, key, press, env).out =~= c.out + command_then_tree(c, "prev-session"@));
}

/// Prefix and ): the active workspace is asked for the next session, and then for its tree.
pub proof fn law_close_parenthesis_goes_a_session_on(
    c: ClientV,
    key: KeyEvent,
    press: bool,
    env: EnvV,
)
    requires
        at_rest(c),
        key.code == KeyCode::Char(')'),
    ensures
        after_prefix(c, key, press, env).out == c.out + command_then_tree(c, "next-session"@),
        after_prefix(c, key, press, env).ui.mode is Normal,
{
    reveal(keyboard::prefix_action);
    let d = lemma_behind_prefix(c, key, press, env);
    assert(after_prefix(c, key, press, env).out =~= c.out + command_then_tree(c, "next-session"@));
}

pub proof fn lemma_all_asked(c: ClientV, request: RequestV, n: int)
    requires
        0 <= n,
    ensures
        state::asked_all(c, request, n).out == c.out + Seq::new(
            n as nat,
            |i: int| EffectV::Ask { workspace: i as usize, request },
        ),
    decreases n,
{
    let all = Seq::new(n as nat, |i: int| EffectV::Ask { workspace: i as usize, request });
    if n == 0 {
        assert(c.out + all =~= c.out);
    } else {
        lemma_all_asked(c, request, n - 1);
        assert(state::asked_all(c, request, n).out =~= c.out + all);
    }
}

/// Prefix and d: every workspace is told that the client leaves, one after the other, and then the
/// client ends.
pub proof fn law_d_leaves_every_workspace(c: ClientV, press: bool, env: EnvV)
    requires
        at_rest(c),
    ensures
        ({
            let out = after_prefix(c, bare(KeyCode::Char('d')), press, env).out;
            let n = c.out.len() as int;
            &&& out.len() == n + c.ws.list.len() + 1
            &&& out.take(n) == c.out
            &&& forall|i: int|
                0 <= i < c.ws.list.len() ==> #[trigger] out[n + i] == (EffectV::Ask {
                    workspace: i as usize,
                    request: RequestV::Detach,
                })
            &&& out.last() == EffectV::Quit
        }),
{
    reveal(keyboard::prefix_action);
    let key = bare(KeyCode::Char('d'));
    let d = lemma_behind_prefix(c, key, press, env);
    lemma_all_asked(d, RequestV::Detach, d.ws.list.len() as int);
    let out = after_prefix(c, key, press, env).out;
    assert(out.take(c.out.len() as int) =~= c.out);
}

/// Prefix and a comma begins a rename of the window, with the name that the window has.
pub proof fn law_comma_renames_the_window(c: ClientV, key: KeyEvent, press: bool, env: EnvV)
    requires
        at_rest(c),
        key.code == KeyCode::Char(','),
    ensures
        after_prefix(c, key, press, env).out == c.out,
        after_prefix(c, key, press, env).ui.mode matches ModeV::RenameWindow { prompt, back }
            && !back && prompt.buf == keyboard::window_name_in(env.frame),
{
    reveal(keyboard::prefix_action);
    let d = lemma_behind_prefix(c, key, press, env);
}

/// Prefix and $ begins a rename of the session, with the name that the session has.
pub proof fn law_dollar_renames_the_session(c: ClientV, key: KeyEvent, press: bool, env: EnvV)
    requires
        at_rest(c),
        key.code == KeyCode::Char('$'),
    ensures
        after_prefix(c, key, press, env).out == c.out,
        after_prefix(c, key, press, env).ui.mode matches ModeV::RenameSession { prompt, back }
            && !back && prompt.buf == keyboard::session_name_in(env.frame),
{
    reveal(keyboard::prefix_action);
    let d = lemma_behind_prefix(c, key, press, env);
}

/// Prefix and a colon begins an empty command line.
pub proof fn law_colon_begins_a_command(c: ClientV, key: KeyEvent, press: bool, env: EnvV)
    requires
        at_rest(c),
        key.code == KeyCode::Char(':'),
    ensures
        after_prefix(c, key, press, env).out == c.out,
        after_prefix(c, key, press, env).ui.mode matches ModeV::Command { prompt }
            && prompt.buf.len() == 0 && prompt.cursor == 0,
{
    reveal(keyboard::prefix_action);
    let d = lemma_behind_prefix(c, key, press, env);
}

/// The command that resizes the pane towards h, j, k or l, or the arrow that stands for it: left,
/// down, up or right.
pub open spec fn resize_line(code: KeyCode) -> Option<Seq<char>> {
    match code {
        KeyCode::Char('h') | KeyCode::Left => Some("resize-pane -L"@),
        KeyCode::Char('j') | KeyCode::Down => Some("resize-pane -D"@),
        KeyCode::Char('k') | KeyCode::Up => Some("resize-pane -U"@),
        KeyCode::Char('l') | KeyCode::Right => Some("resize-pane -R"@),
        _ => None,
    }
}

/// Prefix and Alt with a direction resizes the pane that way at once, and begins resizing, which
/// ends by itself half a second later.
pub proof fn law_alt_direction_resizes(c: ClientV, key: KeyEvent, press: bool, env: EnvV)
    requires
        at_rest(c),
        resize_line(key.code) is Some,
        key.modifiers.alt,
        !key.modifiers.control,
        !key.modifiers.shift,
        env.now + 500 <= u64::MAX,
    ensures
        after_prefix(c, key, press, env).out == c.out.push(
            to_active(c, RequestV::Command(resize_line(key.code)->0)),
        ),
        after_prefix(c, key, press, env).ui.mode is Resize,
        after_prefix(c, key, press, env).ui.resize_deadline == Some((env.now + 500) as u64),
{
    reveal(keyboard::prefix_action);
    let d = lemma_behind_prefix(c, key, press, env);
}

/// While panes are resized every further Alt with a direction resizes the pane that way, and puts
/// the end of it off.
pub proof fn law_resizing_goes_on(c: ClientV, key: KeyEvent, press: bool, env: EnvV)
    requires
        c.wf(),
        c.ui.mode is Resize,
        !c.ui.prefix_pending,
        resize_line(key.code) is Some,
        key.modifiers.alt,
        !key.modifiers.control,
        !key.modifiers.shift,
        env.now + 500 <= u64::MAX,
    ensures
        keyboard::on_key(c, key, press, env).out == c.out.push(
            to_active(c, RequestV::Command(resize_line(key.code)->0)),
        ),
        keyboard::on_key(c, key, press, env).ui.mode is Resize,
        keyboard::on_key(c, key, press, env).ui.resize_deadline == Some((env.now + 500) as u64),
{
    reveal(keyboard::mode_key);
    reveal(keyboard::resize_key);
}

/// Escape ends resizing, and asks nothing of anyone.
pub proof fn law_escape_ends_resizing(c: ClientV, key: KeyEvent, press: bool, env: EnvV)
    requires
        c.wf(),
        c.ui.mode is Resize,
        !c.ui.prefix_pending,
        key.code == KeyCode::Esc,
    ensures
        keyboard::on_key(c, key, press, env).out == c.out,
        keyboard::on_key(c, key, press, env).ui.mode is Normal,
        keyboard::on_key(c, key, press, env).ui.resize_deadline is None,
{
    reveal(keyboard::mode_key);
    reveal(keyboard::resize_key);
}

/// Prefix and m opens the floating tree, and prefix and M shows or hides the sidebar.
pub proof fn law_m_shows_the_tree(c: ClientV, press: bool, env: EnvV)
    requires
        at_rest(c),
    ensures
        !c.ui.popup ==> after_prefix(c, bare(KeyCode::Char('m')), press, env).ui.popup,
        !c.ui.popup ==> after_prefix(c, bare(KeyCode::Char('m')), press, env).ui.mode is Navigator,
        after_prefix(c, bare(KeyCode::Char('m')), press, env).out == c.out,
        after_prefix(c, bare(KeyCode::Char('m')), press, env).ws == c.ws,
        after_prefix(c, bare(KeyCode::Char('M')), press, env).ws.sidebar == !c.ws.sidebar,
{
    reveal(keyboard::mode_key);
    reveal(keyboard::normal_key);
    reveal(keyboard::popup_toggled);
    reveal(keyboard::sidebar_toggled);
    let a = keyboard::on_key(c, control_a(), press, env);
    assert(a.ui.mode is Prefix && a.ui.prefix_pending && a.out == c.out && a.ws == c.ws);
    assert(a.ui.popup == c.ui.popup);
    let d = keyboard::prefix_noted(a, bare(KeyCode::Char('M')));
    let e = state::with_ui(d, UiV { popup: false, ..d.ui });
    let shown = state::unfocused(
        ClientV { ws: ManagerV { sidebar: !c.ws.sidebar, ..e.ws }, ..e },
    );
    state::lemma_asked_all(
        shown,
        RequestV::Resize(state::server_size(env, !c.ws.sidebar)),
        shown.ws.list.len() as int,
    );
}

/// The direction that a key names: left for h and the left arrow, down for j, up for k and right
/// for l.
pub open spec fn way(code: KeyCode) -> Option<NavDir> {
    match code {
        KeyCode::Char('h') | KeyCode::Left => Some(NavDir::Left),
        KeyCode::Char('j') | KeyCode::Down => Some(NavDir::Down),
        KeyCode::Char('k') | KeyCode::Up => Some(NavDir::Up),
        KeyCode::Char('l') | KeyCode::Right => Some(NavDir::Right),
        _ => None,
    }
}

/// Prefix and a direction: where a pane lies that way of the current one, the active workspace is
/// asked to select such a pane, and that pane is kept in mind; where none does, left goes to the
/// tree in the sidebar and the other directions do nothing.
pub proof fn law_direction_moves_to_the_pane_there(
    c: ClientV,
    code: KeyCode,
    press: bool,
    env: EnvV,
    at: int,
)
    requires
        at_rest(c),
        way(code) is Some,
        visual::current_of(places::kept_target(c), places::screen_hits(c, env)) matches Some(t) && visual_laws::first_with_target(
            places::screen_hits(c, env),
            t,
            at,
        ),
    ensures
        ({
            let d = after_prefix(c, bare(code), press, env);
            let hits = places::screen_hits(c, env);
            let dir = way(code)->0;
            let current = hits[at].target;
            let n = c.out.len() as int;
            let there = exists|j: int|
                0 <= j < hits.len() && visual_laws::lies_that_way(
                    #[trigger] hits[j],
                    current,
                    hits[at].rect,
                    dir,
                );
            &&& there ==> exists|i: int|
                0 <= i < hits.len() && visual_laws::lies_that_way(
                    #[trigger] hits[i],
                    current,
                    hits[at].rect,
                    dir,
                ) && d.ws.list[d.ws.active as int].focus == Some(hits[i].target->pane_id)
                    && d.ws.active == c.ws.active && d.ui.mode is Normal && d.out.len() == n + 1
                    && d.out.take(n) == c.out && (d.out[n] matches EffectV::Ask {
                    workspace,
                    request: RequestV::Command(line),
                } && workspace == c.ws.active && commands::line_commands(line) == seq![
                    command_laws::targeting("select-pane"@, seq!['%'] + text::decimal(hits[i].target->pane_id as nat)),
                ]) && forall|j: int|
                    0 <= j < hits.len() && visual_laws::lies_that_way(
                        #[trigger] hits[j],
                        current,
                        hits[at].rect,
                        dir,
                    ) ==> visual_laws::no_worse(hits[at].rect, hits[i].rect, hits[j].rect, dir)
            &&& !there && dir == NavDir::Left ==> d.ui.mode is Navigator && d.ws.sidebar
            &&& !there && dir != NavDir::Left ==> d.out == c.out && d.ws == c.ws && d.ui.mode
                is Normal
        }),
{
    reveal(keyboard::prefix_action);
    let key = bare(code);
    let b = lemma_behind_prefix(c, key, press, env);
    let hits = places::screen_hits(c, env);
    let dir = way(code)->0;
    let current = hits[at].target;
    assert(keys::nav_dir(key) == Some(dir));
    assert(places::screen_hits(b, env) == hits);
    assert(places::kept_target(b) == places::kept_target(c));
    visual_laws::law_neighbor_lies_that_way(hits, current, at, dir);
    let d = after_prefix(c, key, press, env);
    match visual::neighbor(hits, current, dir) {
        Some(next) => {
            command_laws::law_pane_selection_is_read(next->pane_id as nat);
            assert(d.out.take(c.out.len() as int) =~= c.out);
        },
        None => {
            if dir == NavDir::Left && !c.ws.sidebar {
                let s = state::in_mode(places::nav_synced(b, env), ModeV::Navigator);
                let shown = state::unfocused(ClientV { ws: ManagerV { sidebar: true, ..s.ws }, ..s });
                state::lemma_asked_all(
                    shown,
                    RequestV::Resize(state::server_size(env, true)),
                    shown.ws.list.len() as int,
                );
            }
        },
    }
}

/// Prefix twice sends Control and a once to the program in the pane.
pub proof fn law_prefix_twice(c: ClientV, press: bool, env: EnvV)
    requires
        at_rest(c),
    ensures
        after_prefix(c, control_a(), press, env).out == c.out.push(
            to_active(c, RequestV::Input(seq![1u8])),
        ),
        after_prefix(c, control_a(), press, env).ui.mode is Normal,
{
    reveal(keyboard::mode_key);
    reveal(keyboard::normal_key);
    reveal(keyboard::prefix_mode_key);
    key_laws::law_control_sends_the_number(control_a(), 'a');
}

/// Where a pane is scrolled back, Escape and q go back to its end and are not sent to the program.
pub proof fn law_escape_goes_back_to_the_end(c: ClientV, press: bool, env: EnvV)
    requires
        at_rest(c),
        c.ui.scrolled,
    ensures
        keyboard::on_key(c, bare(KeyCode::Esc), press, env).out == c.out.push(
            to_active(c, RequestV::DisplayBottom),
        ),
        keyboard::on_key(c, bare(KeyCode::Char('q')), press, env).out == c.out.push(
            to_active(c, RequestV::DisplayBottom),
        ),
        !keyboard::on_key(c, bare(KeyCode::Esc), press, env).ui.scrolled,
        !keyboard::on_key(c, bare(KeyCode::Char('q')), press, env).ui.scrolled,
{
    reveal(keyboard::mode_key);
    reveal(keyboard::normal_key);
}

} // verus!
