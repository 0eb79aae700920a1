//! What holds of the client across several keys or nodes.

use crate::client::keyboard;
use crate::client::mouse;
use crate::client::places;
use crate::client::remotes;
use crate::client::state;
use crate::client::ticks;
use crate::client::tree;
use crate::keys;
use crate::client::actions::{EffectV, RequestV};
use crate::client::state::{ClientV, ConnectionV, EnvV, ManagerV, UiV};
use crate::keys::{KeyCode, KeyEvent, MouseEvent};
use crate::navigation::{EntryV, NavigationNodeKind, NodeV};
use vstd::prelude::*;

verus! {

/// Whether what was to be done before is still to be done, and everything that came to it is one
/// of the effects that `pred` picks.
pub open spec fn only_adds(before: Seq<EffectV>, after: Seq<EffectV>, pred: spec_fn(EffectV) -> bool) -> bool {
    &&& before.len() <= after.len()
    &&& after.take(before.len() as int) == before
    &&& forall|k: int| before.len() <= k < after.len() ==> pred(#[trigger] after[k])
}

proof fn lemma_adds_one(before: Seq<EffectV>, after: Seq<EffectV>, e: EffectV, pred: spec_fn(EffectV) -> bool)
    requires
        only_adds(before, after, pred),
        pred(e),
    ensures
        only_adds(before, after.push(e), pred),
{
    assert(after.push(e).take(before.len() as int) =~= after.take(before.len() as int));
}

/// The floating tree is opened and closed without a word to any server: no workspace is left, no
/// machine forgotten, nothing resized.
pub proof fn law_popup_asks_nothing(c: ClientV, env: EnvV)
    ensures
        keyboard::popup_toggled(c, env).out == c.out,
        keyboard::popup_toggled(c, env).ws == c.ws,
        keyboard::popup_toggled(c, env).remotes == c.remotes,
        keyboard::popup_toggled(c, env).ui.popup == !c.ui.popup,
{
    reveal(keyboard::popup_toggled);
}

/// Opening the floating tree over a command that is being typed, and closing it again, gives the
/// command back as it was.
pub proof fn law_popup_gives_the_command_back(
    c: ClientV,
    prefix: KeyEvent,
    m: KeyEvent,
    press: bool,
    env: EnvV,
)
    requires
        c.ui.mode is Command,
        !c.ui.popup,
        !c.ui.prefix_pending,
        keyboard::prefix_key(prefix),
        keyboard::popup_key(m),
    ensures
        ({
            let open = keyboard::on_key(keyboard::on_key(c, prefix, press, env), m, press, env);
            let closed = keyboard::on_key(keyboard::on_key(open, prefix, press, env), m, press, env);
            &&& open.ui.popup
            &&& open.ui.mode is Navigator
            &&& !closed.ui.popup
            &&& closed.ui.mode == c.ui.mode
            &&& closed.out == c.out
            &&& closed.ws == c.ws
        }),
{
    reveal(keyboard::popup_toggled);
    reveal(keyboard::mode_key);
    reveal(keyboard::prompt_mode_key);
    reveal(keyboard::command_mode_key);
    reveal(keyboard::navigator_key);
    let a = keyboard::on_key(c, prefix, press, env);
    assert(a.ui.prefix_pending && a.ui.prefix_origin == c.ui.mode && !a.ui.popup);
    assert(a.out == c.out && a.ws == c.ws);
    let open = keyboard::on_key(a, m, press, env);
    assert(open.ui.popup && open.ui.popup_return == c.ui.mode && open.ui.mode is Navigator);
    assert(!open.ui.prefix_pending);
    let b = keyboard::on_key(open, prefix, press, env);
    assert(b.ui.prefix_pending && b.ui.popup && b.ui.popup_return == c.ui.mode);
}

/// Showing the sidebar over a command that is being typed, or taking it away, keeps the command.
pub proof fn law_sidebar_keeps_the_command(
    c: ClientV,
    prefix: KeyEvent,
    m: KeyEvent,
    press: bool,
    env: EnvV,
)
    requires
        c.ui.mode is Command,
        !c.ui.prefix_pending,
        keyboard::prefix_key(prefix),
        keys::shifted_letter(m, 'M'),
        !keyboard::popup_key(m),
    ensures
        ({
            let r = keyboard::on_key(keyboard::on_key(c, prefix, press, env), m, press, env);
            &&& r.ui.mode == c.ui.mode
            &&& r.ws.sidebar == !c.ws.sidebar
        }),
{
    reveal(keyboard::sidebar_toggled);
    reveal(keyboard::mode_key);
    reveal(keyboard::prompt_mode_key);
    reveal(keyboard::command_mode_key);
    let a = keyboard::on_key(c, prefix, press, env);
    assert(a.ui.prefix_pending && a.ui.prefix_origin == c.ui.mode);
    assert(a.ws == c.ws);
    let d = state::with_ui(keyboard::prefix_noted(a, m), UiV { popup: false, ..keyboard::prefix_noted(a, m).ui });
    let shown = state::unfocused(ClientV { ws: ManagerV { sidebar: !c.ws.sidebar, ..d.ws }, ..d });
    state::lemma_asked_all(
        shown,
        RequestV::Resize(state::server_size(env, !c.ws.sidebar)),
        shown.ws.list.len() as int,
    );
}

/// Whether an effect only asks a server for a size or to draw anew.
pub open spec fn only_size(e: EffectV) -> bool {
    match e {
        EffectV::Ask { request: RequestV::Resize(_), .. } => true,
        EffectV::Ask { request: RequestV::RefreshDisplay, .. } => true,
        _ => false,
    }
}

proof fn lemma_asked_all_adds(
    c: ClientV,
    request: RequestV,
    n: int,
    before: Seq<EffectV>,
    pred: spec_fn(EffectV) -> bool,
)
    requires
        only_adds(before, c.out, pred),
        forall|workspace: usize| #[trigger] pred(EffectV::Ask { workspace, request }),
    ensures
        only_adds(before, state::asked_all(c, request, n).out, pred),
    decreases n,
{
    if n > 0 {
        lemma_asked_all_adds(c, request, n - 1, before, pred);
        let e = EffectV::Ask { workspace: (n - 1) as usize, request };
        assert(pred(e));
        lemma_adds_one(before, state::asked_all(c, request, n - 1).out, e, pred);
    }
}

/// Whether every workspace and machine is left as it was, and the servers are only told their size,
/// and to draw anew.
pub open spec fn only_resized(c: ClientV, r: ClientV) -> bool {
    &&& r.remotes == c.remotes
    &&& r.ws.list.len() == c.ws.list.len()
    &&& r.ws.active == c.ws.active
    &&& forall|i: int|
        #![trigger r.ws.list[i]]
        0 <= i < c.ws.list.len() ==> r.ws.list[i].socket == c.ws.list[i].socket
            && r.ws.list[i].machine == c.ws.list[i].machine
    &&& only_adds(c.out, r.out, |e: EffectV| only_size(e))
}

proof fn lemma_sidebar_only_resizes(c: ClientV, visible: bool, env: EnvV)
    requires
        c.wf(),
    ensures
        only_resized(c, state::sidebar_set(c, visible, env)),
        state::sidebar_set(c, visible, env).ui == c.ui,
        state::sidebar_set(c, visible, env).ws.sidebar == visible,
{
    assert(c.out.take(c.out.len() as int) =~= c.out);
    if c.ws.sidebar != visible {
        let pred = |e: EffectV| only_size(e);
        let shown = state::unfocused(ClientV { ws: ManagerV { sidebar: visible, ..c.ws }, ..c });
        let request = RequestV::Resize(state::server_size(env, visible));
        let n = shown.ws.list.len() as int;
        state::lemma_asked_all(shown, request, n);
        lemma_asked_all_adds(shown, request, n, c.out, pred);
        let told = state::asked_all(shown, request, n);
        let last = EffectV::Ask { workspace: told.ws.active, request: RequestV::RefreshDisplay };
        assert(pred(last));
        lemma_adds_one(c.out, told.out, last, pred);
    }
}

/// Showing the sidebar or taking it away leaves every workspace and machine as it is: the servers
/// are only told their size, and to draw anew.
pub proof fn law_sidebar_only_resizes(c: ClientV, env: EnvV)
    requires
        c.wf(),
    ensures
        only_resized(c, keyboard::sidebar_toggled(c, env)),
        keyboard::sidebar_toggled(c, env).ws.sidebar == !c.ws.sidebar,
{
    reveal(keyboard::sidebar_toggled);
    lemma_sidebar_only_resizes(
        state::with_ui(c, UiV { popup: false, ..c.ui }),
        !c.ws.sidebar,
        env,
    );
}

/// Escape or `q` in the sidebar takes it away and gives the input back to the panes. Nothing is
/// closed by it: the servers are only told their size, and to draw anew.
pub proof fn law_leaving_the_sidebar_only_resizes(c: ClientV, key: KeyEvent, press: bool, env: EnvV)
    requires
        c.wf(),
        c.ui.mode is Navigator,
        !c.ui.popup,
        key.code == KeyCode::Esc || key.code == KeyCode::Char('q'),
    ensures
        only_resized(c, keyboard::on_key(c, key, press, env)),
        keyboard::on_key(c, key, press, env).ui.mode is Normal,
        !keyboard::on_key(c, key, press, env).ws.sidebar,
{
    reveal(keyboard::mode_key);
    reveal(keyboard::navigator_key);
    reveal(keyboard::tree_key);
    lemma_sidebar_only_resizes(keyboard::prefix_noted(c, key), false, env);
}

/// Whether an effect takes leave of a server without ending anything there.
pub open spec fn only_leaves(e: EffectV) -> bool {
    match e {
        EffectV::Ask { request: RequestV::Detach, .. } => true,
        EffectV::Drop { .. } => true,
        _ => false,
    }
}

proof fn lemma_closing_leaves(c: ClientV, before: Seq<EffectV>)
    requires
        only_adds(before, c.out, |e: EffectV| only_leaves(e)),
    ensures
        only_adds(before, tree::active_closed(c).out, |e: EffectV| only_leaves(e)),
{
    let pred = |e: EffectV| only_leaves(e);
    let ask = EffectV::Ask { workspace: c.ws.active, request: RequestV::Detach };
    let drop = EffectV::Drop { workspace: c.ws.active };
    assert(pred(ask) && pred(drop));
    lemma_adds_one(before, c.out, ask, pred);
    lemma_adds_one(before, c.out.push(ask), drop, pred);
}

proof fn lemma_machine_closing_leaves(c: ClientV, machine: Seq<char>, before: Seq<EffectV>)
    requires
        only_adds(before, c.out, |e: EffectV| only_leaves(e)),
    ensures
        only_adds(before, tree::machine_closed(c, machine).out, |e: EffectV| only_leaves(e)),
    decreases c.ws.list.len(),
{
    if let Some(i) = places::machine_ws(c.ws.list, machine, 0) {
        let there = places::made_active(c, i);
        lemma_closing_leaves(there, before);
        let d = tree::active_closed(there);
        if !(d.ws.list.len() == 0 || d.ws.list.len() >= c.ws.list.len()) {
            lemma_machine_closing_leaves(d, machine, before);
        }
    }
}

/// Closing a workspace or a machine ends nothing: its servers are only taken leave of, and can be
/// attached to again.
pub proof fn law_closing_leaves_servers_running(c: ClientV, e: EntryV, env: EnvV)
    requires
        e.id is Workspace || e.id is Machine,
    ensures
        only_adds(c.out, tree::node_closed(c, e, env).0.out, |x: EffectV| only_leaves(x)),
{
    assert(c.out.take(c.out.len() as int) =~= c.out);
    match e.id {
        NodeV::Workspace { machine, workspace } => {
            if let Some(i) = tree::workspace_at(c.ws.list, machine, workspace, 0) {
                lemma_closing_leaves(places::made_active(c, i), c.out);
            }
        },
        NodeV::Machine(id) => {
            lemma_machine_closing_leaves(c, id, c.out);
        },
        _ => {},
    }
}

/// The local machine cannot be closed.
pub proof fn law_local_machine_stays(c: ClientV, e: EntryV, env: EnvV)
    requires
        e.id == NodeV::Machine("local"@),
    ensures
        tree::close_block(c.entries, e.id) is Some,
        tree::node_closed(c, e, env).0 == c,
        tree::node_closed(c, e, env).1 is Failed,
{
}

proof fn lemma_socket_found(list: Seq<ConnectionV>, socket: Seq<char>, from: int)
    requires
        0 <= from,
    ensures
        match places::socket_at(list, socket, from) {
            Some(i) => from <= i < list.len() && list[i].socket == socket,
            None => true,
        },
    decreases list.len() - from,
{
    if from < list.len() && list[from].socket != socket {
        lemma_socket_found(list, socket, from + 1);
    }
}

/// Going to a node goes to the workspace that owns it, and every request on the way goes there.
pub proof fn law_opening_goes_to_the_owner(c: ClientV, id: NodeV, env: EnvV)
    requires
        c.ws.list.len() <= usize::MAX,
    ensures
        places::activated(c, id, env) matches Some(d) ==> {
            &&& d.wf()
            &&& Some(state::active_ws(d).socket) == id.workspace()
            &&& only_adds(
                c.out,
                d.out,
                |e: EffectV| e matches EffectV::Ask { workspace, .. } && workspace == d.ws.active,
            )
        },
{
    if let Some(d) = places::activated(c, id, env) {
        let pred = |e: EffectV|
            e matches EffectV::Ask { workspace, .. } && workspace == d.ws.active;
        let socket = id.workspace()->0;
        lemma_socket_found(c.ws.list, socket, 0);
        let i = places::socket_at(c.ws.list, socket, 0)->0;
        assert(c.out.take(c.out.len() as int) =~= c.out);
        let there = places::made_active(c, i);
        let size = EffectV::Ask {
            workspace: there.ws.active,
            request: RequestV::Resize(state::server_size(env, c.ws.sidebar)),
        };
        lemma_adds_one(c.out, c.out, size, pred);
        let first = c.out.push(size);
        let second = match places::switch_command(id) {
            Some(command) => {
                let go = EffectV::Ask {
                    workspace: there.ws.active,
                    request: RequestV::Command(command),
                };
                lemma_adds_one(c.out, first, go, pred);
                first.push(go)
            },
            None => first,
        };
        let tree = EffectV::Ask { workspace: there.ws.active, request: RequestV::RefreshTree };
        lemma_adds_one(c.out, second, tree, pred);
    }
}

/// Whether an effect takes leave of a server or ends the client.
pub open spec fn detaches(e: EffectV) -> bool {
    match e {
        EffectV::Ask { request: RequestV::Detach, .. } => true,
        EffectV::Quit => true,
        _ => false,
    }
}

/// Detaching ends the client and takes leave of every server, and asks nothing else of any: what
/// runs there goes on.
pub proof fn law_detaching_keeps_servers_running(c: ClientV, key: KeyEvent, env: EnvV)
    requires
        keyboard::plain_char(key, 'd'),
    ensures
        only_adds(c.out, keyboard::prefix_action(c, key, env).out, |e: EffectV| detaches(e)),
        keyboard::prefix_action(c, key, env).out.len() == c.out.len() + c.ws.list.len() + 1,
        keyboard::prefix_action(c, key, env).out.last() == EffectV::Quit,
{
    reveal(keyboard::prefix_action);
    let pred = |e: EffectV| detaches(e);
    let n = c.ws.list.len() as int;
    assert(c.out.take(c.out.len() as int) =~= c.out);
    lemma_asked_all_adds(c, RequestV::Detach, n, c.out, pred);
    lemma_asked_all_count(c, RequestV::Detach, n);
    assert(pred(EffectV::Quit));
    lemma_adds_one(c.out, state::asked_all(c, RequestV::Detach, n).out, EffectV::Quit, pred);
}

proof fn lemma_asked_all_count(c: ClientV, request: RequestV, n: int)
    requires
        n >= 0,
    ensures
        state::asked_all(c, request, n).out.len() == c.out.len() + n,
    decreases n,
{
    if n > 0 {
        lemma_asked_all_count(c, request, n - 1);
    }
}

/// The prefix key pressed twice goes to the program in the pane once, as control and `a`, and the
/// panes have the input again.
pub proof fn law_prefix_twice_is_sent(c: ClientV, first: KeyEvent, second: KeyEvent, press: bool, env: EnvV)
    requires
        c.ui.mode is Normal,
        keyboard::prefix_key(first),
        keyboard::prefix_key(second),
    ensures
        ({
            let r = keyboard::on_key(keyboard::on_key(c, first, press, env), second, press, env);
            &&& r.ui.mode is Normal
            &&& r.ws == c.ws
            &&& r.out == c.out.push(
                EffectV::Ask { workspace: c.ws.active, request: RequestV::Input(seq![1u8]) },
            )
        }),
{
    reveal(keyboard::mode_key);
    reveal(keyboard::normal_key);
    reveal(keyboard::prefix_mode_key);
    let text = keys::key_text(second);
    assert(text =~= seq!['\x01']);
    vstd::utf8::is_ascii_chars_encode_utf8(text);
    assert(vstd::utf8::encode_utf8(text) =~= seq![1u8]);
}

/// A key that means nothing to the client goes to the program in the pane, and nothing else
/// happens.
pub proof fn law_other_keys_are_sent(c: ClientV, key: KeyEvent, press: bool, env: EnvV)
    requires
        c.ui.mode is Normal,
        !keyboard::prefix_key(key),
        c.ui.prefix_pending ==> !keyboard::popup_key(key) && !keys::shifted_letter(key, 'M'),
        c.ui.scrolled ==> key.code != KeyCode::Esc && !keyboard::plain_char(key, 'q'),
        !(c.ui.copy_exit_pending && keyboard::frame_copying(env)),
        !(press && keys::cloud_paste(key)),
        keys::key_text(key).len() > 0,
    ensures
        ({
            let r = keyboard::on_key(c, key, press, env);
            let bytes = vstd::utf8::encode_utf8(keys::key_text(key));
            &&& r.ui.mode is Normal
            &&& r.ws == c.ws
            &&& r.out == c.out.push(
                EffectV::Ask { workspace: c.ws.active, request: RequestV::Input(bytes) },
            )
        }),
{
    reveal(keyboard::mode_key);
    reveal(keyboard::normal_key);
}

/// A prefix key waits for the key that follows it, however long that takes: neither a new round
/// nor a time that has run out ends it, and of what a frame shows only the end of its server.
pub proof fn law_prefix_waits(c: ClientV, gone: Seq<bool>, env: EnvV)
    requires
        c.ui.mode is Prefix,
    ensures
        ticks::round_begun(c, env.now).ui.mode is Prefix,
        ticks::timed_out(c, env.now).ui.mode is Prefix,
        (env.frame matches Some(fd) ==> !fd.exit) ==> ticks::frame_seen(c, gone, env).ui.mode is Prefix,
{
    let d = ticks::popup_kept(c);
    let ids = remotes::due_ids(d.remotes, env.now, d.remotes.len() as int);
    lemma_probing_keeps_ui(d, ids, ids.len() as int);
    reveal(ticks::dead_cleared);
    reveal(ticks::copy_synced);
    lemma_dropping_keeps_ui(ticks::suppression_kept(c, env.counter), gone, 0, env.now);
}

proof fn lemma_probing_keeps_ui(c: ClientV, ids: Seq<Seq<char>>, n: int)
    ensures
        ticks::all_probed(c, ids, n).ui == c.ui,
    decreases n,
{
    if n > 0 {
        lemma_probing_keeps_ui(c, ids, n - 1);
    }
}

proof fn lemma_dropping_keeps_ui(c: ClientV, gone: Seq<bool>, i: int, now: u64)
    ensures
        ticks::dead_dropped(c, gone, i, now).0.ui == c.ui,
    decreases c.ws.list.len() - i,
{
    if 0 <= i < c.ws.list.len() {
        if i != c.ws.active && i < gone.len() && gone[i] {
            let d = ticks::loss_noted(
                ticks::inactive_dropped(c, i),
                c.ws.list[i].machine,
                "remote connection closed"@,
                now,
            );
            lemma_dropping_keeps_ui(d, gone.remove(i), i, now);
        } else {
            lemma_dropping_keeps_ui(c, gone, i + 1, now);
        }
    }
}

/// The floating tree left by Escape, by `q` or by a click beside it gives back what had the input,
/// a command with all that was typed of it, and no server learns of it.
pub proof fn law_leaving_the_popup_gives_back(
    c: ClientV,
    key: KeyEvent,
    mouse: MouseEvent,
    press: bool,
    env: EnvV,
)
    requires
        c.ui.popup,
        c.ui.mode is Navigator,
        key.code == KeyCode::Esc || key.code == KeyCode::Char('q'),
        mouse::is_left_down(mouse),
        !mouse::tree_area(c, env).has(mouse.column as int, mouse.row as int),
    ensures
        ({
            let r = keyboard::on_key(c, key, press, env);
            &&& !r.ui.popup
            &&& r.ui.mode == c.ui.popup_return
            &&& r.out == c.out
            &&& r.ws == c.ws
        }),
        ({
            let r = mouse::on_mouse(c, mouse, env);
            &&& !r.ui.popup
            &&& r.ui.mode == c.ui.popup_return
            &&& r.out == c.out
            &&& r.ws == c.ws
        }),
{
    reveal(keyboard::mode_key);
    reveal(keyboard::navigator_key);
    reveal(keyboard::tree_key);
}

/// A node that can be gone to takes the input to the workspace that owns it when it is opened, and
/// the floating tree is gone with the next round.
pub proof fn law_opening_closes_the_popup(c: ClientV, e: EntryV, env: EnvV, now: u64)
    requires
        c.ws.list.len() <= usize::MAX,
        e.kind != NavigationNodeKind::Machine,
        places::activated(c, e.id, env) is Some,
    ensures
        ({
            let d = tree::opened(c, e, env);
            &&& d.ui.mode is Normal
            &&& Some(state::active_ws(d).socket) == e.id.workspace()
            &&& !ticks::round_begun(d, now).ui.popup
            &&& ticks::round_begun(d, now).ui.mode is Normal
        }),
{
    reveal(tree::opened);
    law_opening_goes_to_the_owner(c, e.id, env);
    let d = ticks::popup_kept(tree::opened(c, e, env));
    let ids = remotes::due_ids(d.remotes, now, d.remotes.len() as int);
    lemma_probing_keeps_ui(d, ids, ids.len() as int);
}

} // verus!
