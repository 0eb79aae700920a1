//! What going to a node of the tree asks of its workspace.

use crate::client::places;
use crate::client::state;
use crate::client::tree;
use crate::command_laws;
use crate::commands;
use crate::key_laws;
use crate::text;
use crate::client::actions::{EffectV, RequestV};
use crate::client::state::{ClientV, ConnectionV, EnvV};
use crate::commands::CommandV;
use crate::navigation::{EntryV, NavigationNodeKind, NodeV};
use vstd::prelude::*;

verus! {

/// What a server is told to do to show a node: switch to its session, select its window and select
/// its pane, as far as the node is that deep.
pub open spec fn steps_to(node: NodeV) -> Seq<CommandV> {
    match node {
        NodeV::Session { name, .. } => seq![command_laws::targeting("switch-client"@, name)],
        NodeV::Window { session, index, .. } => seq![
            command_laws::targeting("switch-client"@, session),
            command_laws::targeting("select-window"@, text::decimal(index as nat)),
        ],
        NodeV::Pane { session, window, pane_id, .. } => seq![
            command_laws::targeting("switch-client"@, session),
            command_laws::targeting("select-window"@, text::decimal(window as nat)),
            command_laws::targeting("select-pane"@, seq!['%'] + text::decimal(pane_id as nat)),
        ],
        _ => Seq::empty(),
    }
}

/// The session that a node is in.
pub open spec fn session_in(node: NodeV) -> Option<Seq<char>> {
    match node {
        NodeV::Session { name, .. } => Some(name),
        NodeV::Window { session, .. } => Some(session),
        NodeV::Pane { session, .. } => Some(session),
        _ => None,
    }
}

/// The command line that goes to a node is read by a server as the steps to that node.
pub proof fn law_switch_is_read_as_its_steps(node: NodeV)
    requires
        session_in(node) matches Some(s) && s.len() > 0,
    ensures
        places::switch_command(node) matches Some(line) && commands::line_commands(line) == steps_to(node),
{
    match node {
        NodeV::Session { name, .. } => {
            command_laws::law_session_switch_is_read(name);
        },
        NodeV::Window { session, index, .. } => {
            command_laws::law_window_switch_is_read(session, index as nat);
        },
        NodeV::Pane { session, window, pane_id, .. } => {
            command_laws::law_pane_switch_is_read(session, window as nat, pane_id as nat);
        },
        _ => {},
    }
}

proof fn lemma_target(name: Seq<char>, target: Seq<char>)
    ensures
        command_laws::targeting(name, target).flags[seq!['t']] == Some(target),
{
}

proof fn lemma_decimals_differ(a: nat, b: nat)
    requires
        a != b,
    ensures
        text::decimal(a) != text::decimal(b),
        seq!['%'] + text::decimal(a) != seq!['%'] + text::decimal(b),
{
    key_laws::law_decimal_is_read_back(a);
    key_laws::law_decimal_is_read_back(b);
    assert((seq!['%'] + text::decimal(a)).skip(1) =~= text::decimal(a));
    assert((seq!['%'] + text::decimal(b)).skip(1) =~= text::decimal(b));
}

/// Two nodes are gone to by the same command line only if they are as deep, in the same session, in
/// the same window and the same pane.
pub proof fn law_different_nodes_different_lines(a: NodeV, b: NodeV)
    requires
        session_in(a) matches Some(s) && s.len() > 0,
        session_in(b) matches Some(s) && s.len() > 0,
        places::switch_command(a) == places::switch_command(b),
    ensures
        session_in(a) == session_in(b),
        a is Session <==> b is Session,
        a is Window <==> b is Window,
        a is Window && b is Window ==> a->index == b->index,
        a is Pane && b is Pane ==> a->window == b->window && a->pane_id == b->pane_id,
{
    law_switch_is_read_as_its_steps(a);
    law_switch_is_read_as_its_steps(b);
    let x = steps_to(a);
    let y = steps_to(b);
    assert(x == y);
    assert(x.len() == y.len());
    assert(x[0] == y[0]);
    lemma_target("switch-client"@, session_in(a)->0);
    lemma_target("switch-client"@, session_in(b)->0);
    if a is Window && a->index != b->index {
        lemma_decimals_differ(a->index as nat, b->index as nat);
        lemma_target("select-window"@, text::decimal(a->index as nat));
        lemma_target("select-window"@, text::decimal(b->index as nat));
        assert(x[1] == y[1]);
    }
    if a is Pane && a->window != b->window {
        lemma_decimals_differ(a->window as nat, b->window as nat);
        lemma_target("select-window"@, text::decimal(a->window as nat));
        lemma_target("select-window"@, text::decimal(b->window as nat));
        assert(x[1] == y[1]);
    }
    if a is Pane && a->pane_id != b->pane_id {
        lemma_decimals_differ(a->pane_id as nat, b->pane_id as nat);
        lemma_target("select-pane"@, seq!['%'] + text::decimal(a->pane_id as nat));
        lemma_target("select-pane"@, seq!['%'] + text::decimal(b->pane_id as nat));
        assert(x[2] == y[2]);
    }
}

proof fn lemma_socket_at(list: Seq<ConnectionV>, socket: Seq<char>, from: int)
    requires
        0 <= from,
    ensures
        places::socket_at(list, socket, from) matches Some(i) ==> from <= i < list.len() && list[i].socket
            == socket && forall|j: int| from <= j < i ==> (#[trigger] list[j]).socket != socket,
        places::socket_at(list, socket, from) is None ==> forall|j: int|
            from <= j < list.len() ==> (#[trigger] list[j]).socket != socket,
    decreases list.len() - from,
{
    if from < list.len() && list[from].socket != socket {
        lemma_socket_at(list, socket, from + 1);
    }
}

/// The place of a node's workspace among the workspaces: the first that has its socket.
pub open spec fn first_with_socket(list: Seq<ConnectionV>, socket: Seq<char>, i: int) -> bool {
    &&& 0 <= i < list.len()
    &&& list[i].socket == socket
    &&& forall|j: int| 0 <= j < i ==> (#[trigger] list[j]).socket != socket
}

/// Going to a node of a session makes the node's workspace the active one and asks three things of
/// it, in this order: to take the screen's size, to carry out a command line that it reads as the
/// steps to the node, and to send its tree anew. Where no workspace has the node's socket, nothing
/// is done.
pub proof fn law_going_to_a_node(c: ClientV, node: NodeV, env: EnvV)
    requires
        c.wf(),
        c.ws.list.len() <= usize::MAX,
        session_in(node) matches Some(s) && s.len() > 0,
    ensures
        places::activated(c, node, env) is None <==> forall|j: int|
            0 <= j < c.ws.list.len() ==> Some((#[trigger] c.ws.list[j]).socket) != node.workspace(),
        places::activated(c, node, env) matches Some(d) ==> {
            let n = c.out.len() as int;
            &&& first_with_socket(c.ws.list, node.workspace()->0, d.ws.active as int)
            &&& d.out.len() == n + 3
            &&& d.out.take(n) == c.out
            &&& d.out[n] == (EffectV::Ask {
                workspace: d.ws.active,
                request: RequestV::Resize(state::server_size(env, c.ws.sidebar)),
            })
            &&& d.out[n + 1] matches EffectV::Ask { workspace, request: RequestV::Command(line) }
                && workspace == d.ws.active && commands::line_commands(line) == steps_to(node)
            &&& d.out[n + 2] == (EffectV::Ask {
                workspace: d.ws.active,
                request: RequestV::RefreshTree,
            })
            &&& d.ui == c.ui
            &&& d.nav == c.nav
            &&& d.ws.list.len() == c.ws.list.len()
            &&& d.ws.list[d.ws.active as int].focus is None
            &&& forall|j: int|
                0 <= j < c.ws.list.len() && j != d.ws.active ==> #[trigger] d.ws.list[j]
                    == c.ws.list[j]
        },
{
    let socket = node.workspace()->0;
    lemma_socket_at(c.ws.list, socket, 0);
    law_switch_is_read_as_its_steps(node);
    if let Some(d) = places::activated(c, node, env) {
        let n = c.out.len() as int;
        assert(d.out.take(n) =~= c.out);
    }
}

/// Going to a workspace asks it to take the screen's size and to send its tree anew, and sends no
/// command.
pub proof fn law_going_to_a_workspace(
    c: ClientV,
    machine: Seq<char>,
    workspace: Seq<char>,
    env: EnvV,
)
    requires
        c.wf(),
        c.ws.list.len() <= usize::MAX,
    ensures
        places::activated(c, (NodeV::Workspace { machine, workspace }), env) matches Some(d) ==> {
            &&& first_with_socket(c.ws.list, workspace, d.ws.active as int)
            &&& d.out == c.out.push(
                EffectV::Ask {
                    workspace: d.ws.active,
                    request: RequestV::Resize(state::server_size(env, c.ws.sidebar)),
                },
            ).push(EffectV::Ask { workspace: d.ws.active, request: RequestV::RefreshTree })
        },
        places::activated(c, NodeV::Machine(machine), env) is None,
{
    lemma_socket_at(c.ws.list, workspace, 0);
}

/// What a server is told to do to end a node that it shows: to kill the session by its name, or the
/// window or the pane that is current.
pub proof fn law_closing_a_node_kills_it(e: EntryV, name: Seq<char>)
    requires
        name.len() > 0,
    ensures
        e.kind == NavigationNodeKind::Session && session_in(e.id) == Some(name) && e.id is Session
            ==> (tree::kill_command(e) matches Some(line) && commands::line_commands(line) == seq![
            command_laws::targeting("kill-session"@, name),
        ]),
        e.kind == NavigationNodeKind::Window ==> tree::kill_command(e) == Some("kill-window"@),
        e.kind == NavigationNodeKind::Pane ==> tree::kill_command(e) == Some("kill-pane"@),
        e.kind == NavigationNodeKind::Machine || e.kind == NavigationNodeKind::Workspace
            ==> tree::kill_command(e) is None,
{
    reveal_strlit("kill-session");
    reveal_strlit("kill-session -t ");
    let verb = "kill-session"@;
    assert forall|k: int| 0 <= k < verb.len() implies commands::plain(#[trigger] verb[k]) by {}
    command_laws::law_quoted_target(verb, name);
    assert(verb + seq![' ', '-', 't', ' '] + commands::quoted(name) =~= "kill-session -t "@ + commands::quoted(name));
}

/// Closing a session, a window or a pane first goes to it, as opening it does, and then asks its
/// workspace to end it; it fails exactly where the node cannot be gone to.
pub proof fn law_closing_goes_there_first(c: ClientV, e: EntryV, env: EnvV)
    requires
        session_in(e.id) is Some,
    ensures
        places::activated(c, e.id, env) is None ==> tree::node_closed(c, e, env).1 is Failed && tree::node_closed(
            c,
            e,
            env,
        ).0 == c,
        places::activated(c, e.id, env) matches Some(d) ==> {
            &&& tree::node_closed(c, e, env).1 is Closed
            &&& tree::kill_command(e) matches Some(line) ==> tree::node_closed(c, e, env).0.out == d.out.push(
                EffectV::Ask { workspace: d.ws.active, request: RequestV::Command(line) },
            )
        },
{
}

} // verus!
