//! What becomes of workspaces and machines that are left or lost.

use crate::client::commands_run;
use crate::client::keyboard;
use crate::client::places;
use crate::client::remote_laws;
use crate::client::remotes;
use crate::client::shortcut_laws;
use crate::client::state;
use crate::client::ticks;
use crate::client::tree;
use crate::text;
use crate::text_laws;
use crate::client::actions::{EffectV, OutputUse, RequestV};
use crate::client::remotes::{RemoteMachineState, RemoteV};
use crate::client::state::{ClientV, ConnectionV, EnvV};
use crate::client::tree::ClosingV;
use crate::navigation::{EntryV, NodeV};
use vstd::prelude::*;

verus! {

/// The first workspace of a machine with a server's name is found, and none where there is none.
pub proof fn law_workspace_is_found_on_its_machine(
    list: Seq<ConnectionV>,
    machine: Seq<char>,
    socket: Seq<char>,
    from: int,
)
    requires
        0 <= from,
    ensures
        tree::workspace_at(list, machine, socket, from) matches Some(i) ==> from <= i && i < list.len()
            && list[i].machine == machine && list[i].socket == socket && forall|j: int|
            from <= j < i ==> !((#[trigger] list[j]).machine == machine && list[j].socket == socket),
        tree::workspace_at(list, machine, socket, from) is None ==> forall|j: int|
            from <= j < list.len() ==> !((#[trigger] list[j]).machine == machine && list[j].socket
                == socket),
    decreases list.len() - from,
{
    if from < list.len() && !(list[from].machine == machine && list[from].socket == socket) {
        law_workspace_is_found_on_its_machine(list, machine, socket, from + 1);
    }
}

/// The first workspace on a machine is found, and none where there is none.
pub proof fn law_machine_has_a_workspace(list: Seq<ConnectionV>, machine: Seq<char>, from: int)
    requires
        0 <= from,
    ensures
        places::machine_ws(list, machine, from) matches Some(i) ==> from <= i && i < list.len()
            && list[i].machine == machine,
        places::machine_ws(list, machine, from) is None ==> forall|j: int|
            from <= j < list.len() ==> (#[trigger] list[j]).machine != machine,
    decreases list.len() - from,
{
    if from < list.len() && list[from].machine != machine {
        law_machine_has_a_workspace(list, machine, from + 1);
    }
}

/// Without the active workspace, the one behind it is the active one, or the last where there was
/// none behind it; the others stay as they are, and its connection is dropped.
pub proof fn law_next_workspace_is_active(c: ClientV)
    requires
        c.wf(),
        c.ws.list.len() <= usize::MAX,
        c.ws.list.len() > 1,
    ensures
        ({
            let d = tree::active_removed(c);
            &&& d.ws.list == c.ws.list.remove(c.ws.active as int)
            &&& c.ws.active + 1 < c.ws.list.len() ==> d.ws.list[d.ws.active as int]
                == c.ws.list[c.ws.active + 1]
            &&& c.ws.active + 1 == c.ws.list.len() ==> d.ws.list[d.ws.active as int]
                == c.ws.list[c.ws.active - 1]
            &&& d.out == c.out.push(EffectV::Drop { workspace: c.ws.active })
        }),
{
}

/// Closing a workspace detaches from its server and gives up that workspace alone.
pub proof fn law_closing_a_workspace_leaves_it(
    c: ClientV,
    e: EntryV,
    machine: Seq<char>,
    workspace: Seq<char>,
    env: EnvV,
    i: int,
)
    requires
        e.id == (NodeV::Workspace { machine, workspace }),
        c.ws.list.len() <= usize::MAX,
        0 <= i < c.ws.list.len(),
        c.ws.list[i].machine == machine,
        c.ws.list[i].socket == workspace,
        forall|j: int|
            0 <= j < i ==> !((#[trigger] c.ws.list[j]).machine == machine && c.ws.list[j].socket
                == workspace),
    ensures
        ({
            let r = tree::node_closed(c, e, env);
            &&& r.0.ws.list == c.ws.list.remove(i)
            &&& r.0.out == c.out.push(
                EffectV::Ask { workspace: i as usize, request: RequestV::Detach },
            ).push(EffectV::Drop { workspace: i as usize })
            &&& c.ws.list.len() == 1 ==> r.1 is Empty
            &&& c.ws.list.len() > 1 ==> r.1 is Closed
        }),
{
    law_workspace_is_found_on_its_machine(c.ws.list, machine, workspace, 0);
    let at = tree::workspace_at(c.ws.list, machine, workspace, 0);
    assert(at == Some(i)) by {
        if at is None {
            assert(c.ws.list[i].machine == machine);
        } else if at->0 < i {
            assert(c.ws.list[at->0].machine == machine);
        } else if at->0 > i {
            assert(c.ws.list[i].machine == machine);
        }
    }
}

/// A workspace that is not there, and the local machine, cannot be closed; the user is told which.
pub proof fn law_closing_that_fails(c: ClientV, e: EntryV, env: EnvV)
    ensures
        e.id == NodeV::Machine("local"@) ==> tree::node_closed(c, e, env) == (
            c,
            ClosingV::Failed("the local machine cannot be closed"@),
        ),
        e.id matches NodeV::Workspace { machine, workspace } ==> ((forall|j: int|
            0 <= j < c.ws.list.len() ==> !((#[trigger] c.ws.list[j]).machine == machine
                && c.ws.list[j].socket == workspace)) ==> tree::node_closed(c, e, env) == (
            c,
            ClosingV::Failed("workspace is unavailable"@),
        )),
{
    if let NodeV::Workspace { machine, workspace } = e.id {
        law_workspace_is_found_on_its_machine(c.ws.list, machine, workspace, 0);
        if let Some(i) = tree::workspace_at(c.ws.list, machine, workspace, 0) {
            assert(c.ws.list[i].machine == machine);
        }
    }
}

/// A lost connection to a remote machine is noted at that machine alone, as one that another try
/// may mend; the local machine is not noted.
pub proof fn law_losses_are_tried_again(
    c: ClientV,
    machine: Seq<char>,
    error: Seq<char>,
    now: u64,
    i: int,
)
    requires
        0 <= i < c.remotes.len(),
        c.remotes[i].id == machine,
        forall|j: int| 0 <= j < i ==> (#[trigger] c.remotes[j]).id != machine,
    ensures
        machine == "local"@ ==> ticks::loss_noted(c, machine, error, now) == c,
        machine != "local"@ ==> {
            let d = ticks::loss_noted(c, machine, error, now);
            &&& d.remotes.len() == c.remotes.len()
            &&& d.remotes[i].state == RemoteMachineState::Unavailable
            &&& d.remotes[i].error == Some(error)
            &&& d.remotes[i].retry_at is Some
            &&& forall|j: int|
                0 <= j < c.remotes.len() && j != i ==> #[trigger] d.remotes[j] == c.remotes[j]
            &&& d.ws == c.ws && d.out == c.out
        },
{
    lemma_first_machine(c.remotes, machine, 0, i);
}

proof fn lemma_first_machine(machines: Seq<RemoteV>, id: Seq<char>, from: int, i: int)
    requires
        0 <= from <= i < machines.len(),
        machines[i].id == id,
        forall|j: int| from <= j < i ==> (#[trigger] machines[j]).id != id,
    ensures
        remotes::machine_at(machines, id, from) == Some(i),
    decreases i - from,
{
    if from < i {
        assert(machines[from].id != id);
        lemma_first_machine(machines, id, from + 1, i);
    }
}

/// The workspaces given up are told by their number.
pub proof fn law_given_up_workspaces_are_counted(n: nat)
    ensures
        n == 1 ==> ticks::dead_notice(n) == "closed 1 dead workspace"@,
        n > 1 ==> ticks::dead_notice(n) == "closed "@ + text::decimal(n) + " dead workspaces"@,
{
}

/// What keeps a frame from bringing copy mode back holds for that frame alone.
pub proof fn law_suppression_is_for_one_frame(c: ClientV, counter: u64)
    ensures
        c.ui.copy_suppress == Some(counter) ==> ticks::suppression_kept(c, counter).ui.copy_suppress
            == Some(counter),
        c.ui.copy_suppress != Some(counter) ==> ticks::suppression_kept(c, counter).ui.copy_suppress
            is None,
        ticks::suppression_kept(c, counter).out == c.out,
{
}

/// Opening a machine that is attached to already makes its first workspace the active one and tells
/// its server the size.
pub proof fn law_attached_machines_are_gone_to(c: ClientV, id: Seq<char>, env: EnvV, activate: bool)
    requires
        c.ws.list.len() <= usize::MAX,
    ensures
        match tree::attached(c, id, env, activate) {
            Some(d) => exists|i: int|
                0 <= i < c.ws.list.len() && (#[trigger] c.ws.list[i]).machine == id && d.out
                    == c.out.push(
                    EffectV::Ask {
                        workspace: i as usize,
                        request: RequestV::Resize(state::server_size(env, c.ws.sidebar)),
                    },
                ) && d.ws.list == c.ws.list && d.ws.active == (if activate {
                    i as usize
                } else {
                    c.ws.active
                }),
            None => forall|j: int|
                0 <= j < c.ws.list.len() ==> (#[trigger] c.ws.list[j]).machine != id,
        },
{
    law_machine_has_a_workspace(c.ws.list, id, 0);
    if let Some(i) = places::machine_ws(c.ws.list, id, 0) {
        assert(c.ws.list[i].machine == id);
    }
}

proof fn lemma_one_is_first(machines: Seq<RemoteV>, id: Seq<char>, i: int) -> (k: int)
    requires
        0 <= i < machines.len(),
        machines[i].id == id,
    ensures
        0 <= k <= i,
        machines[k].id == id,
        forall|j: int| 0 <= j < k ==> (#[trigger] machines[j]).id != id,
    decreases i,
{
    if exists|j: int| 0 <= j < i && (#[trigger] machines[j]).id == id {
        let j = choose|j: int| 0 <= j < i && (#[trigger] machines[j]).id == id;
        lemma_one_is_first(machines, id, j)
    } else {
        i
    }
}

/// A host that is named is added and told of; a text that names none is answered with the usage.
pub proof fn law_named_hosts_are_told(c: ClientV, host: Seq<char>, env: EnvV)
    ensures
        text_laws::blank(host) ==> (keyboard::host_added(c, host, env).ui.notice matches Some(n) && n.text
            == "usage: new -m <SSH_HOST>"@) && keyboard::host_added(c, host, env).remotes == c.remotes
            && keyboard::host_added(c, host, env).out == c.out,
        text::trimmed(host).len() > 0 && text::trimmed(host)[0] == '-' ==> (keyboard::host_added(c, host, env).ui.notice
            matches Some(n) && n.text == "usage: new -m <SSH_HOST>"@) && keyboard::host_added(
            c,
            host,
            env,
        ).remotes == c.remotes,
        text::trimmed(host).len() > 0 && text::trimmed(host)[0] != '-' ==> (keyboard::host_added(c, host, env).ui.notice
            matches Some(n) && n.text == "connecting to "@ + host) && exists|i: int|
            0 <= i < keyboard::host_added(c, host, env).remotes.len() && (#[trigger] keyboard::host_added(
                c,
                host,
                env,
            ).remotes[i]).id == remotes::machine_id(seq![text::trimmed(host)]),
{
    text_laws::law_blank_texts_are_cut_to_nothing(host);
    if text::trimmed(host).len() > 0 && text::trimmed(host)[0] != '-' {
        let name = text::trimmed(host);
        let id = remotes::machine_id(seq![name]);
        let r = remotes::with_host(c.remotes, name);
        remote_laws::law_hosts_are_added_once(c.remotes, name);
        let i = choose|i: int| 0 <= i < r.len() && (#[trigger] r[i]).id == id;
        let k = lemma_one_is_first(r, id, i);
        remote_laws::law_one_probe_at_a_time(r, id, true, k);
        assert(keyboard::host_added(c, host, env).remotes[k].id == id);
    }
}

/// `set-workspace-home` asks the server for the directory, and `paste-cloud` for the shared
/// clipboard.
pub proof fn law_own_commands_ask(c: ClientV, line: Seq<char>, env: EnvV)
    ensures
        commands_run::own_command(line) is SetHome ==> keyboard::line_run(c, line, env).out == c.out.push(
            shortcut_laws::to_active(
                c,
                RequestV::Output {
                    command: "set-workspace-home"@,
                    purpose: OutputUse::WorkspaceHome,
                },
            ),
        ),
        commands_run::own_command(line) is PasteCloud ==> keyboard::line_run(c, line, env).out == c.out.push(
            shortcut_laws::to_active(c, RequestV::PasteCloud),
        ),
        commands_run::own_command(line) is ShowHelp ==> keyboard::line_run(c, line, env).out == c.out && keyboard::line_run(
            c,
            line,
            env,
        ).ui.mode is ShortcutsHelp,
        commands_run::own_command(line) is Say ==> keyboard::line_run(c, line, env).out == c.out,
{
}

} // verus!
