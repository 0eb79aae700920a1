//! What the answers of servers and of the system do, and what the user is told.

use crate::client::close_laws;
use crate::client::commands_run;
use crate::client::launch;
use crate::client::lines;
use crate::client::remote_laws;
use crate::client::remotes;
use crate::client::replies;
use crate::client::shortcut_laws;
use crate::client::state;
use crate::text;
use crate::text_laws;
use crate::client::actions::{EffectV, OutputUse, RequestV};
use crate::client::commands_run::{ClipboardAttempt, ClipboardCopyResult, ClipboardStep};
use crate::client::launch::{Attempt, StartError, StartStep};
use crate::client::mode::ModeV;
use crate::client::remotes::{FailureV, RemoteMachineState, RemoteV};
use crate::client::replies::ReplyV;
use crate::client::state::{ClientV, EnvV};
use crate::navigation::MachineConnectionState;
use vstd::prelude::*;

verus! {

/// Whether the user is told a text and nothing else is done.
pub open spec fn only_told(c: ClientV, d: ClientV, text: Seq<char>) -> bool {
    &&& d.ui.notice matches Some(n) && n.text == text
    &&& d.out == c.out
    &&& d.ws == c.ws
    &&& d.ui.mode == c.ui.mode
}

/// A server that begins copy mode has the input go there, and the user is told where it cannot; the
/// options open with what is in force.
pub proof fn law_modes_are_answered(c: ClientV, yes: bool, env: EnvV)
    ensures
        replies::replied(c, ReplyV::CopyMode(true), env).ui.mode is CopyMode,
        replies::replied(c, ReplyV::CopyMode(true), env).out == c.out,
        only_told(c, replies::replied(c, ReplyV::CopyMode(false), env), "copy mode unavailable"@),
        replies::replied(c, ReplyV::EraseScroll(yes), env).ui.mode == (ModeV::OptionPanel {
            selected: 0,
            enabled: yes,
        }),
{
}

/// Selected text that comes back leaves copy mode and goes to the clipboard, whole; where nothing
/// was selected, the user is told so and copy mode stays.
pub proof fn law_yanked_text_is_copied(c: ClientV, text: Seq<char>, env: EnvV)
    requires
        c.wf(),
    ensures
        text.len() > 0 ==> {
            let d = replies::replied(c, ReplyV::Yanked(text), env);
            &&& d.out == c.out.push(shortcut_laws::to_active(c, RequestV::ExitCopyMode)).push(
                EffectV::CopyText(text),
            )
            &&& d.ui.mode is Normal
        },
        text.len() == 0 ==> only_told(c, replies::replied(c, ReplyV::Yanked(text), env), "no selection"@),
{
}

/// A search that finds nothing is told with what was searched for; one that finds something is not
/// told.
pub proof fn law_searches_are_answered(c: ClientV, text: Seq<char>, env: EnvV)
    ensures
        replies::replied(c, ReplyV::Searched { text, found: true }, env) == c,
        only_told(
            c,
            replies::replied(c, ReplyV::Searched { text, found: false }, env),
            "not found: "@ + text,
        ),
{
}

/// What a command printed is told to the user: the directory that was set, or that it was not, and
/// every other message that is not blank as it is.
pub proof fn law_outputs_are_told(c: ClientV, output: Seq<char>, env: EnvV)
    ensures
        !text_laws::blank(output) ==> {
            &&& only_told(
                c,
                replies::replied(c, ReplyV::Output { purpose: OutputUse::StartDir, text: output }, env),
                "start dir: "@ + text::trimmed(output),
            )
            &&& only_told(
                c,
                replies::replied(c, ReplyV::Output { purpose: OutputUse::WorkspaceHome, text: output }, env),
                "workspace home: "@ + text::trimmed(output),
            )
            &&& only_told(
                c,
                replies::replied(c, ReplyV::Output { purpose: OutputUse::Message, text: output }, env),
                text::trimmed(output),
            )
        },
        text_laws::blank(output) ==> {
            &&& only_told(
                c,
                replies::replied(c, ReplyV::Output { purpose: OutputUse::StartDir, text: output }, env),
                "set start dir failed"@,
            )
            &&& only_told(
                c,
                replies::replied(c, ReplyV::Output { purpose: OutputUse::WorkspaceHome, text: output }, env),
                "set workspace home failed"@,
            )
            &&& replies::replied(c, ReplyV::Output { purpose: OutputUse::Message, text: output }, env) == c
        },
{
    text_laws::law_blank_texts_are_cut_to_nothing(output);
}

/// What was copied is told by the number of its characters and by the way that it went.
pub proof fn law_copies_are_told(c: ClientV, text: Seq<char>, env: EnvV)
    ensures
        only_told(
            c,
            replies::replied(c, ReplyV::Copied { result: ClipboardCopyResult::Zsync, text }, env),
            "copied "@ + text::decimal(text.len()) + " chars via zsync"@,
        ),
        only_told(
            c,
            replies::replied(c, ReplyV::Copied { result: ClipboardCopyResult::System, text }, env),
            "copied "@ + text::decimal(text.len()) + " chars"@,
        ),
        only_told(
            c,
            replies::replied(c, ReplyV::Copied { result: ClipboardCopyResult::Osc52, text }, env),
            "sent "@ + text::decimal(text.len()) + " chars via OSC 52"@,
        ),
        only_told(
            c,
            replies::replied(c, ReplyV::Copied { result: ClipboardCopyResult::Unavailable, text }, env),
            "yanked "@ + text::decimal(text.len()) + " chars (clipboard unavailable)"@,
        ),
{
}

/// Copying tries `zsync`, then the system's clipboard, then the terminal's, each only where the one
/// before failed, and ends with the first that succeeds.
pub proof fn law_clipboards_in_turn()
    ensures
        commands_run::clipboard_after(false, None) == ClipboardStep::Try(ClipboardAttempt::Zsync),
        commands_run::clipboard_after(false, Some((ClipboardAttempt::Zsync, false))) == ClipboardStep::Try(
            ClipboardAttempt::System,
        ),
        commands_run::clipboard_after(false, Some((ClipboardAttempt::System, false))) == ClipboardStep::Try(
            ClipboardAttempt::Osc52,
        ),
        commands_run::clipboard_after(false, Some((ClipboardAttempt::Osc52, false))) == ClipboardStep::Done(
            ClipboardCopyResult::Unavailable,
        ),
        commands_run::clipboard_after(false, Some((ClipboardAttempt::Zsync, true))) == ClipboardStep::Done(
            ClipboardCopyResult::Zsync,
        ),
        commands_run::clipboard_after(false, Some((ClipboardAttempt::System, true))) == ClipboardStep::Done(
            ClipboardCopyResult::System,
        ),
        commands_run::clipboard_after(false, Some((ClipboardAttempt::Osc52, true))) == ClipboardStep::Done(
            ClipboardCopyResult::Osc52,
        ),
        forall|last: Option<(ClipboardAttempt, bool)>| #[trigger]
            commands_run::clipboard_after(true, last) == ClipboardStep::Done(ClipboardCopyResult::Unavailable),
{
}

/// A machine that was connected to is a workspace more, behind the others and active only where
/// that was asked for; a failed attempt changes no workspace.
pub proof fn law_connections_add_a_workspace(
    c: ClientV,
    id: Seq<char>,
    failure: Option<FailureV>,
    activate: bool,
    open: bool,
    env: EnvV,
)
    requires
        c.wf(),
        c.ws.list.len() < usize::MAX,
    ensures
        ({
            let d = replies::connect_ended(c, id, failure, activate, open, env);
            &&& failure is Some ==> d.ws == c.ws
            &&& failure is None ==> {
                &&& d.ws.list.len() == c.ws.list.len() + 1
                &&& d.ws.list.take(c.ws.list.len() as int) == c.ws.list
                &&& d.ws.list.last().machine == id
                &&& d.ws.list.last().socket == "ssh://"@ + id + "/"@ + c.ws.base
                &&& activate ==> d.ws.active == c.ws.list.len()
                &&& !activate ==> d.ws.active == c.ws.active
            }
        }),
{
    let d = replies::connect_ended(c, id, failure, activate, open, env);
    if failure is None {
        assert(d.ws.list.take(c.ws.list.len() as int) =~= c.ws.list);
    }
}

/// The tree shows a remote machine's connection as it is.
pub proof fn law_connections_are_shown(state: RemoteMachineState)
    ensures
        lines::state_shown(state) == MachineConnectionState::Connected <==> state
            == RemoteMachineState::Connected,
        lines::state_shown(state) == MachineConnectionState::Probing <==> state
            == RemoteMachineState::Probing,
        lines::state_shown(state) == MachineConnectionState::Unavailable <==> state
            == RemoteMachineState::Unavailable,
        lines::state_shown(state) == MachineConnectionState::Disconnected <==> state
            == RemoteMachineState::Disconnected,
{
}

/// A server that runs is connected to and counts as one that was there; where none is, one is
/// started and then waited for.
pub proof fn law_servers_are_found_or_started()
    ensures
        launch::start_begun(false).1 == (StartStep::Connect { wait: 0 }),
        launch::started_on(launch::start_begun(false).0, Attempt::Connected).1 == (StartStep::Done {
            existing: true,
        }),
        launch::started_on(launch::start_begun(false).0, Attempt::Absent).1 == StartStep::Spawn,
        launch::start_begun(true).1 == StartStep::Check,
        launch::started_on(launch::start_begun(true).0, Attempt::Connected).1 == StartStep::Fail(
            StartError::InUse,
        ),
        launch::started_on(launch::start_begun(true).0, Attempt::Absent).1 == StartStep::Spawn,
        launch::started_on(launch::started_on(launch::start_begun(false).0, Attempt::Absent).0, Attempt::Connected).1 == (
        StartStep::Connect { wait: 50 }),
{
}

/// The workspaces that are found are those whose servers answered, in order, and no others.
pub proof fn law_answering_servers_are_workspaces(
    names: Seq<Seq<char>>,
    attempts: Seq<Attempt>,
    n: int,
    i: int,
)
    requires
        0 <= i < n <= names.len(),
        n <= attempts.len(),
        attempts[i] == Attempt::Connected,
    ensures
        exists|k: int|
            0 <= k < launch::workspaces_found(names, attempts, n).len() && (#[trigger] launch::workspaces_found(
                names,
                attempts,
                n,
            )[k]).socket == names[i] && launch::workspaces_found(names, attempts, n)[k].machine
                == "local"@,
    decreases n,
{
    let all = launch::workspaces_found(names, attempts, n);
    if i == n - 1 {
        assert(all[all.len() - 1].socket == names[i]);
    } else {
        law_answering_servers_are_workspaces(names, attempts, n - 1, i);
        let before = launch::workspaces_found(names, attempts, n - 1);
        let k = choose|k: int|
            0 <= k < before.len() && (#[trigger] before[k]).socket == names[i] && before[k].machine
                == "local"@;
        assert(all[k].socket == names[i]);
    }
}

/// The end of a probe of a machine: where it failed, that is noted and told by the machine's name;
/// where it succeeded and nothing is attached yet, the machine is connected to along its own route,
/// and made active only where that was asked for. A machine that is not known any more stays so.
pub proof fn law_probes_end(
    c: ClientV,
    id: Seq<char>,
    failure: Option<FailureV>,
    env: EnvV,
    i: int,
)
    requires
        remote_laws::machine_of(c.remotes, id, i),
    ensures
        failure matches Some(f) ==> {
            let d = replies::probe_ended(c, id, failure, env);
            &&& d.ui.notice matches Some(n) && n.text == c.remotes[i].host + ": "@ + f.message
            &&& d.remotes[i].state == RemoteMachineState::Unavailable
            &&& d.remotes[i].error == Some(f.message)
            &&& d.out == c.out
        },
        failure is None && (forall|j: int|
            0 <= j < c.ws.list.len() ==> (#[trigger] c.ws.list[j]).machine != id) ==> replies::probe_ended(
            c,
            id,
            failure,
            env,
        ).out == c.out.push(
            EffectV::Connect {
                id,
                route: c.remotes[i].route,
                size: state::server_size(env, c.ws.sidebar),
                activate: c.remotes[i].activate,
                open: false,
            },
        ),
{
    lemma_probed_machine(c.remotes, id, 0, i);
    close_laws::law_machine_has_a_workspace(c.ws.list, id, 0);
}

proof fn lemma_probed_machine(machines: Seq<RemoteV>, id: Seq<char>, from: int, i: int)
    requires
        remote_laws::machine_of(machines, id, i),
        0 <= from <= i,
    ensures
        remotes::machine_at(machines, id, from) == Some(i),
    decreases i - from,
{
    if from < i {
        assert(machines[from].id != id);
        lemma_probed_machine(machines, id, from + 1, i);
    }
}

/// Of a machine that is not known any more nothing is kept.
pub proof fn law_forgotten_machines_stay_so(
    c: ClientV,
    id: Seq<char>,
    failure: Option<FailureV>,
    env: EnvV,
)
    requires
        remotes::machine_at(c.remotes, id, 0) is None,
    ensures
        replies::probe_ended(c, id, failure, env) == c,
{
}

/// A machine that could not be opened is told by its name, and so is one that was connected to.
pub proof fn law_connections_are_told(c: ClientV, id: Seq<char>, failure: FailureV, env: EnvV, i: int)
    requires
        remote_laws::machine_of(c.remotes, id, i),
    ensures
        replies::connect_ended(c, id, Some(failure), true, true, env).ui.notice matches Some(n) && n.text
            == "failed to open "@ + c.remotes[i].host + ": "@ + failure.message,
        replies::connect_ended(c, id, Some(failure), false, false, env).ui.notice matches Some(n) && n.text
            == c.remotes[i].host + ": attach failed: "@ + failure.message,
        replies::connect_ended(c, id, None, false, false, env).ui.notice matches Some(n) && n.text
            == "connected to "@ + c.remotes[i].host,
        replies::connect_ended(c, id, None, false, false, env).remotes[i].state
            == RemoteMachineState::Connected,
{
    lemma_probed_machine(c.remotes, id, 0, i);
}

} // verus!
