//! Remote machines: when they are probed, how long a retry waits, and how a route is gone.

use crate::client::remotes;
use crate::ssh;
use crate::client::remotes::{FailureV, RemoteMachineState, RemoteV};
use crate::ssh::ProbeV;
use vstd::prelude::*;

verus! {

proof fn lemma_found(machines: Seq<RemoteV>, id: Seq<char>, from: int)
    requires
        0 <= from,
    ensures
        remotes::machine_at(machines, id, from) matches Some(i) ==> from <= i < machines.len()
            && machines[i].id == id && forall|j: int|
            from <= j < i ==> (#[trigger] machines[j]).id != id,
        remotes::machine_at(machines, id, from) is None ==> forall|j: int|
            from <= j < machines.len() ==> (#[trigger] machines[j]).id != id,
    decreases machines.len() - from,
{
    if from < machines.len() && machines[from].id != id {
        lemma_found(machines, id, from + 1);
    }
}

/// Whether this is the machine of an identity: the first that has it.
pub open spec fn machine_of(machines: Seq<RemoteV>, id: Seq<char>, i: int) -> bool {
    &&& 0 <= i < machines.len()
    &&& machines[i].id == id
    &&& forall|j: int| 0 <= j < i ==> (#[trigger] machines[j]).id != id
}

/// After the first failure one second is waited, and after every further one twice as long, up to
/// 32 seconds.
pub proof fn law_waits_double(attempt: int)
    requires
        attempt >= 1,
    ensures
        remotes::backoff(1) == 1,
        remotes::backoff(attempt + 1) == (if 2 * remotes::backoff(attempt) <= 32 {
            2 * remotes::backoff(attempt)
        } else {
            32
        }),
{
}

/// A failure makes a machine unavailable, keeps what it said, counts it, and has a further try wait
/// from now on where one may help; nobody is waiting for the machine any more.
pub proof fn law_failures_are_noted(m: RemoteV, failure: FailureV, now: u64)
    requires
        m.retry_attempt < u32::MAX,
        now + 32000 <= u64::MAX,
    ensures
        ({
            let f = remotes::failed(m, failure, now);
            &&& f.state == RemoteMachineState::Unavailable
            &&& f.error == Some(failure.message)
            &&& f.retry_attempt == m.retry_attempt + 1
            &&& f.retry_at == (if failure.retryable {
                Some((now + 1000 * remotes::backoff(m.retry_attempt + 1)) as u64)
            } else {
                None
            })
            &&& !f.activate
            &&& f.id == m.id && f.host == m.host && f.route == m.route
        }),
{
}

/// A machine that is known and not under a probe is probed along its own route; it is under a probe
/// then, and no other machine changes. While a probe runs no second one begins, and an unknown
/// machine is not probed.
pub proof fn law_one_probe_at_a_time(
    machines: Seq<RemoteV>,
    id: Seq<char>,
    activate: bool,
    i: int,
)
    ensures
        (forall|j: int| 0 <= j < machines.len() ==> (#[trigger] machines[j]).id != id) ==> remotes::probed(
            machines,
            id,
            activate,
        ) == (machines, None::<Seq<Seq<char>>>),
        machine_of(machines, id, i) ==> {
            let r = remotes::probed(machines, id, activate);
            &&& r.0.len() == machines.len()
            &&& forall|j: int|
                0 <= j < machines.len() && j != i ==> #[trigger] r.0[j] == machines[j]
            &&& r.0[i].state == RemoteMachineState::Probing
            &&& r.0[i].route == machines[i].route && r.0[i].id == id
            &&& r.0[i].activate == (machines[i].activate || activate)
            &&& machines[i].state != RemoteMachineState::Probing ==> r.1 == Some(machines[i].route)
                && r.0[i].error is None && r.0[i].retry_at is None
            &&& machines[i].state == RemoteMachineState::Probing ==> r.1 is None
        },
{
    lemma_found(machines, id, 0);
    if machine_of(machines, id, i) {
        assert(remotes::machine_at(machines, id, 0) == Some(i));
    }
}

/// A connected machine has no error and no try to come; one that is left in peace has neither and
/// is disconnected.
pub proof fn law_states_after(m: RemoteV)
    ensures
        remotes::connected(m).state == RemoteMachineState::Connected,
        remotes::connected(m).error is None && remotes::connected(m).retry_at is None && remotes::connected(m).retry_attempt
            == 0,
        remotes::detached(m).state == RemoteMachineState::Disconnected,
        remotes::detached(m).error is None && remotes::detached(m).retry_at is None && remotes::detached(m).retry_attempt == 0,
        remotes::connected(m).id == m.id && remotes::connected(m).route == m.route && remotes::connected(m).host == m.host,
        remotes::detached(m).id == m.id && remotes::detached(m).route == m.route && remotes::detached(m).host == m.host,
{
}

/// A host that is named is a machine at the end of a route of one stop; naming it again changes
/// nothing.
pub proof fn law_hosts_are_added_once(machines: Seq<RemoteV>, host: Seq<char>)
    ensures
        ({
            let r = remotes::with_host(machines, host);
            &&& r.len() >= machines.len()
            &&& r.take(machines.len() as int) == machines
            &&& r.len() <= machines.len() + 1
            &&& r.len() == machines.len() + 1 ==> r.last().host == host && r.last().route == seq![
                host,
            ] && r.last().id == remotes::machine_id(seq![host]) && r.last().state
                == RemoteMachineState::Disconnected
            &&& exists|i: int|
                0 <= i < r.len() && (#[trigger] r[i]).id == remotes::machine_id(seq![host])
            &&& remotes::with_host(r, host) == r
        }),
{
    let id = remotes::machine_id(seq![host]);
    let r = remotes::with_host(machines, host);
    lemma_found(machines, id, 0);
    lemma_found(r, id, 0);
    assert(r.take(machines.len() as int) =~= machines);
    if remotes::machine_at(machines, id, 0) is None {
        assert(r[machines.len() as int].id == id);
    } else {
        assert(r[remotes::machine_at(machines, id, 0)->0].id == id);
    }
}

/// Forgetting a machine takes just those of its identity away, and keeps the others in order.
pub proof fn law_only_that_machine_is_forgotten(machines: Seq<RemoteV>, id: Seq<char>, n: int)
    requires
        0 <= n <= machines.len(),
    ensures
        remotes::without_id(machines, id, n) == machines.take(n).filter(|m: RemoteV| m.id != id),
    decreases n,
{
    let keep = |m: RemoteV| m.id != id;
    reveal(Seq::filter);
    if n > 0 {
        law_only_that_machine_is_forgotten(machines, id, n - 1);
        assert(machines.take(n).drop_last() =~= machines.take(n - 1));
        assert(machines.take(n).last() == machines[n - 1]);
    } else {
        assert(machines.take(n) =~= Seq::empty());
    }
}

/// Another try is made of exactly the machines that are unavailable and whose wait is over.
pub proof fn law_due_machines(machines: Seq<RemoteV>, now: u64, n: int, i: int)
    requires
        0 <= n <= machines.len(),
        0 <= i < n,
        machines[i].state == RemoteMachineState::Unavailable,
        machines[i].retry_at matches Some(at) && at <= now,
    ensures
        remotes::due_ids(machines, now, n).contains(machines[i].id),
    decreases n,
{
    if i == n - 1 {
        assert(remotes::due_ids(machines, now, n).last() == machines[i].id);
    } else {
        law_due_machines(machines, now, n - 1, i);
        let before = remotes::due_ids(machines, now, n - 1);
        let k = choose|k: int| 0 <= k < before.len() && before[k] == machines[i].id;
        assert(remotes::due_ids(machines, now, n)[k] == machines[i].id);
    }
}

/// Nothing else is tried again.
pub proof fn law_only_due_machines(machines: Seq<RemoteV>, now: u64, n: int, k: int)
    requires
        0 <= n <= machines.len(),
        0 <= k < remotes::due_ids(machines, now, n).len(),
    ensures
        exists|i: int|
            0 <= i < n && (#[trigger] machines[i]).id == remotes::due_ids(machines, now, n)[k]
                && machines[i].state == RemoteMachineState::Unavailable && machines[i].retry_at
                is Some && machines[i].retry_at->0 <= now,
    decreases n,
{
    let before = remotes::due_ids(machines, now, n - 1);
    if k < before.len() {
        law_only_due_machines(machines, now, n - 1, k);
        assert(remotes::due_ids(machines, now, n)[k] == before[k]);
    } else {
        assert(machines[n - 1].id == remotes::due_ids(machines, now, n)[k]);
    }
}

/// From each machine of a route the next is gone to by `ssh` without a terminal, without questions
/// and with five seconds to connect; a shell there reads the next stop as one word and the command
/// for it as another, down to the last, which reads the payload.
pub proof fn law_routes_are_nested(route: Seq<Seq<char>>, payload: Seq<char>, k: int)
    requires
        0 <= k <= route.len(),
    ensures
        k == route.len() ==> ssh::nested_command(route, payload, k) == payload,
        k < route.len() ==> {
            let stop = ssh::shell_word(route[k]);
            let rest = ssh::shell_word(ssh::nested_command(route, payload, k + 1));
            &&& ssh::nested_command(route, payload, k)
                == "exec ssh -T -o BatchMode=yes -o ConnectTimeout=5 "@ + stop + seq![' '] + rest
            &&& ssh::word_read(stop, false) == Some(route[k])
            &&& ssh::word_read(rest, false) == Some(ssh::nested_command(route, payload, k + 1))
        },
{
    reveal_strlit(" ");
    assert(" "@ =~= seq![' ']);
    if k < route.len() {
        ssh::law_quoting_is_read_back(route[k]);
        ssh::law_quoting_is_read_back(ssh::nested_command(route, payload, k + 1));
    }
}

/// What a probe means: a machine with the capability can be attached to; where the program is
/// missing, too old or refuses, no further try helps; where `ssh` itself failed, one may.
pub proof fn law_probe_results(route: Seq<Seq<char>>, outcome: ProbeV)
    ensures
        outcome matches ProbeV::Agreed(c) ==> (ssh::probe_failure(route, outcome) is None <==> c.contains(
            "ssh-stdio-v1"@,
        )),
        outcome matches ProbeV::Agreed(c) ==> (ssh::probe_failure(route, outcome) matches Some(f)
            ==> !f.retryable),
        outcome matches ProbeV::Refused(e) ==> (ssh::probe_failure(route, outcome) matches Some(f)
            && !f.retryable && f.message == e),
        outcome matches ProbeV::NotRun(f) ==> ssh::probe_failure(route, outcome) == Some(f),
        outcome matches ProbeV::Exited { code, written } ==> (ssh::probe_failure(route, outcome) matches Some(
            f,
        ) && (f.retryable <==> code == Some(255i32) || code is None)),
{
}

/// A route is told as its stops with slashes between them.
pub proof fn law_routes_are_told_with_slashes(route: Seq<Seq<char>>, n: int)
    requires
        1 <= n < route.len(),
    ensures
        ssh::route_text(route, 1) == route[0],
        ssh::route_text(route, n + 1) == ssh::route_text(route, n) + seq!['/'] + route[n],
{
    reveal_strlit("/");
    assert("/"@ =~= seq!['/']);
}

} // verus!
