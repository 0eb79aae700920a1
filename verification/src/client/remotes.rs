//! The remote machines that the client knows, and when it tries to reach them.

use crate::commands;
use crate::machines;
use crate::text;
use vstd::prelude::*;

verus! {

/// How far a remote machine is reached.
#[derive(Clone, Copy, Debug, PartialEq, Eq, Structural)]
pub enum RemoteMachineState {
    Disconnected,
    Probing,
    Connected,
    Unavailable,
}

/// Why a remote machine was not reached, and whether another try can help.
#[derive(Debug)]
pub struct RemoteFailure {
    pub message: String,
    pub retryable: bool,
}

#[verifier::ext_equal]
pub struct FailureV {
    pub message: Seq<char>,
    pub retryable: bool,
}

impl View for RemoteFailure {
    type V = FailureV;

    open spec fn view(&self) -> FailureV {
        FailureV { message: self.message@, retryable: self.retryable }
    }
}

impl RemoteFailure {
    /// A failure that another try does not mend.
    pub fn permanent(message: String) -> (r: Self)
        ensures
            r@ == (FailureV { message: message@, retryable: false }),
    {
        RemoteFailure { message, retryable: false }
    }

    /// A failure that another try may mend.
    pub fn transient(message: String) -> (r: Self)
        ensures
            r@ == (FailureV { message: message@, retryable: true }),
    {
        RemoteFailure { message, retryable: true }
    }

    /// A failure of a connection: another try does not help where the two sides do not understand
    /// each other or the data is not valid.
    pub fn from_io(message: String, incompatible: bool, invalid_data: bool) -> (r: Self)
        ensures
            r@ == (FailureV { message: message@, retryable: !incompatible && !invalid_data }),
    {
        if incompatible || invalid_data {
            RemoteFailure::permanent(message)
        } else {
            RemoteFailure::transient(message)
        }
    }
}

/// A remote machine. Times are in milliseconds.
#[derive(Debug)]
pub struct RemoteMachine {
    pub host: String,
    pub id: String,
    pub route: Vec<String>,
    pub state: RemoteMachineState,
    pub error: Option<String>,
    pub retry_attempt: u32,
    pub retry_at: Option<u64>,
    pub activate_after_probe: bool,
}

#[verifier::ext_equal]
pub struct RemoteV {
    pub host: Seq<char>,
    pub id: Seq<char>,
    pub route: Seq<Seq<char>>,
    pub state: RemoteMachineState,
    pub error: Option<Seq<char>>,
    pub retry_attempt: u32,
    pub retry_at: Option<u64>,
    pub activate: bool,
}

impl View for RemoteMachine {
    type V = RemoteV;

    open spec fn view(&self) -> RemoteV {
        RemoteV {
            host: self.host@,
            id: self.id@,
            route: commands::texts(self.route@),
            state: self.state,
            error: commands::opt_text(self.error),
            retry_attempt: self.retry_attempt,
            retry_at: self.retry_at,
            activate: self.activate_after_probe,
        }
    }
}

/// The remote machines.
#[derive(Debug)]
pub struct RemoteRegistry {
    pub machines: Vec<RemoteMachine>,
}

impl View for RemoteRegistry {
    type V = Seq<RemoteV>;

    open spec fn view(&self) -> Seq<RemoteV> {
        Seq::new(self.machines@.len(), |i: int| self.machines@[i]@)
    }
}

/// One stop of a route in a machine's identity: its length in bytes, a mark, and the stop itself.
pub open spec fn stop_code(stop: Seq<char>) -> Seq<char> {
    text::decimal(vstd::utf8::encode_utf8(stop).len()) + seq!['#'] + stop
}

/// The stops of a route from `i` on.
pub open spec fn stops_code(route: Seq<Seq<char>>, i: int) -> Seq<char>
    decreases route.len() - i,
{
    if i < 0 || i >= route.len() {
        Seq::empty()
    } else {
        stop_code(route[i]) + stops_code(route, i + 1)
    }
}

/// The identity of the machine at the end of a route.
pub open spec fn machine_id(route: Seq<Seq<char>>) -> Seq<char> {
    "ssh:"@ + stops_code(route, 0)
}

/// The identity of the machine at the end of a route.
pub fn remote_machine_id(route: &[String]) -> (r: String)
    ensures
        r@ == machine_id(commands::texts(route@)),
{
    let ghost all = commands::texts(route@);
    let mut out = "ssh:".to_string();
    let mut i: usize = 0;
    while i < route.len()
        invariant
            i <= route@.len(),
            all == commands::texts(route@),
            out@ + stops_code(all, i as int) == machine_id(all),
        decreases route@.len() - i,
    {
        proof {
            assert(all[i as int] == route@[i as int]@);
        }
        let ghost had = out@;
        let stop = &route[i];
        text::push_decimal(&mut out, stop.as_str().as_bytes_vec().len() as u64);
        out.push('#');
        out.append(stop.as_str());
        proof {
            let rest = stops_code(all, i + 1);
            assert(out@ =~= had + stop_code(stop@));
            text::lemma_concat(had, stop_code(stop@), rest);
        }
        i = i + 1;
    }
    proof {
        assert(out@ + Seq::<char>::empty() =~= out@);
    }
    out
}

proof fn lemma_decimal_digits(n: nat)
    ensures
        text::decimal(n).len() > 0,
        forall|i: int|
            0 <= i < text::decimal(n).len() ==> '0' <= #[trigger] text::decimal(n)[i] && text::decimal(n)[i] <= '9',
    decreases n,
{
    if n >= 10 {
        lemma_decimal_digits(n / 10);
    }
}

proof fn lemma_decimal_injective(a: nat, b: nat)
    requires
        text::decimal(a) == text::decimal(b),
    ensures
        a == b,
    decreases a,
{
    lemma_decimal_digits(a / 10);
    lemma_decimal_digits(b / 10);
    if a >= 10 && b >= 10 {
        assert(text::decimal(a).drop_last() =~= text::decimal(a / 10));
        assert(text::decimal(b).drop_last() =~= text::decimal(b / 10));
        assert(text::decimal(a).last() == text::digit(a % 10));
        assert(text::decimal(b).last() == text::digit(b % 10));
        lemma_decimal_injective(a / 10, b / 10);
    } else if a >= 10 {
        assert(text::decimal(a).len() == text::decimal(a / 10).len() + 1);
    } else if b >= 10 {
        assert(text::decimal(b).len() == text::decimal(b / 10).len() + 1);
    } else {
        assert(text::decimal(a)[0] == text::digit(a));
        assert(text::decimal(b)[0] == text::digit(b));
    }
}

proof fn lemma_byte_length(s: Seq<char>, n: int)
    requires
        0 <= n < s.len(),
    ensures
        vstd::utf8::encode_utf8(s.take(n)).len() < vstd::utf8::encode_utf8(s).len(),
    decreases n,
{
    vstd::utf8::encode_utf8_first_scalar(s);
    if n > 0 {
        vstd::utf8::encode_utf8_first_scalar(s.take(n));
        assert(s.take(n).drop_first() =~= s.drop_first().take(n - 1));
        lemma_byte_length(s.drop_first(), n - 1);
    }
}

proof fn lemma_same_prefix(a: Seq<char>, b: Seq<char>, x: Seq<char>, y: Seq<char>)
    requires
        a + x == b + y,
        vstd::utf8::encode_utf8(a).len() == vstd::utf8::encode_utf8(b).len(),
    ensures
        a == b,
        x == y,
{
    let whole = a + x;
    assert(whole.take(a.len() as int) =~= a);
    assert((b + y).take(b.len() as int) =~= b);
    if a.len() < b.len() {
        assert(b.take(a.len() as int) =~= a);
        lemma_byte_length(b, a.len() as int);
    } else if b.len() < a.len() {
        assert(a.take(b.len() as int) =~= b);
        lemma_byte_length(a, b.len() as int);
    }
    assert(whole.skip(a.len() as int) =~= x);
    assert((b + y).skip(b.len() as int) =~= y);
}

proof fn lemma_stops_injective(a: Seq<Seq<char>>, b: Seq<Seq<char>>, i: int)
    requires
        0 <= i <= a.len(),
        i <= b.len(),
        stops_code(a, i) == stops_code(b, i),
    ensures
        a.skip(i) == b.skip(i),
    decreases a.len() - i,
{
    if i < a.len() {
        lemma_decimal_digits(vstd::utf8::encode_utf8(a[i]).len());
    }
    if i < b.len() {
        lemma_decimal_digits(vstd::utf8::encode_utf8(b[i]).len());
    }
    if i < a.len() && i < b.len() {
        let la = text::decimal(vstd::utf8::encode_utf8(a[i]).len());
        let lb = text::decimal(vstd::utf8::encode_utf8(b[i]).len());
        let ra = stops_code(a, i + 1);
        let rb = stops_code(b, i + 1);
        let whole = stops_code(a, i);
        assert(whole =~= la + (seq!['#'] + (a[i] + ra)));
        assert(whole =~= lb + (seq!['#'] + (b[i] + rb)));
        if la.len() < lb.len() {
            assert(whole[la.len() as int] == '#');
            assert(whole[la.len() as int] == lb[la.len() as int]);
        } else if lb.len() < la.len() {
            assert(whole[lb.len() as int] == '#');
            assert(whole[lb.len() as int] == la[lb.len() as int]);
        }
        assert(whole.take(la.len() as int) =~= la);
        assert(whole.take(lb.len() as int) =~= lb);
        lemma_decimal_injective(
            vstd::utf8::encode_utf8(a[i]).len(),
            vstd::utf8::encode_utf8(b[i]).len(),
        );
        assert(whole.skip(la.len() as int + 1) =~= a[i] + ra);
        assert(whole.skip(lb.len() as int + 1) =~= b[i] + rb);
        lemma_same_prefix(a[i], b[i], ra, rb);
        lemma_stops_injective(a, b, i + 1);
        assert(a.skip(i) =~= seq![a[i]] + a.skip(i + 1));
        assert(b.skip(i) =~= seq![b[i]] + b.skip(i + 1));
    } else if i < a.len() {
        assert(stops_code(a, i).len() > 0);
    } else if i < b.len() {
        assert(stops_code(b, i).len() > 0);
    } else {
        assert(a.skip(i) =~= b.skip(i));
    }
}

/// Machines at the ends of different routes have different identities, whatever characters their
/// names hold.
pub proof fn law_machine_ids_differ(a: Seq<Seq<char>>, b: Seq<Seq<char>>)
    requires
        machine_id(a) == machine_id(b),
    ensures
        a == b,
{
    let head = "ssh:"@;
    assert(machine_id(a).skip(head.len() as int) =~= stops_code(a, 0));
    assert(machine_id(b).skip(head.len() as int) =~= stops_code(b, 0));
    lemma_stops_injective(a, b, 0);
    assert(a.skip(0) =~= a);
    assert(b.skip(0) =~= b);
}

/// The first machine, from `from` on, with an identity.
pub open spec fn machine_at(machines: Seq<RemoteV>, id: Seq<char>, from: int) -> Option<int>
    decreases machines.len() - from,
{
    if from < 0 || from >= machines.len() {
        None
    } else if machines[from].id == id {
        Some(from)
    } else {
        machine_at(machines, id, from + 1)
    }
}

proof fn lemma_machine_at(machines: Seq<RemoteV>, id: Seq<char>, from: int)
    ensures
        machine_at(machines, id, from) matches Some(i) ==> 0 <= i < machines.len() && machines[i].id
            == id,
    decreases machines.len() - from,
{
    if 0 <= from < machines.len() {
        lemma_machine_at(machines, id, from + 1);
    }
}

/// A machine that is being probed.
pub open spec fn under_probe(m: RemoteV, activate: bool) -> RemoteV {
    RemoteV {
        state: RemoteMachineState::Probing,
        error: None,
        retry_at: None,
        activate: m.activate || activate,
        ..m
    }
}

/// A probe of a machine: none of an unknown one, and no second one while one runs.
pub open spec fn probed(machines: Seq<RemoteV>, id: Seq<char>, activate: bool) -> (
    Seq<RemoteV>,
    Option<Seq<Seq<char>>>,
) {
    match machine_at(machines, id, 0) {
        None => (machines, None),
        Some(i) => if machines[i].state == RemoteMachineState::Probing {
            (
                machines.update(
                    i,
                    RemoteV { activate: machines[i].activate || activate, ..machines[i] },
                ),
                None,
            )
        } else {
            (machines.update(i, under_probe(machines[i], activate)), Some(machines[i].route))
        },
    }
}

/// Seconds to wait after so many failures in a row: twice as many each time, at most 32.
pub open spec fn backoff(attempt: int) -> int {
    if attempt <= 1 {
        1
    } else if attempt == 2 {
        2
    } else if attempt == 3 {
        4
    } else if attempt == 4 {
        8
    } else if attempt == 5 {
        16
    } else {
        32
    }
}

fn backoff_seconds(attempt: u32) -> (r: u64)
    ensures
        r == backoff(attempt as int),
        r <= 32,
{
    if attempt <= 1 {
        1
    } else if attempt == 2 {
        2
    } else if attempt == 3 {
        4
    } else if attempt == 4 {
        8
    } else if attempt == 5 {
        16
    } else {
        32
    }
}

/// The wait grows from one failure to the next and stays within 32 seconds.
pub proof fn law_backoff_is_bounded(a: int, b: int)
    requires
        a <= b,
    ensures
        1 <= backoff(a) <= backoff(b) <= 32,
{
}

/// A machine that could not be reached. Only a failure that another try may mend gets a time for
/// it.
pub open spec fn failed(m: RemoteV, failure: FailureV, now: u64) -> RemoteV {
    let attempt = text::min_int(m.retry_attempt + 1, u32::MAX as int);
    RemoteV {
        state: RemoteMachineState::Unavailable,
        error: Some(failure.message),
        retry_attempt: attempt as u32,
        retry_at: if failure.retryable {
            Some(text::min_int(now + 1000 * backoff(attempt), u64::MAX as int) as u64)
        } else {
            None
        },
        activate: false,
        ..m
    }
}

/// A machine that is left in peace.
pub open spec fn detached(m: RemoteV) -> RemoteV {
    RemoteV {
        state: RemoteMachineState::Disconnected,
        error: None,
        retry_attempt: 0,
        retry_at: None,
        activate: false,
        ..m
    }
}

/// A machine that is connected.
pub open spec fn connected(m: RemoteV) -> RemoteV {
    RemoteV {
        state: RemoteMachineState::Connected,
        error: None,
        retry_attempt: 0,
        retry_at: None,
        activate: false,
        ..m
    }
}

/// One machine changed, if it is known.
pub open spec fn with_machine(
    machines: Seq<RemoteV>,
    id: Seq<char>,
    change: spec_fn(RemoteV) -> RemoteV,
) -> Seq<RemoteV> {
    match machine_at(machines, id, 0) {
        Some(i) => machines.update(i, change(machines[i])),
        None => machines,
    }
}

/// Whether another try is due.
pub open spec fn due(m: RemoteV, now: u64) -> bool {
    m.state == RemoteMachineState::Unavailable && (match m.retry_at {
        Some(at) => at <= now,
        None => false,
    })
}

/// The identities of the machines, among the first `n`, for which another try is due.
pub open spec fn due_ids(machines: Seq<RemoteV>, now: u64, n: int) -> Seq<Seq<char>>
    decreases n,
{
    if n <= 0 {
        Seq::empty()
    } else if due(machines[n - 1], now) {
        due_ids(machines, now, n - 1).push(machines[n - 1].id)
    } else {
        due_ids(machines, now, n - 1)
    }
}

/// A failure that another try does not mend is never due for one.
pub proof fn law_permanent_failure_is_final(m: RemoteV, failure: FailureV, failed_at: u64, now: u64)
    requires
        !failure.retryable,
    ensures
        !due(failed(m, failure, failed_at), now),
{
}

/// A failure that another try may mend is due for one once its wait is over, and not before.
pub proof fn law_retry_waits(m: RemoteV, failure: FailureV, failed_at: u64, now: u64)
    requires
        failure.retryable,
        failed_at + 32000 <= u64::MAX,
    ensures
        now >= failed_at + 32000 ==> due(failed(m, failure, failed_at), now),
        now < failed_at + 1000 ==> !due(failed(m, failure, failed_at), now),
{
}

/// The name that a machine is called by: its host, or its identity where it is not known.
pub open spec fn name_of(machines: Seq<RemoteV>, id: Seq<char>) -> Seq<char> {
    match machine_at(machines, id, 0) {
        Some(i) => machines[i].host,
        None => id,
    }
}

/// A machine that has just been named.
pub open spec fn new_machine(host: Seq<char>) -> RemoteV {
    RemoteV {
        host,
        id: machine_id(seq![host]),
        route: seq![host],
        state: RemoteMachineState::Disconnected,
        error: None,
        retry_attempt: 0,
        retry_at: None,
        activate: false,
    }
}

/// Whether a text can name a host to connect to.
pub open spec fn host_ok(host: Seq<char>) -> bool {
    text::trimmed(host).len() > 0 && text::trimmed(host)[0] != '-'
}

/// The machines with one for a host.
pub open spec fn with_host(machines: Seq<RemoteV>, host: Seq<char>) -> Seq<RemoteV> {
    if machine_at(machines, machine_id(seq![host]), 0) is Some {
        machines
    } else {
        machines.push(new_machine(host))
    }
}

/// The machines without those of an identity.
pub open spec fn without_id(machines: Seq<RemoteV>, id: Seq<char>, n: int) -> Seq<RemoteV>
    decreases n,
{
    if n <= 0 {
        Seq::empty()
    } else if machines[n - 1].id == id {
        without_id(machines, id, n - 1)
    } else {
        without_id(machines, id, n - 1).push(machines[n - 1])
    }
}

impl RemoteRegistry {
    /// No machine.
    pub fn new() -> (r: Self)
        ensures
            r@ == Seq::<RemoteV>::empty(),
    {
        let r = RemoteRegistry { machines: Vec::new() };
        proof {
            assert(r@ =~= Seq::<RemoteV>::empty());
        }
        r
    }

    /// Where a machine stands in the list.
    pub fn position(&self, id: &str) -> (r: Option<usize>)
        ensures
            (match r {
                Some(i) => Some(i as int),
                None => None,
            }) == machine_at(self@, id@, 0),
            r matches Some(i) ==> i < self.machines@.len() && self@[i as int]
                == self.machines@[i as int]@,
    {
        let ghost all = self@;
        let mut i: usize = 0;
        while i < self.machines.len()
            invariant
                i <= self.machines@.len(),
                all == self@,
                all.len() == self.machines@.len(),
                machine_at(all, id@, i as int) == machine_at(all, id@, 0),
            decreases self.machines@.len() - i,
        {
            proof {
                assert(all[i as int] == self.machines@[i as int]@);
            }
            if text::same_text(self.machines[i].id.as_str(), id) {
                return Some(i);
            }
            i = i + 1;
        }
        None
    }

    /// Adds a machine, unless it is known, and probes it. A text that cannot name a host is
    /// refused.
    pub fn add_and_probe(&mut self, host: &str, activate: bool) -> (r: Result<
        (String, Option<Vec<String>>),
        String,
    >)
        ensures
            if host_ok(host@) {
                let name = text::trimmed(host@);
                let id = machine_id(seq![name]);
                let p = probed(with_host(old(self)@, name), id, activate);
                r matches Ok(x) && x.0@ == id && route_view(x.1) == p.1 && final(self)@ == p.0
            } else {
                r matches Err(e) && e@ == "usage: new -m <SSH_HOST>"@ && final(self)@ == old(self)@
            },
    {
        let bare = text::trim(text::chars_of(host).as_slice());
        if bare.len() == 0 || bare[0] == '-' {
            return Err("usage: new -m <SSH_HOST>".to_string());
        }
        let name = text::string_of(bare.as_slice());
        let mut route: Vec<String> = Vec::new();
        route.push(name.clone());
        let id = remote_machine_id(route.as_slice());
        proof {
            assert(commands::texts(route@) =~= seq![name@]);
        }
        let ghost before = self@;
        if self.position(id.as_str()).is_none() {
            let machine = RemoteMachine {
                host: name,
                id: id.clone(),
                route,
                state: RemoteMachineState::Disconnected,
                error: None,
                retry_attempt: 0,
                retry_at: None,
                activate_after_probe: false,
            };
            self.machines.push(machine);
            proof {
                assert(self@ =~= before.push(machine@));
            }
        }
        let started = self.start_probe(id.as_str(), activate);
        Ok((id, started))
    }

    /// Begins a probe of a machine; the route to take, if one is to be made.
    pub fn start_probe(&mut self, id: &str, activate: bool) -> (r: Option<Vec<String>>)
        ensures
            (final(self)@, route_view(r)) == probed(old(self)@, id@, activate),
    {
        let ghost before = self@;
        match self.position(id) {
            None => None,
            Some(i) => {
                if self.machines[i].state == RemoteMachineState::Probing {
                    if activate {
                        self.machines[i].activate_after_probe = true;
                    }
                    proof {
                        assert(self@ =~= before.update(
                            i as int,
                            RemoteV {
                                activate: before[i as int].activate || activate,
                                ..before[i as int]
                            },
                        ));
                    }
                    None
                } else {
                    self.machines[i].state = RemoteMachineState::Probing;
                    self.machines[i].error = None;
                    self.machines[i].retry_at = None;
                    if activate {
                        self.machines[i].activate_after_probe = true;
                    }
                    let route = machines::copy_texts(self.machines[i].route.as_slice());
                    proof {
                        assert(self@ =~= before.update(
                            i as int,
                            under_probe(before[i as int], activate),
                        ));
                    }
                    Some(route)
                }
            },
        }
    }

    /// Keeps in mind that a machine could not be reached.
    pub fn mark_failure(&mut self, id: &str, failure: RemoteFailure, now: u64)
        ensures
            final(self)@ == with_machine(
                old(self)@,
                id@,
                |m: RemoteV| failed(m, failure@, now),
            ),
    {
        let ghost before = self@;
        if let Some(i) = self.position(id) {
            let attempt: u32 = self.machines[i].retry_attempt.saturating_add(1);
            let wait: u64 = 1000 * backoff_seconds(attempt);
            self.machines[i].state = RemoteMachineState::Unavailable;
            self.machines[i].error = Some(failure.message);
            self.machines[i].retry_attempt = attempt;
            self.machines[i].retry_at = if failure.retryable {
                Some(now.saturating_add(wait))
            } else {
                None
            };
            self.machines[i].activate_after_probe = false;
            proof {
                assert(self@ =~= before.update(i as int, failed(before[i as int], failure@, now)));
            }
        }
    }

    /// Keeps in mind that a connection was lost.
    pub fn mark_disconnected(&mut self, id: &str, error: String, now: u64)
        ensures
            final(self)@ == with_machine(
                old(self)@,
                id@,
                |m: RemoteV| failed(m, FailureV { message: error@, retryable: true }, now),
            ),
    {
        let failure = RemoteFailure::transient(error);
        let ghost f = failure@;
        let ghost before = self@;
        self.mark_failure(id, failure, now);
        proof {
            lemma_machine_at(before, id@, 0);
            assert(self@ =~= with_machine(
                before,
                id@,
                |m: RemoteV| failed(m, FailureV { message: error@, retryable: true }, now),
            ));
        }
    }

    /// Keeps in mind that a machine was left on purpose.
    pub fn mark_detached(&mut self, id: &str)
        ensures
            final(self)@ == with_machine(old(self)@, id@, |m: RemoteV| detached(m)),
    {
        let ghost before = self@;
        if let Some(i) = self.position(id) {
            self.machines[i].state = RemoteMachineState::Disconnected;
            self.machines[i].error = None;
            self.machines[i].retry_attempt = 0;
            self.machines[i].retry_at = None;
            self.machines[i].activate_after_probe = false;
            proof {
                assert(self@ =~= before.update(i as int, detached(before[i as int])));
            }
        }
    }

    /// Keeps in mind that a machine is connected.
    pub fn mark_connected(&mut self, id: &str)
        ensures
            final(self)@ == with_machine(old(self)@, id@, |m: RemoteV| connected(m)),
    {
        let ghost before = self@;
        if let Some(i) = self.position(id) {
            self.machines[i].state = RemoteMachineState::Connected;
            self.machines[i].error = None;
            self.machines[i].retry_attempt = 0;
            self.machines[i].retry_at = None;
            self.machines[i].activate_after_probe = false;
            proof {
                assert(self@ =~= before.update(i as int, connected(before[i as int])));
            }
        }
    }

    /// Forgets a machine.
    pub fn remove(&mut self, id: &str)
        ensures
            final(self)@ == without_id(old(self)@, id@, old(self)@.len() as int),
    {
        let ghost all = self@;
        let ghost mut i: int = 0;
        let mut kept: usize = 0;
        let ghost list = self.machines@;
        proof {
            lemma_without_id(all, id@, 0);
            assert(all.skip(0) =~= all);
            assert(self@ =~= without_id(all, id@, 0) + all.skip(0));
        }
        while kept < self.machines.len()
            invariant
                0 <= i <= all.len(),
                kept <= self.machines@.len(),
                self@.len() == self.machines@.len(),
                self@ == without_id(all, id@, i) + all.skip(i),
                kept == without_id(all, id@, i).len(),
            decreases all.len() - i,
        {
            let ghost before = self@;
            let ghost done = without_id(all, id@, i);
            proof {
                assert(self.machines@[kept as int]@ == self@[kept as int]);
                assert(self@[kept as int] == all.skip(i)[0]);
                assert(all.skip(i)[0] == all[i]);
            }
            if text::same_text(self.machines[kept].id.as_str(), id) {
                self.machines.remove(kept);
                proof {
                    assert(self@ =~= before.remove(kept as int));
                    assert(before.remove(kept as int) =~= done + all.skip(i + 1));
                }
            } else {
                kept = kept + 1;
                proof {
                    assert(before =~= done.push(all[i]) + all.skip(i + 1));
                }
            }
            proof {
                i = i + 1;
            }
        }
        proof {
            assert(all.skip(i).len() == 0);
            assert(self@ =~= without_id(all, id@, all.len() as int));
        }
    }

    /// The machines for which another try is due.
    pub fn due_retries(&self, now: u64) -> (r: Vec<String>)
        ensures
            commands::texts(r@) == due_ids(self@, now, self@.len() as int),
    {
        let ghost all = self@;
        let mut out: Vec<String> = Vec::new();
        let mut i: usize = 0;
        proof {
            assert(commands::texts(out@) =~= Seq::empty());
        }
        while i < self.machines.len()
            invariant
                i <= self.machines@.len(),
                all == self@,
                all.len() == self.machines@.len(),
                commands::texts(out@) == due_ids(all, now, i as int),
            decreases self.machines@.len() - i,
        {
            let m = &self.machines[i];
            proof {
                assert(all[i as int] == m@);
            }
            let is_due: bool = m.state == RemoteMachineState::Unavailable && (match m.retry_at {
                Some(at) => at <= now,
                None => false,
            });
            if is_due {
                let ghost had = out@;
                out.push(m.id.clone());
                proof {
                    assert(commands::texts(out@) =~= commands::texts(had).push(m.id@));
                }
            }
            i = i + 1;
        }
        out
    }

    /// The name that a machine is called by.
    pub fn display_name(&self, id: &str) -> (r: String)
        ensures
            r@ == name_of(self@, id@),
    {
        match self.position(id) {
            Some(i) => self.machines[i].host.clone(),
            None => id.to_string(),
        }
    }
}

proof fn lemma_without_id(machines: Seq<RemoteV>, id: Seq<char>, n: int)
    ensures
        without_id(machines, id, n).len() <= text::max_int(n, 0),
    decreases n,
{
    if n > 0 {
        lemma_without_id(machines, id, n - 1);
    }
}

pub open spec fn route_view(r: Option<Vec<String>>) -> Option<Seq<Seq<char>>> {
    match r {
        Some(v) => Some(commands::texts(v@)),
        None => None,
    }
}

} // verus!
