//! Commands that are run on other machines by way of `ssh`.

use crate::commands;
use crate::text;
use crate::client::remotes::{FailureV, RemoteFailure};
use vstd::prelude::*;

verus! {

/// How many bytes a command may print at most.
pub const MAX_SSH_COMMAND_OUTPUT: u64 = 8388608;

/// Why a command cannot be run on another machine.
#[derive(Clone, Copy, Debug, PartialEq, Eq, Structural)]
pub enum SshError {
    /// There is no machine to go to.
    EmptyRoute,
    /// A text holds a null character, which no argument can.
    NullCharacter,
}

impl SshError {
    pub open spec fn text(self) -> Seq<char> {
        match self {
            SshError::EmptyRoute => "empty SSH route"@,
            SshError::NullCharacter => "argument contains a null character"@,
        }
    }

    /// The words for it.
    pub fn message(self) -> (r: &'static str)
        ensures
            r@ == self.text(),
    {
        match self {
            SshError::EmptyRoute => "empty SSH route",
            SshError::NullCharacter => "argument contains a null character",
        }
    }
}

pub open spec fn has_null(s: Seq<char>) -> bool {
    exists|i: int| 0 <= i < s.len() && #[trigger] s[i] == '\0'
}

/// What stands between the quotes for the first `n` characters of a text: a quote ends them, is
/// written on its own, and begins them anew.
pub open spec fn between_quotes(s: Seq<char>, n: int) -> Seq<char>
    decreases n,
{
    if n <= 0 {
        Seq::empty()
    } else if s[n - 1] == '\'' {
        between_quotes(s, n - 1) + seq!['\'', '\\', '\'', '\'']
    } else {
        between_quotes(s, n - 1).push(s[n - 1])
    }
}

/// A text quoted so that a shell takes it as one word.
pub open spec fn shell_word(s: Seq<char>) -> Seq<char> {
    seq!['\''] + between_quotes(s, s.len() as int) + seq!['\'']
}

/// What a shell makes of a word that is quoted by single quotes and backslashes; none, where it
/// does not end.
pub open spec fn word_read(s: Seq<char>, quoted: bool) -> Option<Seq<char>>
    decreases s.len(),
{
    if s.len() == 0 {
        if quoted {
            None
        } else {
            Some(Seq::empty())
        }
    } else if s[0] == '\'' {
        word_read(s.skip(1), !quoted)
    } else if !quoted && s[0] == '\\' {
        if s.len() < 2 {
            None
        } else {
            with_first(s[1], word_read(s.skip(2), false))
        }
    } else if quoted {
        with_first(s[0], word_read(s.skip(1), true))
    } else {
        None
    }
}

pub open spec fn with_first(c: char, rest: Option<Seq<char>>) -> Option<Seq<char>> {
    match rest {
        Some(r) => Some(seq![c] + r),
        None => None,
    }
}

proof fn lemma_word_read(s: Seq<char>, n: int, tail: Seq<char>)
    requires
        0 <= n <= s.len(),
    ensures
        word_read(between_quotes(s, n) + tail, true) == (match word_read(tail, true) {
            Some(r) => Some(s.take(n) + r),
            None => None,
        }),
    decreases n,
{
    if n <= 0 {
        assert(between_quotes(s, n) + tail =~= tail);
        match word_read(tail, true) {
            Some(r) => {
                assert(s.take(n) + r =~= r);
            },
            None => {},
        }
    } else if s[n - 1] == '\'' {
        let mark = seq!['\'', '\\', '\'', '\''];
        lemma_word_read(s, n - 1, mark + tail);
        assert(between_quotes(s, n) + tail =~= between_quotes(s, n - 1) + (mark + tail));
        let a = mark + tail;
        assert(a.skip(1) =~= seq!['\\', '\'', '\''] + tail);
        let b = a.skip(1);
        assert(b.skip(2) =~= seq!['\''] + tail);
        let c = b.skip(2);
        assert(c.skip(1) =~= tail);
        assert(word_read(c, false) == word_read(tail, true));
        assert(word_read(b, false) == with_first('\'', word_read(c, false)));
        assert(word_read(a, true) == word_read(b, false));
        match word_read(tail, true) {
            Some(r) => {
                assert(s.take(n - 1) + (seq!['\''] + r) =~= s.take(n) + r);
            },
            None => {},
        }
    } else {
        let ch = s[n - 1];
        lemma_word_read(s, n - 1, seq![ch] + tail);
        assert(between_quotes(s, n) + tail =~= between_quotes(s, n - 1) + (seq![ch] + tail));
        let a = seq![ch] + tail;
        assert(a.skip(1) =~= tail);
        assert(word_read(a, true) == with_first(ch, word_read(tail, true)));
        match word_read(tail, true) {
            Some(r) => {
                assert(s.take(n - 1) + (seq![ch] + r) =~= s.take(n) + r);
            },
            None => {},
        }
    }
}

/// A shell takes a quoted text as one word, and that word is the text.
pub proof fn law_quoting_is_read_back(s: Seq<char>)
    ensures
        word_read(shell_word(s), false) == Some(s),
{
    let end = seq!['\''];
    let w = shell_word(s);
    lemma_word_read(s, s.len() as int, end);
    assert(w.skip(1) =~= between_quotes(s, s.len() as int) + end);
    assert(end.skip(1) =~= Seq::empty());
    assert(word_read(end.skip(1), false) == Some(Seq::<char>::empty()));
    assert(word_read(end, true) == Some(Seq::<char>::empty()));
    assert(s.take(s.len() as int) + Seq::<char>::empty() =~= s);
}

/// A text quoted so that a shell takes it as one word.
pub fn posix_quote(s: &str) -> (r: Result<String, SshError>)
    ensures
        match r {
            Ok(q) => !has_null(s@) && q@ == shell_word(s@),
            Err(e) => has_null(s@) && e == SshError::NullCharacter,
        },
{
    let cs = text::chars_of(s);
    let mut out = String::new();
    out.push('\'');
    let mut i: usize = 0;
    while i < cs.len()
        invariant
            i <= cs@.len(),
            cs@ == s@,
            out@ == seq!['\''] + between_quotes(s@, i as int),
            forall|k: int| 0 <= k < i ==> s@[k] != '\0',
        decreases cs@.len() - i,
    {
        let c: char = cs[i];
        let ghost before = out@;
        let ghost inner = between_quotes(s@, i as int);
        if c == '\0' {
            proof {
                assert(s@[i as int] == '\0');
            }
            return Err(SshError::NullCharacter);
        }
        if c == '\'' {
            out.push('\'');
            out.push('\\');
            out.push('\'');
            out.push('\'');
            proof {
                assert(out@ =~= seq!['\''] + (inner + seq!['\'', '\\', '\'', '\'']));
            }
        } else {
            out.push(c);
            proof {
                assert(out@ =~= seq!['\''] + inner.push(c));
            }
        }
        i = i + 1;
    }
    out.push('\'');
    proof {
        assert(out@ =~= shell_word(s@));
    }
    Ok(out)
}

/// The command that goes on from one machine to the next.
pub open spec fn hop_command(hop: Seq<char>, command: Seq<char>) -> Seq<char> {
    "exec ssh -T -o BatchMode=yes -o ConnectTimeout=5 "@ + shell_word(hop) + " "@ + shell_word(
        command,
    )
}

/// What is run on the machine before stop `k` of a route, so that the payload is run on the last
/// one.
pub open spec fn nested_command(route: Seq<Seq<char>>, payload: Seq<char>, k: int) -> Seq<char>
    decreases route.len() - k,
{
    if k < 0 || k >= route.len() {
        payload
    } else {
        hop_command(route[k], nested_command(route, payload, k + 1))
    }
}

/// Whether nothing that is quoted on the way holds a null character.
pub open spec fn can_nest(route: Seq<Seq<char>>, payload: Seq<char>) -> bool {
    route.len() > 1 ==> !has_null(payload) && forall|i: int|
        1 <= i < route.len() ==> !has_null(#[trigger] route[i])
}

/// The arguments of `ssh` before the machine. With `share`, connections to one machine share one
/// transport.
pub open spec fn ssh_options(share: bool) -> Seq<Seq<char>> {
    seq!["-T"@, "-o"@, "BatchMode=yes"@, "-o"@, "ConnectTimeout=5"@] + (if share {
        seq![
            "-o"@,
            "ControlMaster=auto"@,
            "-o"@,
            "ControlPersist=60"@,
            "-o"@,
            "ControlPath=/tmp/zmux-ssh-%C"@,
        ]
    } else {
        Seq::empty()
    })
}

proof fn lemma_plain_command(route: Seq<Seq<char>>, payload: Seq<char>, k: int)
    requires
        1 <= k <= route.len(),
        !has_null(payload),
        forall|i: int| 1 <= i < route.len() ==> !has_null(#[trigger] route[i]),
    ensures
        !has_null(nested_command(route, payload, k)),
    decreases route.len() - k,
{
    if k < route.len() {
        let inner = nested_command(route, payload, k + 1);
        lemma_plain_command(route, payload, k + 1);
        lemma_plain_word(route[k], route[k].len() as int);
        lemma_plain_word(inner, inner.len() as int);
        reveal_strlit("exec ssh -T -o BatchMode=yes -o ConnectTimeout=5 ");
        reveal_strlit(" ");
        let a = "exec ssh -T -o BatchMode=yes -o ConnectTimeout=5 "@;
        let b = shell_word(route[k]);
        let c = " "@;
        let d = shell_word(inner);
        assert(!has_null(a));
        assert(!has_null(c));
        lemma_plain_sum(a, b);
        lemma_plain_sum(a + b, c);
        lemma_plain_sum(a + b + c, d);
    }
}

proof fn lemma_plain_sum(a: Seq<char>, b: Seq<char>)
    requires
        !has_null(a),
        !has_null(b),
    ensures
        !has_null(a + b),
{
    assert forall|i: int| 0 <= i < (a + b).len() implies #[trigger] (a + b)[i] != '\0' by {
        if i < a.len() {
            assert((a + b)[i] == a[i]);
        } else {
            assert((a + b)[i] == b[i - a.len()]);
        }
    }
}

proof fn lemma_plain_word(s: Seq<char>, n: int)
    requires
        !has_null(s),
        0 <= n <= s.len(),
    ensures
        !has_null(between_quotes(s, n)),
        !has_null(shell_word(s)) || n < s.len(),
    decreases n,
{
    if n > 0 {
        lemma_plain_word(s, n - 1);
        assert(s[n - 1] != '\0');
        let mark = seq!['\'', '\\', '\'', '\''];
        assert(!has_null(mark));
        assert(!has_null(seq![s[n - 1]]));
        lemma_plain_sum(between_quotes(s, n - 1), mark);
        lemma_plain_sum(between_quotes(s, n - 1), seq![s[n - 1]]);
        assert(between_quotes(s, n - 1) + seq![s[n - 1]] =~= between_quotes(s, n - 1).push(
            s[n - 1],
        ));
    }
    if n == s.len() {
        let q = seq!['\''];
        assert(!has_null(q));
        lemma_plain_sum(q, between_quotes(s, n));
        lemma_plain_sum(q + between_quotes(s, n), q);
    }
}

/// The arguments of `ssh` that run a payload on the last machine of a route.
pub fn ssh_command(route: &[String], payload: &str, share: bool) -> (r: Result<
    Vec<String>,
    SshError,
>)
    ensures
        ({
            let stops = commands::texts(route@);
            match r {
                Ok(args) => {
                    &&& stops.len() > 0
                    &&& can_nest(stops, payload@)
                    &&& commands::texts(args@) == ssh_options(share).push(stops[0]).push(
                        nested_command(stops, payload@, 1),
                    )
                },
                Err(SshError::EmptyRoute) => stops.len() == 0,
                Err(SshError::NullCharacter) => stops.len() > 0 && !can_nest(stops, payload@),
            }
        }),
{
    let ghost stops = commands::texts(route@);
    if route.len() == 0 {
        return Err(SshError::EmptyRoute);
    }
    let mut command = payload.to_string();
    let mut k: usize = route.len();
    while k > 1
        invariant
            1 <= k <= route@.len(),
            stops == commands::texts(route@),
            stops.len() == route@.len(),
            command@ == nested_command(stops, payload@, k as int),
            k < route@.len() ==> !has_null(payload@),
            forall|i: int| k <= i < stops.len() ==> !has_null(#[trigger] stops[i]),
        decreases k,
    {
        let hop = &route[k - 1];
        proof {
            assert(stops[k - 1] == hop@);
        }
        let quoted_hop = match posix_quote(hop.as_str()) {
            Ok(q) => q,
            Err(e) => {
                return Err(e);
            },
        };
        let quoted_command = match posix_quote(command.as_str()) {
            Ok(q) => q,
            Err(e) => {
                proof {
                    if can_nest(stops, payload@) {
                        lemma_plain_command(stops, payload@, k as int);
                    }
                }
                return Err(e);
            },
        };
        let mut next = "exec ssh -T -o BatchMode=yes -o ConnectTimeout=5 ".to_string();
        next.append(quoted_hop.as_str());
        next.append(" ");
        next.append(quoted_command.as_str());
        proof {
            if k == route@.len() {
                assert(command@ == payload@);
            }
        }
        command = next;
        k = k - 1;
    }
    let mut args: Vec<String> = Vec::new();
    args.push("-T".to_string());
    args.push("-o".to_string());
    args.push("BatchMode=yes".to_string());
    args.push("-o".to_string());
    args.push("ConnectTimeout=5".to_string());
    if share {
        args.push("-o".to_string());
        args.push("ControlMaster=auto".to_string());
        args.push("-o".to_string());
        args.push("ControlPersist=60".to_string());
        args.push("-o".to_string());
        args.push("ControlPath=/tmp/zmux-ssh-%C".to_string());
    }
    args.push(route[0].clone());
    args.push(command);
    proof {
        assert(stops[0] == route@[0]@);
        assert(commands::texts(args@) =~= ssh_options(share).push(stops[0]).push(
            nested_command(stops, payload@, 1),
        ));
    }
    Ok(args)
}

/// What is run on a machine to find out whether it can be attached to.
pub fn probe_payload() -> (r: &'static str)
    ensures
        r@
            == "if ! command -v zmux >/dev/null 2>&1; then exit 127; fi; zmux protocol-info"@,
{
    "if ! command -v zmux >/dev/null 2>&1; then exit 127; fi; zmux protocol-info"
}

/// What is run on a machine to talk to a server there.
pub fn bridge_payload(socket_name: &str) -> (r: Result<String, SshError>)
    ensures
        match r {
            Ok(s) => !has_null(socket_name@) && s@ == "exec zmux -L "@ + shell_word(socket_name@)
                + " mux --stdio --start-if-missing"@,
            Err(e) => has_null(socket_name@) && e == SshError::NullCharacter,
        },
{
    match posix_quote(socket_name) {
        Ok(q) => {
            let mut out = "exec zmux -L ".to_string();
            out.append(q.as_str());
            out.append(" mux --stdio --start-if-missing");
            Ok(out)
        },
        Err(e) => Err(e),
    }
}

/// How a probe came out.
#[derive(Debug)]
pub enum ProbeOutcome {
    /// It could not be run to its end.
    NotRun(RemoteFailure),
    /// It ended with an error, whose number may not be known, after it wrote something.
    Exited { code: Option<i32>, written: String },
    /// The two sides do not understand each other.
    Refused(String),
    /// They do, and share these capabilities.
    Agreed(Vec<String>),
}

#[verifier::ext_equal]
pub enum ProbeV {
    NotRun(FailureV),
    Exited { code: Option<i32>, written: Seq<char> },
    Refused(Seq<char>),
    Agreed(Seq<Seq<char>>),
}

impl View for ProbeOutcome {
    type V = ProbeV;

    open spec fn view(&self) -> ProbeV {
        match *self {
            ProbeOutcome::NotRun(f) => ProbeV::NotRun(f@),
            ProbeOutcome::Exited { code, written } => ProbeV::Exited { code, written: written@ },
            ProbeOutcome::Refused(e) => ProbeV::Refused(e@),
            ProbeOutcome::Agreed(c) => ProbeV::Agreed(commands::texts(c@)),
        }
    }
}

/// The stops of a route with slashes between them, for the first `n` of them.
pub open spec fn route_text(route: Seq<Seq<char>>, n: int) -> Seq<char>
    decreases n,
{
    if n <= 0 {
        Seq::empty()
    } else if n == 1 {
        route[0]
    } else {
        route_text(route, n - 1) + "/"@ + route[n - 1]
    }
}

/// The stops of a route with slashes between them.
pub fn route_label(route: &[String]) -> (r: String)
    ensures
        r@ == route_text(commands::texts(route@), route@.len() as int),
{
    let ghost stops = commands::texts(route@);
    let mut out = String::new();
    let mut i: usize = 0;
    while i < route.len()
        invariant
            i <= route@.len(),
            stops == commands::texts(route@),
            out@ == route_text(stops, i as int),
        decreases route@.len() - i,
    {
        proof {
            assert(stops[i as int] == route@[i as int]@);
        }
        let ghost before = out@;
        if i > 0 {
            out.append("/");
        }
        out.append(route[i].as_str());
        proof {
            if i == 0 {
                assert(out@ =~= route_text(stops, 1));
            }
        }
        i = i + 1;
    }
    out
}

pub open spec fn final_failure(message: Seq<char>) -> Option<FailureV> {
    Some(FailureV { message, retryable: false })
}

/// What a probe says of a machine: nothing, where it can be attached to.
pub open spec fn probe_failure(route: Seq<Seq<char>>, outcome: ProbeV) -> Option<FailureV> {
    match outcome {
        ProbeV::NotRun(f) => Some(f),
        ProbeV::Refused(e) => final_failure(e),
        ProbeV::Agreed(capabilities) => if capabilities.contains("ssh-stdio-v1"@) {
            None
        } else {
            final_failure(
                "missing_capability: remote lacks ssh-stdio-v1; upgrade remote zmux"@,
            )
        },
        ProbeV::Exited { code, written } => {
            let error = text::trimmed(written);
            if code == Some(127i32) {
                final_failure(
                    "zmux_missing: install zmux on "@ + route_text(route, route.len() as int)
                        + " and expose it on the non-interactive SSH PATH; press R to retry"@,
                )
            } else if code == Some(255i32) || code is None {
                Some(
                    FailureV {
                        message: if error.len() == 0 {
                            "SSH transport unavailable"@
                        } else {
                            error
                        },
                        retryable: true,
                    },
                )
            } else {
                final_failure(
                    "protocol_info_unavailable: remote zmux must support protocol-info; upgrade it and press R to retry. "@
                        + error,
                )
            }
        },
    }
}

fn holds(list: &Vec<String>, text: &str) -> (r: bool)
    ensures
        r == commands::texts(list@).contains(text@),
{
    let ghost all = commands::texts(list@);
    let mut i: usize = 0;
    while i < list.len()
        invariant
            i <= list@.len(),
            all == commands::texts(list@),
            forall|k: int| 0 <= k < i ==> all[k] != text@,
        decreases list@.len() - i,
    {
        proof {
            assert(all[i as int] == list@[i as int]@);
        }
        if text::same_text(list[i].as_str(), text) {
            return true;
        }
        i = i + 1;
    }
    false
}

/// What a probe says of a machine: nothing, where it can be attached to.
pub fn probe_verdict(route: &[String], outcome: ProbeOutcome) -> (r: Option<RemoteFailure>)
    ensures
        (match r {
            Some(f) => Some(f@),
            None => None,
        }) == probe_failure(commands::texts(route@), outcome@),
{
    match outcome {
        ProbeOutcome::NotRun(f) => Some(f),
        ProbeOutcome::Refused(e) => Some(RemoteFailure::permanent(e)),
        ProbeOutcome::Agreed(capabilities) => {
            if holds(&capabilities, "ssh-stdio-v1") {
                None
            } else {
                Some(
                    RemoteFailure::permanent(
                        "missing_capability: remote lacks ssh-stdio-v1; upgrade remote zmux".to_string(),
                    ),
                )
            }
        },
        ProbeOutcome::Exited { code, written } => {
            let error = text::string_of(text::trim(text::chars_of(written.as_str()).as_slice()).as_slice());
            let number: i32 = match code {
                Some(n) => n,
                None => 255,
            };
            if number == 127 {
                let mut text = "zmux_missing: install zmux on ".to_string();
                text.append(route_label(route).as_str());
                text.append(" and expose it on the non-interactive SSH PATH; press R to retry");
                Some(RemoteFailure::permanent(text))
            } else if number == 255 {
                Some(
                    RemoteFailure::transient(
                        if error.as_str().unicode_len() == 0 {
                            "SSH transport unavailable".to_string()
                        } else {
                            error
                        },
                    ),
                )
            } else {
                let mut text =
                    "protocol_info_unavailable: remote zmux must support protocol-info; upgrade it and press R to retry. ".to_string();
                text.append(error.as_str());
                Some(RemoteFailure::permanent(text))
            }
        },
    }
}

/// What is done while a command runs.
#[derive(Clone, Copy, Debug, PartialEq, Eq, Structural)]
pub enum RunStep {
    /// It is over, and all that it printed is read.
    Done,
    /// It has taken too long, and is ended.
    Kill,
    /// It is looked after again in so many milliseconds.
    Wait(u64),
}

/// What is done while a command runs. Its time runs until all that it printed is read, even after
/// it has ended: what it started may hold on to its output.
pub fn run_step(exited: bool, outputs_read: bool, now: u64, deadline: u64) -> (r: RunStep)
    ensures
        r == (if exited && outputs_read {
            RunStep::Done
        } else if now >= deadline {
            RunStep::Kill
        } else {
            RunStep::Wait(25)
        }),
{
    if exited && outputs_read {
        RunStep::Done
    } else if now >= deadline {
        RunStep::Kill
    } else {
        RunStep::Wait(25)
    }
}

/// Whether a command printed no more than it may.
pub fn output_fits(stdout_len: u64, stderr_len: u64) -> (r: bool)
    ensures
        r == (stdout_len <= MAX_SSH_COMMAND_OUTPUT && stderr_len <= MAX_SSH_COMMAND_OUTPUT),
{
    stdout_len <= MAX_SSH_COMMAND_OUTPUT && stderr_len <= MAX_SSH_COMMAND_OUTPUT
}

} // verus!
