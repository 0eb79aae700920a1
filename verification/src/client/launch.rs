//! How the client begins: which servers it goes to, and what it starts with.

use crate::client::actions;
use crate::client::state;
use crate::commands;
use crate::text;
use crate::client::actions::Effect;
use crate::client::mode::{InputMode, ModeV};
use crate::client::remotes::RemoteRegistry;
use crate::client::state::{Client, ClientV, ConnectionV, ManagerV, NavV, Ui, UiV, WorkspaceConnection, WorkspaceManager};
use crate::navigation::NavigationState;
use vstd::prelude::*;

verus! {

/// What the client was called with.
#[derive(Debug)]
pub struct ClientApp {
    pub socket_name: String,
    pub session_name: Option<String>,
    pub clean: bool,
    pub start_dir: Option<String>,
    pub attach_all: bool,
}

impl ClientApp {
    /// A client of one server.
    pub fn new(
        socket_name: &str,
        session_name: Option<String>,
        clean: bool,
        start_dir: Option<String>,
    ) -> (r: Self)
        ensures
            r.socket_name@ == socket_name@,
            r.session_name == session_name,
            r.clean == clean,
            r.start_dir == start_dir,
            !r.attach_all,
    {
        ClientApp {
            socket_name: socket_name.to_string(),
            session_name,
            clean,
            start_dir,
            attach_all: false,
        }
    }

    /// A client of every server that runs.
    pub fn new_attach_all(
        socket_name: &str,
        session_name: Option<String>,
        clean: bool,
        start_dir: Option<String>,
    ) -> (r: Self)
        ensures
            r.socket_name@ == socket_name@,
            r.session_name == session_name,
            r.clean == clean,
            r.start_dir == start_dir,
            r.attach_all,
    {
        ClientApp {
            socket_name: socket_name.to_string(),
            session_name,
            clean,
            start_dir,
            attach_all: true,
        }
    }
}

/// What the local machine is called: as its environment says, or as it prints itself, or just so.
pub open spec fn local_name(set: Option<Seq<char>>, printed: Option<Seq<char>>) -> Seq<char> {
    match set {
        Some(s) => if text::trimmed(s).len() > 0 {
            s
        } else {
            printed_name(printed)
        },
        None => printed_name(printed),
    }
}

pub open spec fn printed_name(printed: Option<Seq<char>>) -> Seq<char> {
    match printed {
        Some(p) => if text::trimmed(p).len() > 0 {
            text::trimmed(p)
        } else {
            "local"@
        },
        None => "local"@,
    }
}

/// What the local machine is called.
pub fn local_machine_name(set: Option<String>, printed: Option<String>) -> (r: String)
    ensures
        r@ == local_name(commands::opt_text(set), commands::opt_text(printed)),
{
    if let Some(s) = set {
        if text::trim(text::chars_of(s.as_str()).as_slice()).len() > 0 {
            return s;
        }
    }
    if let Some(p) = printed {
        let bare = text::trim(text::chars_of(p.as_str()).as_slice());
        if bare.len() > 0 {
            return text::string_of(bare.as_slice());
        }
    }
    "local".to_string()
}

/// Whether a text stands before another one in the order of their characters.
pub open spec fn text_before(a: Seq<char>, b: Seq<char>) -> bool
    decreases a.len(),
{
    if b.len() == 0 {
        false
    } else if a.len() == 0 {
        true
    } else if a[0] != b[0] {
        (a[0] as int) < (b[0] as int)
    } else {
        text_before(a.skip(1), b.skip(1))
    }
}

proof fn lemma_before_total(a: Seq<char>, b: Seq<char>)
    ensures
        text_before(a, b) || text_before(b, a) || a == b,
        !(text_before(a, b) && text_before(b, a)),
        !text_before(a, a),
    decreases a.len(),
{
    if a.len() > 0 && b.len() > 0 {
        lemma_before_total(a.skip(1), b.skip(1));
        if a[0] == b[0] && a.skip(1) == b.skip(1) {
            assert(a =~= seq![a[0]] + a.skip(1));
            assert(b =~= seq![b[0]] + b.skip(1));
        }
    } else if a.len() == 0 && b.len() == 0 {
        assert(a =~= b);
    }
    if a.len() > 0 {
        lemma_before_total(a.skip(1), a.skip(1));
    }
}

proof fn lemma_before_chain(a: Seq<char>, b: Seq<char>, c: Seq<char>)
    requires
        text_before(a, b),
        text_before(b, c),
    ensures
        text_before(a, c),
    decreases a.len(),
{
    if a.len() > 0 && b.len() > 0 && c.len() > 0 && a[0] == b[0] && b[0] == c[0] {
        lemma_before_chain(a.skip(1), b.skip(1), c.skip(1));
    }
}

fn is_before(a: &[char], b: &[char]) -> (r: bool)
    ensures
        r == text_before(a@, b@),
{
    let mut i: usize = 0;
    proof {
        assert(a@.skip(0) =~= a@);
        assert(b@.skip(0) =~= b@);
    }
    while i < a.len() && i < b.len()
        invariant
            i <= a@.len(),
            i <= b@.len(),
            text_before(a@.skip(i as int), b@.skip(i as int)) == text_before(a@, b@),
        decreases a@.len() - i,
    {
        let x: char = a[i];
        let y: char = b[i];
        proof {
            assert(a@.skip(i as int)[0] == x);
            assert(b@.skip(i as int)[0] == y);
            assert(a@.skip(i as int).skip(1) =~= a@.skip(i + 1));
            assert(b@.skip(i as int).skip(1) =~= b@.skip(i + 1));
        }
        if x != y {
            let less: bool = x < y;
            proof {
                assert(less == ((x as int) < (y as int)));
                assert(text_before(a@.skip(i as int), b@.skip(i as int)) == less);
            }
            return less;
        }
        i = i + 1;
    }
    i < b.len()
}

/// The order of servers: the named one first, the others by name.
pub open spec fn server_before(socket: Seq<char>, a: Seq<char>, b: Seq<char>) -> bool {
    b != socket && (a == socket || text_before(a, b))
}

fn goes_before(socket: &str, a: &str, b: &str) -> (r: bool)
    ensures
        r == server_before(socket@, a@, b@),
{
    !text::same_text(b, socket) && (text::same_text(a, socket) || is_before(
        text::chars_of(a).as_slice(),
        text::chars_of(b).as_slice(),
    ))
}

pub open spec fn in_server_order(socket: Seq<char>, names: Seq<Seq<char>>) -> bool {
    forall|i: int, j: int|
        0 <= i < j < names.len() ==> server_before(socket, #[trigger] names[i], #[trigger] names[j])
}

proof fn lemma_server_order(socket: Seq<char>, a: Seq<char>, b: Seq<char>, c: Seq<char>)
    ensures
        server_before(socket, a, b) && server_before(socket, b, c) ==> server_before(socket, a, c),
        server_before(socket, a, b) || server_before(socket, b, a) || a == b,
{
    lemma_before_total(a, b);
    if text_before(a, b) && text_before(b, c) {
        lemma_before_chain(a, b, c);
    }
}

/// Adds a name where it belongs, unless it is there.
fn insert_name(socket: &str, names: &mut Vec<String>, name: String)
    requires
        in_server_order(socket@, commands::texts(old(names)@)),
    ensures
        in_server_order(socket@, commands::texts(final(names)@)),
        forall|t: Seq<char>| #[trigger]
            commands::texts(final(names)@).contains(t) <==> commands::texts(old(names)@).contains(t) || t == name@,
{
    let ghost before = commands::texts(names@);
    let ghost label = name@;
    let mut at: usize = 0;
    while at < names.len() && goes_before(socket, names[at].as_str(), name.as_str())
        invariant
            at <= names@.len(),
            before == commands::texts(names@),
            label == name@,
            forall|k: int| 0 <= k < at ==> server_before(socket@, #[trigger] before[k], label),
        decreases names@.len() - at,
    {
        proof {
            assert(before[at as int] == names@[at as int]@);
        }
        at = at + 1;
    }
    proof {
        if at < names@.len() {
            assert(before[at as int] == names@[at as int]@);
        }
    }
    if at < names.len() && text::same_text(names[at].as_str(), name.as_str()) {
        proof {
            assert(before[at as int] == label);
        }
        return ;
    }
    let ghost held = names@;
    names.insert(at, name);
    proof {
        let after = commands::texts(names@);
        assert(after =~= before.insert(at as int, label));
        if at < before.len() {
            lemma_server_order(socket@, label, before[at as int], label);
            assert(server_before(socket@, label, before[at as int]));
        }
        assert forall|i: int, j: int| 0 <= i < j < after.len() implies server_before(
            socket@,
            #[trigger] after[i],
            #[trigger] after[j],
        ) by {
            if i < at && j == at {
                assert(after[i] == before[i]);
            } else if i == at {
                assert(after[j] == before[j - 1]);
                if j - 1 > at {
                    lemma_server_order(socket@, label, before[at as int], before[j - 1]);
                }
            } else {
                let p = if i < at {
                    i
                } else {
                    i - 1
                };
                let q = if j < at {
                    j
                } else {
                    j - 1
                };
                assert(after[i] == before[p]);
                assert(after[j] == before[q]);
            }
        }
        assert forall|t: Seq<char>| #[trigger] after.contains(t) <==> before.contains(t) || t
            == label by {
            if after.contains(t) {
                let k = choose|k: int| 0 <= k < after.len() && after[k] == t;
                if k < at {
                    assert(before[k] == t);
                } else if k > at {
                    assert(before[k - 1] == t);
                }
            }
            if before.contains(t) {
                let k = choose|k: int| 0 <= k < before.len() && before[k] == t;
                if k < at {
                    assert(after[k] == t);
                } else {
                    assert(after[k + 1] == t);
                }
            }
            if t == label {
                assert(after[at as int] == t);
            }
        }
    }
}

/// The servers that there are, each once: the named one first, the others by name.
pub fn discover_all_socket_names(socket_name: &str, own: bool, found: Vec<String>) -> (r: Vec<
    String,
>)
    ensures
        in_server_order(socket_name@, commands::texts(r@)),
        forall|t: Seq<char>| #[trigger]
            commands::texts(r@).contains(t) <==> commands::texts(found@).contains(t) || (own && t == socket_name@),
{
    let mut names: Vec<String> = Vec::new();
    let ghost all = commands::texts(found@);
    proof {
        assert(commands::texts(names@) =~= Seq::empty());
    }
    if own {
        insert_name(socket_name, &mut names, socket_name.to_string());
    }
    let mut i: usize = 0;
    while i < found.len()
        invariant
            i <= found@.len(),
            all == commands::texts(found@),
            in_server_order(socket_name@, commands::texts(names@)),
            forall|t: Seq<char>| #[trigger]
                commands::texts(names@).contains(t) <==> all.take(i as int).contains(t) || (own && t
                    == socket_name@),
        decreases found@.len() - i,
    {
        let ghost before = commands::texts(names@);
        insert_name(socket_name, &mut names, found[i].clone());
        proof {
            assert(all[i as int] == found@[i as int]@);
            assert forall|t: Seq<char>| #[trigger]
                commands::texts(names@).contains(t) <==> all.take(i + 1).contains(t) || (own && t
                    == socket_name@) by {
                assert(before.contains(t) <==> all.take(i as int).contains(t) || (own && t
                    == socket_name@));
                if all.take(i + 1).contains(t) {
                    let k = choose|k: int| 0 <= k < i + 1 && #[trigger] all.take(i + 1)[k] == t;
                    if k < i {
                        assert(all.take(i as int)[k] == t);
                    }
                }
                if all.take(i as int).contains(t) {
                    let k = choose|k: int| 0 <= k < i && #[trigger] all.take(i as int)[k] == t;
                    assert(all.take(i + 1)[k] == t);
                }
                assert(all.take(i + 1)[i as int] == all[i as int]);
            }
        }
        i = i + 1;
    }
    proof {
        assert(all.take(i as int) =~= all);
    }
    names
}

/// What came of an attempt to connect to a server.
#[derive(Clone, Copy, Debug, PartialEq, Eq, Structural)]
pub enum Attempt {
    Connected,
    /// Nothing is there.
    Absent,
    /// Something is there that speaks another language.
    Incompatible,
    Failed,
}

/// How far the start of a server has got.
#[derive(Clone, Copy, Debug, PartialEq, Eq, Structural)]
pub enum StartState {
    /// A server that runs is looked for.
    Connecting,
    /// It is made sure that none runs.
    Checking,
    /// One is started.
    Spawning,
    /// It is waited for; so many attempts were made.
    Waiting(u8),
}

/// Why no server was connected to.
#[derive(Clone, Copy, Debug, PartialEq, Eq, Structural)]
pub enum StartError {
    /// As the attempt says.
    Attempt,
    /// One runs although none was to.
    InUse,
    /// None could be started.
    NotSpawned,
    /// The one that was started did not answer.
    TooLate,
}

/// What is done next.
#[derive(Clone, Copy, Debug, PartialEq, Eq, Structural)]
pub enum StartStep {
    /// A connection is tried, after a wait in milliseconds.
    Connect { wait: u64 },
    /// Whatever is there is spoken to.
    Check,
    /// What is left of an earlier server is cleared away, and one is started.
    Spawn,
    /// There is a connection, to a server that ran already or not.
    Done { existing: bool },
    Fail(StartError),
}

/// How many times a server that was started is tried.
pub const START_ATTEMPTS: u8 = 100;

pub open spec fn start_begun(clean: bool) -> (StartState, StartStep) {
    if clean {
        (StartState::Checking, StartStep::Check)
    } else {
        (StartState::Connecting, StartStep::Connect { wait: 0 })
    }
}

/// Begins to look for a server or, with `clean`, to start one in any case.
pub fn begin_start(clean: bool) -> (r: (StartState, StartStep))
    ensures
        r == start_begun(clean),
{
    if clean {
        (StartState::Checking, StartStep::Check)
    } else {
        (StartState::Connecting, StartStep::Connect { wait: 0 })
    }
}

/// What is done once an attempt was made. A server that runs is never cleared away.
pub open spec fn started_on(state: StartState, attempt: Attempt) -> (StartState, StartStep) {
    match state {
        StartState::Connecting => match attempt {
            Attempt::Connected => (state, StartStep::Done { existing: true }),
            Attempt::Absent => (StartState::Spawning, StartStep::Spawn),
            _ => (state, StartStep::Fail(StartError::Attempt)),
        },
        StartState::Checking => match attempt {
            Attempt::Connected => (state, StartStep::Fail(StartError::InUse)),
            Attempt::Absent => (StartState::Spawning, StartStep::Spawn),
            _ => (state, StartStep::Fail(StartError::Attempt)),
        },
        StartState::Spawning => match attempt {
            Attempt::Connected => (StartState::Waiting(0), StartStep::Connect { wait: 50 }),
            _ => (state, StartStep::Fail(StartError::NotSpawned)),
        },
        StartState::Waiting(n) => match attempt {
            Attempt::Connected => (state, StartStep::Done { existing: false }),
            Attempt::Incompatible => (state, StartStep::Fail(StartError::Attempt)),
            _ => if n + 1 >= START_ATTEMPTS {
                (state, StartStep::Fail(StartError::TooLate))
            } else {
                (StartState::Waiting((n + 1) as u8), StartStep::Connect { wait: 50 })
            },
        },
    }
}

/// What is done once an attempt was made; that to start a server counts as one to connect.
pub fn ensure_server_and_connect(state: StartState, attempt: Attempt) -> (r: (StartState, StartStep))
    ensures
        r == started_on(state, attempt),
{
    match state {
        StartState::Connecting => match attempt {
            Attempt::Connected => (state, StartStep::Done { existing: true }),
            Attempt::Absent => (StartState::Spawning, StartStep::Spawn),
            _ => (state, StartStep::Fail(StartError::Attempt)),
        },
        StartState::Checking => match attempt {
            Attempt::Connected => (state, StartStep::Fail(StartError::InUse)),
            Attempt::Absent => (StartState::Spawning, StartStep::Spawn),
            _ => (state, StartStep::Fail(StartError::Attempt)),
        },
        StartState::Spawning => match attempt {
            Attempt::Connected => (StartState::Waiting(0), StartStep::Connect { wait: 50 }),
            _ => (state, StartStep::Fail(StartError::NotSpawned)),
        },
        StartState::Waiting(n) => match attempt {
            Attempt::Connected => (state, StartStep::Done { existing: false }),
            Attempt::Incompatible => (state, StartStep::Fail(StartError::Attempt)),
            _ => {
                if n >= START_ATTEMPTS - 1 {
                    (state, StartStep::Fail(StartError::TooLate))
                } else {
                    (StartState::Waiting(n + 1), StartStep::Connect { wait: 50 })
                }
            },
        },
    }
}

/// A server is only started, and what is left of an earlier one only cleared away, after an
/// attempt found that nothing is there.
pub proof fn law_live_server_is_spared(state: StartState, attempt: Attempt)
    requires
        started_on(state, attempt).1 == StartStep::Spawn,
    ensures
        attempt == Attempt::Absent,
{
}

/// Every attempt that finds nothing brings the end of the waiting nearer.
pub proof fn law_waiting_ends(n: u8, attempt: Attempt)
    ensures
        match started_on(StartState::Waiting(n), attempt) {
            (StartState::Waiting(m), StartStep::Connect { .. }) => n < m < START_ATTEMPTS,
            (_, StartStep::Done { .. }) => attempt == Attempt::Connected,
            (_, StartStep::Fail(_)) => attempt != Attempt::Connected,
            _ => false,
        },
{
}

/// A workspace of the local machine.
pub open spec fn local_workspace(socket: Seq<char>) -> ConnectionV {
    ConnectionV {
        socket,
        machine: "local"@,
        focus: None,
        tree: Seq::empty(),
        tree_at: None,
        refresh_until: None,
    }
}

impl WorkspaceConnection {
    /// A workspace of the local machine.
    pub fn local(socket_name: String) -> (r: Self)
        ensures
            r@ == local_workspace(socket_name@),
    {
        let r = WorkspaceConnection {
            socket_name,
            machine_id: "local".to_string(),
            focus: None,
            tree: Vec::new(),
            tree_at: None,
            refresh_until: None,
        };
        proof {
            assert(r@.tree =~= Seq::empty());
        }
        r
    }
}

/// The workspaces of the servers, among the first `n`, that were connected to.
pub open spec fn workspaces_found(
    names: Seq<Seq<char>>,
    attempts: Seq<Attempt>,
    n: int,
) -> Seq<ConnectionV>
    decreases n,
{
    if n <= 0 {
        Seq::empty()
    } else if attempts[n - 1] == Attempt::Connected {
        workspaces_found(names, attempts, n - 1).push(local_workspace(names[n - 1]))
    } else {
        workspaces_found(names, attempts, n - 1)
    }
}

/// The last attempt, among the first `n`, that failed although something is there.
pub open spec fn last_failure(attempts: Seq<Attempt>, n: int) -> Option<int>
    decreases n,
{
    if n <= 0 {
        None
    } else if attempts[n - 1] == Attempt::Failed || attempts[n - 1] == Attempt::Incompatible {
        Some(n - 1)
    } else {
        last_failure(attempts, n - 1)
    }
}

/// Why there is no workspace.
#[derive(Clone, Copy, Debug, PartialEq, Eq, Structural)]
pub enum NoWorkspaces {
    /// No server runs.
    NoneRunning,
    /// As the attempt of this number says.
    Attempt(usize),
}

impl WorkspaceManager {
    /// The one workspace of a server.
    pub fn new(base_socket: &str) -> (r: Self)
        ensures
            r@ == (ManagerV {
                sidebar: false,
                list: seq![local_workspace(base_socket@)],
                active: 0,
                base: base_socket@,
            }),
    {
        let mut workspaces: Vec<WorkspaceConnection> = Vec::new();
        workspaces.push(WorkspaceConnection::local(base_socket.to_string()));
        proof {
            assert(state::connection_views(workspaces@) =~= seq![local_workspace(base_socket@)]);
        }
        WorkspaceManager {
            sidebar_visible: false,
            workspaces,
            active: 0,
            base_socket: base_socket.to_string(),
        }
    }

    /// The workspaces of the servers that were connected to, or why there is none.
    pub fn from_existing_sockets(
        base_socket: &str,
        socket_names: &Vec<String>,
        attempts: &Vec<Attempt>,
    ) -> (r: Result<Self, NoWorkspaces>)
        requires
            socket_names@.len() == attempts@.len(),
        ensures
            ({
                let n = attempts@.len() as int;
                let found = workspaces_found(commands::texts(socket_names@), attempts@, n);
                match r {
                    Ok(m) => found.len() > 0 && m@ == (ManagerV {
                        sidebar: false,
                        list: found,
                        active: 0,
                        base: base_socket@,
                    }),
                    Err(NoWorkspaces::Attempt(i)) => found.len() == 0 && last_failure(
                        attempts@,
                        n,
                    ) == Some(i as int),
                    Err(NoWorkspaces::NoneRunning) => found.len() == 0 && last_failure(
                        attempts@,
                        n,
                    ) is None,
                }
            }),
    {
        let ghost names = commands::texts(socket_names@);
        let mut workspaces: Vec<WorkspaceConnection> = Vec::new();
        let mut failure: Option<usize> = None;
        let mut i: usize = 0;
        proof {
            assert(state::connection_views(workspaces@) =~= Seq::empty());
        }
        while i < attempts.len()
            invariant
                i <= attempts@.len(),
                names == commands::texts(socket_names@),
                socket_names@.len() == attempts@.len(),
                state::connection_views(workspaces@) == workspaces_found(names, attempts@, i as int),
                (match failure {
                    Some(k) => Some(k as int),
                    None => None,
                }) == last_failure(attempts@, i as int),
            decreases attempts@.len() - i,
        {
            let ghost before = workspaces@;
            proof {
                assert(names[i as int] == socket_names@[i as int]@);
            }
            match attempts[i] {
                Attempt::Connected => {
                    let w = WorkspaceConnection::local(socket_names[i].clone());
                    workspaces.push(w);
                    proof {
                        assert(state::connection_views(workspaces@) =~= state::connection_views(before).push(w@));
                    }
                },
                Attempt::Absent => {},
                _ => {
                    failure = Some(i);
                },
            }
            i = i + 1;
        }
        proof {
            assert(state::connection_views(workspaces@).len() == workspaces@.len());
        }
        if workspaces.len() == 0 {
            return Err(
                match failure {
                    Some(k) => NoWorkspaces::Attempt(k),
                    None => NoWorkspaces::NoneRunning,
                },
            );
        }
        Ok(
            WorkspaceManager {
                sidebar_visible: false,
                workspaces,
                active: 0,
                base_socket: base_socket.to_string(),
            },
        )
    }
}

/// The command that goes to a session.
pub fn switch_to_session(name: &str) -> (r: String)
    ensures
        r@ == "switch-client -t "@ + commands::quoted(name@),
{
    let mut out = "switch-client -t ".to_string();
    out.append(commands::shell_quote(name).as_str());
    out
}

/// The state that a client begins in.
pub open spec fn first_ui() -> UiV {
    UiV {
        mode: ModeV::Normal,
        popup: false,
        popup_return: ModeV::Normal,
        prefix_pending: false,
        prefix_origin: ModeV::Normal,
        prefix_from_copy: false,
        prefix_from_navigator: false,
        copy_confirmed: false,
        copy_suppress: None,
        copy_exit_pending: false,
        scrolled: false,
        resize_deadline: None,
        notice: None,
        hide_borders: false,
        selection: None,
        drag: None,
        last_click: None,
        last_mouse: None,
        drawn_selection: None,
        drawn_counter: 0,
    }
}

impl Client {
    /// A client of some workspaces.
    pub fn new(workspaces: WorkspaceManager) -> (r: Self)
        ensures
            r@ == (ClientV {
                ui: first_ui(),
                ws: workspaces@,
                remotes: Seq::empty(),
                nav: NavV { selected: 0, id: None, folded: Set::empty() },
                entries: Seq::empty(),
                out: Seq::empty(),
            }),
    {
        let r = Client {
            ui: Ui {
                mode: InputMode::Normal,
                popup: false,
                popup_return: InputMode::Normal,
                prefix_pending: false,
                prefix_origin: InputMode::Normal,
                prefix_from_copy: false,
                prefix_from_navigator: false,
                copy_confirmed: false,
                copy_suppress: None,
                copy_exit_pending: false,
                scrolled: false,
                resize_deadline: None,
                notice: None,
                hide_borders: false,
                selection: None,
                drag: None,
                last_click: None,
                last_mouse: None,
                drawn_selection: None,
                drawn_counter: 0,
            },
            workspaces,
            remotes: RemoteRegistry::new(),
            navigation: NavigationState::default(),
            entries: Vec::new(),
            actions: Vec::new(),
        };
        proof {
            assert(r@.entries =~= Seq::empty());
            assert(r@.out =~= Seq::empty());
            assert(r@.nav.folded =~= Set::empty());
        }
        r
    }

    /// Takes out what is to be done.
    pub fn take_actions(&mut self) -> (r: Vec<Effect>)
        ensures
            actions::effect_views(r@) == old(self)@.out,
            final(self)@ == (ClientV { out: Seq::empty(), ..old(self)@ }),
            final(self).entries == old(self).entries,
    {
        let mut out: Vec<Effect> = Vec::new();
        std::mem::swap(&mut out, &mut self.actions);
        proof {
            assert(actions::effect_views(self.actions@) =~= Seq::empty());
        }
        out
    }
}

} // verus!
