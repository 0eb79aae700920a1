//! Operations on the nodes of the navigation tree.

use crate::client::places;
use crate::client::remotes;
use crate::client::state;
use crate::commands;
use crate::geometry;
use crate::machines;
use crate::navigation;
use crate::style;
use crate::text;
use crate::client::actions::{Effect, EffectV, Request, RequestV};
use crate::client::mode::{InputMode, ModeV};
use crate::client::remotes::{RemoteMachineState, RemoteV};
use crate::client::state::{Client, ClientV, ConnectionV, Env, EnvV, ManagerV, NavV, UiV};
use crate::copy_mode::Pane;
use crate::navigation::{EntryV, NavigationEntry, NavigationNodeId, NavigationNodeKind, NodeV};
use vstd::prelude::*;

verus! {

/// What a node is called in messages.
pub open spec fn kind_label(kind: NavigationNodeKind) -> Seq<char> {
    match kind {
        NavigationNodeKind::Machine => "machine"@,
        NavigationNodeKind::Workspace => "workspace"@,
        NavigationNodeKind::Session => "session"@,
        NavigationNodeKind::Window => "window"@,
        NavigationNodeKind::Pane => "pane"@,
    }
}

/// What a node is called in messages.
pub fn navigation_kind_label(kind: NavigationNodeKind) -> (r: &'static str)
    ensures
        r@ == kind_label(kind),
{
    match kind {
        NavigationNodeKind::Machine => "machine",
        NavigationNodeKind::Workspace => "workspace",
        NavigationNodeKind::Session => "session",
        NavigationNodeKind::Window => "window",
        NavigationNodeKind::Pane => "pane",
    }
}

/// What a rename starts from: a session's own name, nothing for a pane without a title, else the
/// label.
pub open spec fn rename_start(e: EntryV) -> Seq<char> {
    match e.id {
        NodeV::Session { name, .. } => name,
        NodeV::Pane { .. } => if style::begins_with(e.label, "pane "@) {
            Seq::empty()
        } else {
            e.label
        },
        _ => e.label,
    }
}

/// What a rename starts from.
pub fn navigation_rename_value(entry: &NavigationEntry) -> (r: String)
    ensures
        r@ == rename_start(entry@),
{
    match &entry.id {
        NavigationNodeId::Session { name, .. } => name.clone(),
        NavigationNodeId::Pane { .. } => {
            let chars = text::chars_of(entry.label.as_str());
            let head = text::chars_of("pane ");
            let n: usize = head.len();
            if chars.len() >= n {
                let front = text::copy_range(chars.as_slice(), 0, n);
                proof {
                    assert(entry.label@.subrange(0, n as int) =~= entry.label@.take(n as int));
                }
                if text::same_chars(front.as_slice(), head.as_slice()) {
                    return String::new();
                }
            }
            entry.label.clone()
        },
        _ => entry.label.clone(),
    }
}

pub open spec fn session_of(id: NodeV, machine: Seq<char>, workspace: Seq<char>) -> bool {
    match id {
        NodeV::Session { machine: m, workspace: w, .. } => m == machine && w == workspace,
        _ => false,
    }
}

pub open spec fn window_of(
    id: NodeV,
    machine: Seq<char>,
    workspace: Seq<char>,
    session: Seq<char>,
) -> bool {
    match id {
        NodeV::Window { machine: m, workspace: w, session: s, .. } => m == machine && w == workspace
            && s == session,
        _ => false,
    }
}

pub open spec fn pane_of(
    id: NodeV,
    machine: Seq<char>,
    workspace: Seq<char>,
    session: Seq<char>,
    window: usize,
) -> bool {
    match id {
        NodeV::Pane { machine: m, workspace: w, session: s, window: i, .. } => m == machine && w
            == workspace && s == session && i == window,
        _ => false,
    }
}

/// How many of the first `n` lines show a node that `pred` picks.
pub open spec fn lines_with(entries: Seq<EntryV>, pred: spec_fn(NodeV) -> bool, n: int) -> nat
    decreases n,
{
    if n <= 0 {
        0
    } else {
        lines_with(entries, pred, n - 1) + (if pred(entries[n - 1].id) {
            1nat
        } else {
            0nat
        })
    }
}

pub open spec fn sessions_in(entries: Seq<EntryV>, machine: Seq<char>, workspace: Seq<char>) -> nat {
    lines_with(
        entries,
        |id: NodeV| session_of(id, machine, workspace),
        entries.len() as int,
    )
}

pub open spec fn windows_in(
    entries: Seq<EntryV>,
    machine: Seq<char>,
    workspace: Seq<char>,
    session: Seq<char>,
) -> nat {
    lines_with(
        entries,
        |id: NodeV| window_of(id, machine, workspace, session),
        entries.len() as int,
    )
}

pub open spec fn panes_in(
    entries: Seq<EntryV>,
    machine: Seq<char>,
    workspace: Seq<char>,
    session: Seq<char>,
    window: usize,
) -> nat {
    lines_with(
        entries,
        |id: NodeV| pane_of(id, machine, workspace, session, window),
        entries.len() as int,
    )
}

/// Why a node cannot be closed: the local machine, the last session of a workspace, the last
/// window of a session, the only pane of the last window.
pub open spec fn close_block(entries: Seq<EntryV>, id: NodeV) -> Option<Seq<char>> {
    match id {
        NodeV::Machine(m) => if m == "local"@ {
            Some("the local machine cannot be closed"@)
        } else {
            None
        },
        NodeV::Workspace { .. } => None,
        NodeV::Session { machine, workspace, .. } => if sessions_in(entries, machine, workspace)
            <= 1 {
            Some("cannot close the last session; close its workspace instead"@)
        } else {
            None
        },
        NodeV::Window { machine, workspace, session, .. } => if windows_in(
            entries,
            machine,
            workspace,
            session,
        ) <= 1 {
            Some("cannot close the last window in a session"@)
        } else {
            None
        },
        NodeV::Pane { machine, workspace, session, window, .. } => if panes_in(
            entries,
            machine,
            workspace,
            session,
            window,
        ) <= 1 && windows_in(entries, machine, workspace, session) <= 1 {
            Some("cannot close the only pane in the last window"@)
        } else {
            None
        },
    }
}

fn count_sessions(entries: &[NavigationEntry], machine: &str, workspace: &str) -> (r: usize)
    ensures
        r == sessions_in(navigation::entry_views(entries@), machine@, workspace@),
{
    let ghost lines = navigation::entry_views(entries@);
    let ghost pred = |id: NodeV| session_of(id, machine@, workspace@);
    let mut n: usize = 0;
    let mut i: usize = 0;
    while i < entries.len()
        invariant
            i <= entries@.len(),
            lines == navigation::entry_views(entries@),
            pred == (|id: NodeV| session_of(id, machine@, workspace@)),
            n <= i,
            n == lines_with(lines, pred, i as int),
        decreases entries@.len() - i,
    {
        proof {
            assert(lines[i as int] == entries@[i as int]@);
        }
        let here: bool = match &entries[i].id {
            NavigationNodeId::Session { machine: m, workspace: w, .. } => text::same_text(
                m.as_str(),
                machine,
            ) && text::same_text(w.as_str(), workspace),
            _ => false,
        };
        if here {
            n = n + 1;
        }
        i = i + 1;
    }
    n
}

fn count_windows(entries: &[NavigationEntry], machine: &str, workspace: &str, session: &str) -> (r:
    usize)
    ensures
        r == windows_in(navigation::entry_views(entries@), machine@, workspace@, session@),
{
    let ghost lines = navigation::entry_views(entries@);
    let ghost pred = |id: NodeV| window_of(id, machine@, workspace@, session@);
    let mut n: usize = 0;
    let mut i: usize = 0;
    while i < entries.len()
        invariant
            i <= entries@.len(),
            lines == navigation::entry_views(entries@),
            pred == (|id: NodeV| window_of(id, machine@, workspace@, session@)),
            n <= i,
            n == lines_with(lines, pred, i as int),
        decreases entries@.len() - i,
    {
        proof {
            assert(lines[i as int] == entries@[i as int]@);
        }
        let here: bool = match &entries[i].id {
            NavigationNodeId::Window { machine: m, workspace: w, session: s, .. } => text::same_text(
                m.as_str(),
                machine,
            ) && text::same_text(w.as_str(), workspace) && text::same_text(s.as_str(), session),
            _ => false,
        };
        if here {
            n = n + 1;
        }
        i = i + 1;
    }
    n
}

fn count_panes(
    entries: &[NavigationEntry],
    machine: &str,
    workspace: &str,
    session: &str,
    window: usize,
) -> (r: usize)
    ensures
        r == panes_in(navigation::entry_views(entries@), machine@, workspace@, session@, window),
{
    let ghost lines = navigation::entry_views(entries@);
    let ghost pred = |id: NodeV| pane_of(id, machine@, workspace@, session@, window);
    let mut n: usize = 0;
    let mut i: usize = 0;
    while i < entries.len()
        invariant
            i <= entries@.len(),
            lines == navigation::entry_views(entries@),
            pred == (|id: NodeV| pane_of(id, machine@, workspace@, session@, window)),
            n <= i,
            n == lines_with(lines, pred, i as int),
        decreases entries@.len() - i,
    {
        proof {
            assert(lines[i as int] == entries@[i as int]@);
        }
        let here: bool = match &entries[i].id {
            NavigationNodeId::Pane { machine: m, workspace: w, session: s, window: k, .. } => *k
                == window && text::same_text(m.as_str(), machine) && text::same_text(w.as_str(), workspace)
                && text::same_text(s.as_str(), session),
            _ => false,
        };
        if here {
            n = n + 1;
        }
        i = i + 1;
    }
    n
}

/// Why a node cannot be closed.
pub fn navigation_close_block_reason(entries: &[NavigationEntry], entry: &NavigationEntry) -> (r:
    Option<String>)
    ensures
        commands::opt_text(r) == close_block(navigation::entry_views(entries@), entry@.id),
{
    match &entry.id {
        NavigationNodeId::Machine(machine) => if text::same_text(machine.as_str(), "local") {
            Some("the local machine cannot be closed".to_string())
        } else {
            None
        },
        NavigationNodeId::Workspace { .. } => None,
        NavigationNodeId::Session { machine, workspace, .. } => {
            if count_sessions(entries, machine.as_str(), workspace.as_str()) <= 1 {
                Some("cannot close the last session; close its workspace instead".to_string())
            } else {
                None
            }
        },
        NavigationNodeId::Window { machine, workspace, session, .. } => {
            if count_windows(entries, machine.as_str(), workspace.as_str(), session.as_str()) <= 1 {
                Some("cannot close the last window in a session".to_string())
            } else {
                None
            }
        },
        NavigationNodeId::Pane { machine, workspace, session, window, .. } => {
            if count_panes(
                entries,
                machine.as_str(),
                workspace.as_str(),
                session.as_str(),
                *window,
            ) <= 1 && count_windows(
                entries,
                machine.as_str(),
                workspace.as_str(),
                session.as_str(),
            ) <= 1 {
                Some("cannot close the only pane in the last window".to_string())
            } else {
                None
            }
        },
    }
}

proof fn lemma_one_line(entries: Seq<EntryV>, pred: spec_fn(NodeV) -> bool, at: int, n: int)
    requires
        0 <= at,
        n <= entries.len(),
        forall|j: int| 0 <= j < n && j != at ==> !pred((#[trigger] entries[j]).id),
    ensures
        lines_with(entries, pred, n) <= 1,
        n <= at ==> lines_with(entries, pred, n) == 0,
    decreases n,
{
    if n > 0 {
        lemma_one_line(entries, pred, at, n - 1);
        if n - 1 != at {
            assert(!pred(entries[n - 1].id));
        }
    }
}

/// A session can be closed only while another line of the tree shows one of the same workspace.
pub proof fn law_last_session_stays(entries: Seq<EntryV>, at: int)
    requires
        0 <= at < entries.len(),
        entries[at].id is Session,
        close_block(entries, entries[at].id) is None,
    ensures
        exists|j: int|
            0 <= j < entries.len() && j != at && session_of(
                (#[trigger] entries[j]).id,
                entries[at].id->Session_machine,
                entries[at].id->Session_workspace,
            ),
{
    let m = entries[at].id->Session_machine;
    let w = entries[at].id->Session_workspace;
    let pred = |id: NodeV| session_of(id, m, w);
    if !exists|j: int|
        0 <= j < entries.len() && j != at && session_of((#[trigger] entries[j]).id, m, w) {
        lemma_one_line(entries, pred, at, entries.len() as int);
    }
}

/// A window can be closed only while another line of the tree shows one of the same session.
pub proof fn law_last_window_stays(entries: Seq<EntryV>, at: int)
    requires
        0 <= at < entries.len(),
        entries[at].id is Window,
        close_block(entries, entries[at].id) is None,
    ensures
        exists|j: int|
            0 <= j < entries.len() && j != at && window_of(
                (#[trigger] entries[j]).id,
                entries[at].id->Window_machine,
                entries[at].id->Window_workspace,
                entries[at].id->Window_session,
            ),
{
    let m = entries[at].id->Window_machine;
    let w = entries[at].id->Window_workspace;
    let s = entries[at].id->Window_session;
    let pred = |id: NodeV| window_of(id, m, w, s);
    if !exists|j: int|
        0 <= j < entries.len() && j != at && window_of((#[trigger] entries[j]).id, m, w, s) {
        lemma_one_line(entries, pred, at, entries.len() as int);
    }
}

/// A pane can be closed only while another line of the tree shows a pane of the same window, or
/// the tree shows more than one window of the session.
pub proof fn law_last_pane_stays(entries: Seq<EntryV>, at: int)
    requires
        0 <= at < entries.len(),
        entries[at].id is Pane,
        close_block(entries, entries[at].id) is None,
    ensures
        ({
            let m = entries[at].id->Pane_machine;
            let w = entries[at].id->Pane_workspace;
            let s = entries[at].id->Pane_session;
            let k = entries[at].id->Pane_window;
            ||| exists|j: int|
                0 <= j < entries.len() && j != at && pane_of((#[trigger] entries[j]).id, m, w, s, k)
            ||| windows_in(entries, m, w, s) > 1
        }),
{
    let m = entries[at].id->Pane_machine;
    let w = entries[at].id->Pane_workspace;
    let s = entries[at].id->Pane_session;
    let k = entries[at].id->Pane_window;
    let pred = |id: NodeV| pane_of(id, m, w, s, k);
    if !exists|j: int|
        0 <= j < entries.len() && j != at && pane_of((#[trigger] entries[j]).id, m, w, s, k) {
        lemma_one_line(entries, pred, at, entries.len() as int);
    }
}

/// After a node was opened: input goes to the panes, and the server draws anew.
pub open spec fn after_opening(c: ClientV) -> ClientV {
    state::asked(
        ClientV {
            ui: UiV {
                mode: ModeV::Normal,
                copy_confirmed: false,
                selection: None,
                ..c.ui
            },
            ..c
        },
        RequestV::RefreshDisplay,
    )
}

/// A known remote machine's workspace shown: the one there is, made active where asked for, or
/// else a connection is made.
pub open spec fn attached(c: ClientV, id: Seq<char>, env: EnvV, activate: bool) -> Option<ClientV> {
    match places::machine_ws(c.ws.list, id, 0) {
        Some(i) => {
            let there = if activate {
                places::made_active(c, i)
            } else {
                c
            };
            Some(
                state::acting(
                    there,
                    EffectV::Ask {
                        workspace: i as usize,
                        request: RequestV::Resize(state::server_size(env, c.ws.sidebar)),
                    },
                ),
            )
        },
        None => None,
    }
}

/// The route to a machine, an empty one where it is not known.
pub open spec fn route_to(remotes: Seq<RemoteV>, id: Seq<char>) -> Seq<Seq<char>> {
    match remotes::machine_at(remotes, id, 0) {
        Some(i) => remotes[i].route,
        None => Seq::empty(),
    }
}

pub open spec fn is_connected(remotes: Seq<RemoteV>, id: Seq<char>) -> bool {
    match remotes::machine_at(remotes, id, 0) {
        Some(i) => remotes[i].state == RemoteMachineState::Connected,
        None => false,
    }
}

/// A probe of a machine, if one is to be made.
pub open spec fn with_probe(c: ClientV, id: Seq<char>, activate: bool) -> ClientV {
    let p = remotes::probed(c.remotes, id, activate);
    let c = ClientV { remotes: p.0, ..c };
    match p.1 {
        Some(route) => state::acting(c, EffectV::Probe { id, route }),
        None => c,
    }
}

/// The selected node folded or unfolded.
pub open spec fn nav_toggled(c: ClientV) -> ClientV {
    let at = c.nav.selected as int;
    ClientV {
        nav: NavV {
            folded: if at < c.entries.len() && c.entries[at].expandable {
                navigation::toggled(c.nav.folded, c.entries[at].id)
            } else {
                c.nav.folded
            },
            ..c.nav
        },
        ..c
    }
}

/// A node opened: a machine by its connection, the local one by folding, every other node by going
/// to it.
#[verifier::opaque]
pub open spec fn opened(c: ClientV, e: EntryV, env: EnvV) -> ClientV {
    if e.kind != NavigationNodeKind::Machine {
        match places::activated(c, e.id, env) {
            Some(there) => after_opening(there),
            None => state::told(c, "navigation target is unavailable"@, env.now, 4000),
        }
    } else {
        match e.id {
            NodeV::Machine(id) => if id == "local"@ {
                nav_toggled(c)
            } else if is_connected(c.remotes, id) {
                match attached(c, id, env, true) {
                    Some(there) => after_opening(there),
                    None => state::acting(
                        c,
                        EffectV::Connect {
                            id,
                            route: route_to(c.remotes, id),
                            size: state::server_size(env, c.ws.sidebar),
                            activate: true,
                            open: true,
                        },
                    ),
                }
            } else {
                state::told(
                    with_probe(c, id, true),
                    "probing "@ + remotes::name_of(c.remotes, id) + "…"@,
                    env.now,
                    6000,
                )
            },
            _ => state::told(c, "invalid machine node"@, env.now, 4000),
        }
    }
}

/// The active workspace given up, its server told so.
pub open spec fn active_removed(c: ClientV) -> ClientV {
    let rest = c.ws.list.remove(c.ws.active as int);
    state::acting(
        ClientV {
            ws: ManagerV {
                list: rest,
                active: if c.ws.active >= rest.len() && rest.len() > 0 {
                    (rest.len() - 1) as usize
                } else {
                    c.ws.active
                },
                ..c.ws
            },
            ..c
        },
        EffectV::Drop { workspace: c.ws.active },
    )
}

pub open spec fn active_closed(c: ClientV) -> ClientV {
    active_removed(state::asked(c, RequestV::Detach))
}

/// Every workspace of a machine closed, one after the other, as long as one is left.
pub open spec fn machine_closed(c: ClientV, machine: Seq<char>) -> ClientV
    decreases c.ws.list.len(),
{
    match places::machine_ws(c.ws.list, machine, 0) {
        Some(i) => {
            let d = active_closed(places::made_active(c, i));
            if d.ws.list.len() == 0 || d.ws.list.len() >= c.ws.list.len() {
                d
            } else {
                machine_closed(d, machine)
            }
        },
        None => c,
    }
}

/// The workspace, from `from` on, of a machine and with a socket.
pub open spec fn workspace_at(
    list: Seq<ConnectionV>,
    machine: Seq<char>,
    socket: Seq<char>,
    from: int,
) -> Option<int>
    decreases list.len() - from,
{
    if from < 0 || from >= list.len() {
        None
    } else if list[from].machine == machine && list[from].socket == socket {
        Some(from)
    } else {
        workspace_at(list, machine, socket, from + 1)
    }
}

/// The command that ends what a node stands for.
pub open spec fn kill_command(e: EntryV) -> Option<Seq<char>> {
    match e.kind {
        NavigationNodeKind::Session => match e.id {
            NodeV::Session { name, .. } => Some("kill-session -t "@ + commands::quoted(name)),
            _ => None,
        },
        NavigationNodeKind::Window => Some("kill-window"@),
        NavigationNodeKind::Pane => Some("kill-pane"@),
        _ => None,
    }
}

/// What closing a node came to.
#[derive(Debug)]
pub enum Closing {
    /// It is closed.
    Closed,
    /// It is closed, and no workspace is left.
    Empty,
    /// It could not be closed.
    Failed(String),
}

#[verifier::ext_equal]
pub enum ClosingV {
    Closed,
    Empty,
    Failed(Seq<char>),
}

impl View for Closing {
    type V = ClosingV;

    open spec fn view(&self) -> ClosingV {
        match *self {
            Closing::Closed => ClosingV::Closed,
            Closing::Empty => ClosingV::Empty,
            Closing::Failed(s) => ClosingV::Failed(s@),
        }
    }
}

pub open spec fn closing_of(c: ClientV) -> ClosingV {
    if c.ws.list.len() == 0 {
        ClosingV::Empty
    } else {
        ClosingV::Closed
    }
}

/// A node closed. A workspace is only left; a machine is left and forgotten; what is below is
/// ended.
pub open spec fn node_closed(c: ClientV, e: EntryV, env: EnvV) -> (ClientV, ClosingV) {
    match e.id {
        NodeV::Workspace { machine, workspace } => match workspace_at(
            c.ws.list,
            machine,
            workspace,
            0,
        ) {
            None => (c, ClosingV::Failed("workspace is unavailable"@)),
            Some(i) => {
                let d = active_closed(places::made_active(c, i));
                (
                    if machine != "local"@ && places::machine_ws(d.ws.list, machine, 0) is None {
                        ClientV {
                            remotes: remotes::with_machine(d.remotes, machine, |m: RemoteV| remotes::detached(m)),
                            ..d
                        }
                    } else {
                        d
                    },
                    closing_of(d),
                )
            },
        },
        NodeV::Machine(id) => if id == "local"@ {
            (c, ClosingV::Failed("the local machine cannot be closed"@))
        } else {
            let d = machine_closed(c, id);
            (
                ClientV { remotes: remotes::without_id(d.remotes, id, d.remotes.len() as int), ..d },
                closing_of(d),
            )
        },
        _ => match places::activated(c, e.id, env) {
            None => (c, ClosingV::Failed("navigation target is unavailable"@)),
            Some(there) => (
                match kill_command(e) {
                    Some(command) => state::asked(there, RequestV::Command(command)),
                    None => there,
                },
                ClosingV::Closed,
            ),
        },
    }
}

fn kill_text(e: &NavigationEntry) -> (r: Option<String>)
    ensures
        commands::opt_text(r) == kill_command(e@),
{
    match e.kind {
        NavigationNodeKind::Session => match &e.id {
            NavigationNodeId::Session { name, .. } => {
                let mut out = "kill-session -t ".to_string();
                out.append(commands::shell_quote(name.as_str()).as_str());
                Some(out)
            },
            _ => None,
        },
        NavigationNodeKind::Window => Some("kill-window".to_string()),
        NavigationNodeKind::Pane => Some("kill-pane".to_string()),
        _ => None,
    }
}

impl Client {
    /// Does what follows the opening of a node.
    pub fn finish_opening(&mut self)
        requires
            old(self)@.wf(),
        ensures
            final(self)@ == after_opening(old(self)@),
            final(self)@.wf(),
            final(self).entries == old(self).entries,
    {
        self.ui.mode = InputMode::Normal;
        self.ui.copy_confirmed = false;
        self.ui.selection = None;
        self.ask(Request::RefreshDisplay);
    }

    /// Probes a machine, if that is not under way.
    pub fn probe_machine(&mut self, id: &str, activate: bool)
        ensures
            final(self)@ == with_probe(old(self)@, id@, activate),
            final(self)@.ws == old(self)@.ws,
            final(self).entries == old(self).entries,
    {
        if let Some(route) = self.remotes.start_probe(id, activate) {
            self.act(Effect::Probe { id: id.to_string(), route });
        }
    }

    /// Shows the workspace that there is of a machine; whether there is one.
    pub fn attach_existing(&mut self, id: &str, env: Env, activate: bool) -> (r: bool)
        requires
            old(self)@.wf(),
        ensures
            match attached(old(self)@, id@, env@, activate) {
                Some(c) => r && final(self)@ == c,
                None => !r && final(self)@ == old(self)@,
            },
            final(self)@.wf(),
            final(self).entries == old(self).entries,
    {
        match self.workspaces.machine_index(id) {
            Some(i) => {
                let size = geometry::server_content_size(
                    env.cols,
                    env.rows,
                    self.workspaces.sidebar_visible,
                );
                if activate {
                    self.workspaces.active = i;
                }
                self.act(Effect::Ask { workspace: i, request: Request::Resize(size) });
                true
            },
            None => false,
        }
    }

    fn route_of(&self, id: &str) -> (r: Vec<String>)
        ensures
            commands::texts(r@) == route_to(self@.remotes, id@),
    {
        match self.remotes.position(id) {
            Some(i) => machines::copy_texts(self.remotes.machines[i].route.as_slice()),
            None => {
                let out: Vec<String> = Vec::new();
                proof {
                    assert(commands::texts(out@) =~= Seq::empty());
                }
                out
            },
        }
    }

    /// Opens a node.
    pub fn open_navigation_entry(&mut self, entry: &NavigationEntry, env: Env)
        requires
            old(self)@.wf(),
        ensures
            final(self)@ == opened(old(self)@, entry@, env@),
            final(self)@.wf(),
            final(self).entries == old(self).entries,
    {
        proof {
            reveal(opened);
        }
        if entry.kind != NavigationNodeKind::Machine {
            if self.activate_navigation_entry(&entry.id, env) {
                self.finish_opening();
            } else {
                self.tell("navigation target is unavailable".to_string(), env.now, 4000);
            }
            return ;
        }
        match &entry.id {
            NavigationNodeId::Machine(id) => {
                if text::same_text(id.as_str(), "local") {
                    proof {
                        let at = self.navigation.selected as int;
                        if at < self.entries@.len() {
                            assert(self@.entries[at] == self.entries@[at]@);
                        }
                    }
                    self.navigation.toggle_selected(self.entries.as_slice());
                    return ;
                }
                let is_open: bool = match self.remotes.position(id.as_str()) {
                    Some(i) => self.remotes.machines[i].state == RemoteMachineState::Connected,
                    None => false,
                };
                if is_open {
                    if self.attach_existing(id.as_str(), env, true) {
                        self.finish_opening();
                    } else {
                        let route = self.route_of(id.as_str());
                        let size = geometry::server_content_size(
                            env.cols,
                            env.rows,
                            self.workspaces.sidebar_visible,
                        );
                        self.act(
                            Effect::Connect {
                                id: id.clone(),
                                route,
                                size,
                                activate: true,
                                open: true,
                            },
                        );
                    }
                } else {
                    let mut text = "probing ".to_string();
                    text.append(self.remotes.display_name(id.as_str()).as_str());
                    text.append("…");
                    self.probe_machine(id.as_str(), true);
                    self.tell(text, env.now, 6000);
                }
            },
            _ => {
                self.tell("invalid machine node".to_string(), env.now, 4000);
            },
        }
    }

    fn remove_active(&mut self)
        requires
            old(self)@.wf(),
        ensures
            final(self)@ == active_removed(old(self)@),
            final(self)@.ws.list.len() == old(self)@.ws.list.len() - 1,
            final(self)@.ws.list.len() > 0 ==> final(self)@.wf(),
            final(self).entries == old(self).entries,
    {
        let ghost before = self@.ws.list;
        let at: usize = self.workspaces.active;
        self.workspaces.workspaces.remove(at);
        proof {
            assert(self@.ws.list =~= before.remove(at as int));
        }
        let n: usize = self.workspaces.workspaces.len();
        if n > 0 && self.workspaces.active >= n {
            self.workspaces.active = n - 1;
        }
        self.act(Effect::Drop { workspace: at });
    }

    /// Gives up a workspace whose server is gone.
    pub fn close_dead_active(&mut self)
        requires
            old(self)@.wf(),
        ensures
            final(self)@ == active_removed(old(self)@),
            final(self)@.ws.list.len() > 0 ==> final(self)@.wf(),
            final(self).entries == old(self).entries,
    {
        self.remove_active();
    }

    /// Leaves the active workspace.
    pub fn close_active(&mut self)
        requires
            old(self)@.wf(),
        ensures
            final(self)@ == active_closed(old(self)@),
            final(self)@.ws.list.len() == old(self)@.ws.list.len() - 1,
            final(self)@.ws.list.len() > 0 ==> final(self)@.wf(),
            final(self).entries == old(self).entries,
    {
        self.ask(Request::Detach);
        self.remove_active();
    }

    fn workspace_index(&self, machine: &str, socket: &str) -> (r: Option<usize>)
        ensures
            (match r {
                Some(i) => Some(i as int),
                None => None,
            }) == workspace_at(self@.ws.list, machine@, socket@, 0),
            r matches Some(i) ==> i < self.workspaces.workspaces@.len(),
    {
        let ghost all = self@.ws.list;
        let mut i: usize = 0;
        while i < self.workspaces.workspaces.len()
            invariant
                i <= self.workspaces.workspaces@.len(),
                all == state::connection_views(self.workspaces.workspaces@),
                workspace_at(all, machine@, socket@, i as int) == workspace_at(
                    all,
                    machine@,
                    socket@,
                    0,
                ),
            decreases self.workspaces.workspaces@.len() - i,
        {
            let w = &self.workspaces.workspaces[i];
            proof {
                assert(all[i as int] == w@);
            }
            if text::same_text(w.machine_id.as_str(), machine) && text::same_text(
                w.socket_name.as_str(),
                socket,
            ) {
                return Some(i);
            }
            i = i + 1;
        }
        None
    }

    fn close_machine(&mut self, machine: &str)
        requires
            old(self)@.wf(),
        ensures
            final(self)@ == machine_closed(old(self)@, machine@),
            final(self)@.ws.list.len() > 0 ==> final(self)@.wf(),
            final(self).entries == old(self).entries,
        decreases old(self)@.ws.list.len(),
    {
        if let Some(i) = self.workspaces.machine_index(machine) {
            self.workspaces.active = i;
            self.close_active();
            if self.workspaces.workspaces.len() > 0 {
                self.close_machine(machine);
            }
        }
    }

    /// Closes a node.
    pub fn close_navigation_entry(&mut self, entry: &NavigationEntry, env: Env) -> (r: Closing)
        requires
            old(self)@.wf(),
        ensures
            (final(self)@, r@) == node_closed(old(self)@, entry@, env@),
            !(r is Empty) ==> final(self)@.wf(),
            final(self).entries == old(self).entries,
    {
        match &entry.id {
            NavigationNodeId::Workspace { machine, workspace } => {
                match self.workspace_index(machine.as_str(), workspace.as_str()) {
                    None => Closing::Failed("workspace is unavailable".to_string()),
                    Some(i) => {
                        self.workspaces.active = i;
                        self.close_active();
                        let left: usize = self.workspaces.workspaces.len();
                        if !text::same_text(machine.as_str(), "local")
                            && self.workspaces.machine_index(machine.as_str()).is_none() {
                            self.remotes.mark_detached(machine.as_str());
                        }
                        if left == 0 {
                            Closing::Empty
                        } else {
                            Closing::Closed
                        }
                    },
                }
            },
            NavigationNodeId::Machine(id) => {
                if text::same_text(id.as_str(), "local") {
                    return Closing::Failed("the local machine cannot be closed".to_string());
                }
                self.close_machine(id.as_str());
                self.remotes.remove(id.as_str());
                if self.workspaces.workspaces.len() == 0 {
                    Closing::Empty
                } else {
                    Closing::Closed
                }
            },
            _ => {
                if !self.activate_navigation_entry(&entry.id, env) {
                    return Closing::Failed("navigation target is unavailable".to_string());
                }
                if let Some(command) = kill_text(entry) {
                    self.ask(Request::Command(command));
                }
                Closing::Closed
            },
        }
    }
}

} // verus!
