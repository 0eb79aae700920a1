//! The lines of the tree: all machines with their workspaces, under the names they were given.

use crate::commands;
use crate::machines;
use crate::navigation;
use crate::text;
use crate::client::remotes::{RemoteMachineState, RemoteRegistry, RemoteV};
use crate::client::state::{Client, ClientV, ManagerV, NavV, WorkspaceManager};
use crate::machines::{MachineNames, NameError};
use crate::navigation::{EntryV, MachineConnectionState, MachineV, NavigationEntry, NavigationNodeId, NavigationState, NodeV, RemoteMachineNavigationView, WorkspaceNavigationView, WorkspaceV};
use vstd::prelude::*;

verus! {

/// The workspaces of a machine, among the first `n`, as the tree shows them.
pub open spec fn workspaces_shown(
    ws: ManagerV,
    machine: Seq<char>,
    title: Seq<char>,
    n: int,
) -> Seq<WorkspaceV>
    decreases n,
{
    if n <= 0 {
        Seq::empty()
    } else {
        let front = workspaces_shown(ws, machine, title, n - 1);
        let w = ws.list[n - 1];
        if w.machine == machine {
            front.push(
                WorkspaceV { socket_name: w.socket, title, active: n - 1 == ws.active, tree: w.tree },
            )
        } else {
            front
        }
    }
}

pub open spec fn state_shown(state: RemoteMachineState) -> MachineConnectionState {
    match state {
        RemoteMachineState::Disconnected => MachineConnectionState::Disconnected,
        RemoteMachineState::Probing => MachineConnectionState::Probing,
        RemoteMachineState::Connected => MachineConnectionState::Connected,
        RemoteMachineState::Unavailable => MachineConnectionState::Unavailable,
    }
}

/// A remote machine as the tree shows it.
pub open spec fn machine_shown(ws: ManagerV, m: RemoteV) -> MachineV {
    MachineV {
        id: m.id,
        name: m.host,
        state: state_shown(m.state),
        active: ws.active < ws.list.len() && ws.list[ws.active as int].machine == m.id,
        workspaces: workspaces_shown(ws, m.id, ws.base, ws.list.len() as int),
    }
}

pub open spec fn machines_shown(ws: ManagerV, remotes: Seq<RemoteV>) -> Seq<MachineV> {
    Seq::new(remotes.len(), |i: int| machine_shown(ws, remotes[i]))
}

/// All lines of the tree, under the names that machines and workspaces come with.
pub open spec fn lines_of(
    ws: ManagerV,
    machine_name: Seq<char>,
    remotes: Seq<RemoteV>,
    folded: Set<NodeV>,
) -> Seq<EntryV> {
    navigation::navigation_lines(
        "local"@,
        machine_name,
        workspaces_shown(ws, "local"@, Seq::empty(), ws.list.len() as int),
        machines_shown(ws, remotes),
        folded,
    )
}

/// The name that the user gave to a node.
pub open spec fn given_name(id: NodeV, names: MachineNames) -> Option<Seq<char>> {
    match id {
        NodeV::Machine(id) => if names.machine_names().contains_key(id) {
            Some(names.machine_names()[id])
        } else {
            None
        },
        NodeV::Workspace { machine, workspace } => names.workspace_label(machine, workspace),
        _ => None,
    }
}

/// A line under the name that the user gave.
pub open spec fn named_line(e: EntryV, names: MachineNames) -> EntryV {
    match given_name(e.id, names) {
        Some(label) => EntryV { label, ..e },
        None => e,
    }
}

pub open spec fn named_lines(lines: Seq<EntryV>, names: MachineNames) -> Seq<EntryV> {
    Seq::new(lines.len(), |i: int| named_line(lines[i], names))
}

/// The selection found again on other lines.
pub open spec fn nav_clamped(nav: NavV, entries: Seq<EntryV>) -> NavV {
    let stay = navigation::on_a_line(entries, nav.selected as int);
    let at = match nav.id {
        Some(id) => match navigation::line_of(entries, id, 0) {
            Some(i) => i,
            None => stay,
        },
        None => stay,
    };
    NavV { selected: at as usize, id: navigation::id_at(entries, at), ..nav }
}

/// The lines made anew.
pub open spec fn lines_refreshed(c: ClientV, machine_name: Seq<char>, names: MachineNames) -> ClientV {
    let entries = named_lines(lines_of(c.ws, machine_name, c.remotes, c.nav.folded), names);
    ClientV { entries, nav: nav_clamped(c.nav, entries), ..c }
}

/// A name given to a machine or a workspace changes no line but in its label, so that what is
/// selected or folded stays.
pub proof fn law_names_are_only_labels(lines: Seq<EntryV>, names: MachineNames, i: int)
    requires
        0 <= i < lines.len(),
    ensures
        named_lines(lines, names).len() == lines.len(),
        named_lines(lines, names)[i] == (EntryV {
            label: named_lines(lines, names)[i].label,
            ..lines[i]
        }),
{
}

impl WorkspaceManager {
    fn views_of<'a>(&'a self, machine: &str, title: &'a str) -> (r: Vec<
        WorkspaceNavigationView<'a>,
    >)
        ensures
            navigation::workspace_views(r@) == workspaces_shown(
                self@,
                machine@,
                title@,
                self@.list.len() as int,
            ),
    {
        let mut out: Vec<WorkspaceNavigationView<'a>> = Vec::new();
        let mut i: usize = 0;
        proof {
            assert(navigation::workspace_views(out@) =~= Seq::empty());
        }
        while i < self.workspaces.len()
            invariant
                i <= self.workspaces@.len(),
                self.workspaces@.len() == self@.list.len(),
                navigation::workspace_views(out@) == workspaces_shown(self@, machine@, title@, i as int),
            decreases self.workspaces@.len() - i,
        {
            let w = &self.workspaces[i];
            proof {
                assert(self@.list[i as int] == w@);
            }
            if text::same_text(w.machine_id.as_str(), machine) {
                let ghost before = out@;
                let view = WorkspaceNavigationView {
                    socket_name: w.socket_name.as_str(),
                    title,
                    active: i == self.active,
                    tree: w.tree.as_slice(),
                };
                out.push(view);
                proof {
                    assert(navigation::workspace_views(out@) =~= navigation::workspace_views(before).push(view@));
                }
            }
            i = i + 1;
        }
        out
    }

    /// The lines of the tree.
    pub fn navigation_entries(
        &self,
        machine_name: &str,
        remotes: &RemoteRegistry,
        state: &NavigationState,
    ) -> (r: Vec<NavigationEntry>)
        ensures
            navigation::entry_views(r@) == lines_of(self@, machine_name@, remotes@, state.folded()),
    {
        let local = self.views_of("local", "");
        let mut machines: Vec<RemoteMachineNavigationView<'_>> = Vec::new();
        let mut i: usize = 0;
        proof {
            reveal_strlit("");
            assert(""@ =~= Seq::<char>::empty());
        }
        while i < remotes.machines.len()
            invariant
                i <= remotes.machines@.len(),
                remotes@.len() == remotes.machines@.len(),
                navigation::machine_views(machines@) =~= machines_shown(self@, remotes@).take(i as int),
            decreases remotes.machines@.len() - i,
        {
            let m = &remotes.machines[i];
            proof {
                assert(remotes@[i as int] == m@);
            }
            let active: bool = self.active < self.workspaces.len() && text::same_text(
                self.workspaces[self.active].machine_id.as_str(),
                m.id.as_str(),
            );
            let state = match m.state {
                RemoteMachineState::Disconnected => MachineConnectionState::Disconnected,
                RemoteMachineState::Probing => MachineConnectionState::Probing,
                RemoteMachineState::Connected => MachineConnectionState::Connected,
                RemoteMachineState::Unavailable => MachineConnectionState::Unavailable,
            };
            let workspaces = self.views_of(m.id.as_str(), self.base_socket.as_str());
            let view = RemoteMachineNavigationView {
                id: m.id.as_str(),
                name: m.host.as_str(),
                state,
                active,
                workspaces,
            };
            let ghost before = machines@;
            machines.push(view);
            proof {
                assert(view@ =~= machine_shown(self@, remotes@[i as int]));
                assert(navigation::machine_views(machines@) =~= navigation::machine_views(before).push(view@));
                assert(machines_shown(self@, remotes@).take(i + 1) =~= machines_shown(
                    self@,
                    remotes@,
                ).take(i as int).push(view@));
            }
            i = i + 1;
        }
        proof {
            assert(machines_shown(self@, remotes@).take(i as int) =~= machines_shown(
                self@,
                remotes@,
            ));
        }
        navigation::build_navigation_tree("local", machine_name, local.as_slice(), machines.as_slice(), state)
    }
}

fn name_of_node(id: &NavigationNodeId, names: &MachineNames) -> (r: Option<String>)
    ensures
        commands::opt_text(r) == given_name(id@, *names),
{
    match id {
        NavigationNodeId::Machine(machine) => match names.names.get(machine.as_str()) {
            Some(name) => Some(name.clone()),
            None => None,
        },
        NavigationNodeId::Workspace { machine, workspace } => match names.workspace_name(
            machine.as_str(),
            workspace.as_str(),
        ) {
            Some(name) => Some(name.clone()),
            None => None,
        },
        _ => None,
    }
}

/// Puts lines under the names that the user gave.
pub fn apply_names(entries: Vec<NavigationEntry>, names: &MachineNames) -> (r: Vec<NavigationEntry>)
    ensures
        navigation::entry_views(r@) == named_lines(navigation::entry_views(entries@), *names),
{
    let ghost lines = navigation::entry_views(entries@);
    let mut entries = entries;
    let n: usize = entries.len();
    let mut i: usize = 0;
    while i < n
        invariant
            i <= n,
            n == entries@.len(),
            n == lines.len(),
            forall|k: int| 0 <= k < i ==> (#[trigger] entries@[k])@ == named_line(lines[k], *names),
            forall|k: int| i <= k < n ==> (#[trigger] entries@[k])@ == lines[k],
        decreases n - i,
    {
        let ghost before = entries@;
        let name = name_of_node(&entries[i].id, names);
        if let Some(label) = name {
            entries[i].label = label;
        }
        proof {
            assert(entries@[i as int]@ =~= named_line(lines[i as int], *names));
        }
        i = i + 1;
    }
    proof {
        assert(navigation::entry_views(entries@) =~= named_lines(lines, *names));
    }
    entries
}

/// Keeps a name that the user gave to a machine or a workspace; no other node has one.
pub fn save_name(names: &mut MachineNames, node: &NavigationNodeId, name: &str) -> (r: Result<
    (),
    NameError,
>)
    requires
        node@ is Machine || node@ is Workspace,
    ensures
        r is Ok <==> machines::name_ok(name@),
        r matches Err(e) ==> e == NameError::BadName && *final(names) == *old(names),
        r is Ok ==> given_name(node@, *final(names)) == Some(text::trimmed(name@)),
        final(names).routes == old(names).routes,
        match node@ {
            NodeV::Machine(id) => {
                &&& final(names).workspaces == old(names).workspaces
                &&& r is Ok ==> final(names).machine_names() == old(names).machine_names().insert(
                    id,
                    text::trimmed(name@),
                )
            },
            NodeV::Workspace { machine, workspace } => {
                &&& final(names).names == old(names).names
                &&& r is Ok ==> final(names).names_on(machine) == old(names).names_on(
                    machine,
                ).insert(workspace, text::trimmed(name@))
                &&& forall|m: Seq<char>|
                    m != machine ==> #[trigger] final(names).names_on(m) == old(names).names_on(m)
            },
            _ => true,
        },
{
    match node {
        NavigationNodeId::Machine(machine) => names.rename(machine.as_str(), name),
        NavigationNodeId::Workspace { machine, workspace } => names.rename_workspace(
            machine.as_str(),
            workspace.as_str(),
            name,
        ),
        _ => Err(NameError::BadName),
    }
}

impl Client {
    /// Makes the lines of the tree anew.
    pub fn refresh_lines(&mut self, machine_name: &str, names: &MachineNames)
        ensures
            final(self)@ == lines_refreshed(old(self)@, machine_name@, *names),
    {
        let lines = self.workspaces.navigation_entries(
            machine_name,
            &self.remotes,
            &self.navigation,
        );
        self.entries = apply_names(lines, names);
        self.navigation.clamp_selection(self.entries.as_slice());
    }
}

} // verus!
