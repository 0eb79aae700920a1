//! The navigation tree: machines, their workspaces, and the sessions, windows and panes in them.

use crate::commands;
use crate::session_tree;
use crate::text;
use crate::session_tree::{SessionTreeEntry, TreeV};
use vstd::prelude::*;

verus! {

/// What a node is, whatever it is called or wherever it is shown. Names may repeat on other
/// machines and in other workspaces without meaning the same node.
#[derive(Clone, Debug, PartialEq, Eq, Hash)]
pub enum NavigationNodeId {
    Machine(String),
    Workspace { machine: String, workspace: String },
    Session { machine: String, workspace: String, name: String },
    Window { machine: String, workspace: String, session: String, index: usize },
    Pane { machine: String, workspace: String, session: String, window: usize, pane_id: usize },
}

pub enum NodeV {
    Machine(Seq<char>),
    Workspace { machine: Seq<char>, workspace: Seq<char> },
    Session { machine: Seq<char>, workspace: Seq<char>, name: Seq<char> },
    Window { machine: Seq<char>, workspace: Seq<char>, session: Seq<char>, index: usize },
    Pane {
        machine: Seq<char>,
        workspace: Seq<char>,
        session: Seq<char>,
        window: usize,
        pane_id: usize,
    },
}

impl View for NavigationNodeId {
    type V = NodeV;

    open spec fn view(&self) -> NodeV {
        match *self {
            NavigationNodeId::Machine(m) => NodeV::Machine(m@),
            NavigationNodeId::Workspace { machine, workspace } => NodeV::Workspace {
                machine: machine@,
                workspace: workspace@,
            },
            NavigationNodeId::Session { machine, workspace, name } => NodeV::Session {
                machine: machine@,
                workspace: workspace@,
                name: name@,
            },
            NavigationNodeId::Window { machine, workspace, session, index } => NodeV::Window {
                machine: machine@,
                workspace: workspace@,
                session: session@,
                index,
            },
            NavigationNodeId::Pane { machine, workspace, session, window, pane_id } => NodeV::Pane {
                machine: machine@,
                workspace: workspace@,
                session: session@,
                window,
                pane_id,
            },
        }
    }
}

impl NodeV {
    /// The machine that a node is on.
    pub open spec fn machine(self) -> Seq<char> {
        match self {
            NodeV::Machine(m) => m,
            NodeV::Workspace { machine, .. } => machine,
            NodeV::Session { machine, .. } => machine,
            NodeV::Window { machine, .. } => machine,
            NodeV::Pane { machine, .. } => machine,
        }
    }

    /// The workspace that a node is in, if it is in one.
    pub open spec fn workspace(self) -> Option<Seq<char>> {
        match self {
            NodeV::Machine(_) => None,
            NodeV::Workspace { workspace, .. } => Some(workspace),
            NodeV::Session { workspace, .. } => Some(workspace),
            NodeV::Window { workspace, .. } => Some(workspace),
            NodeV::Pane { workspace, .. } => Some(workspace),
        }
    }
}

impl NavigationNodeId {
    /// Whether two nodes are the same.
    pub fn same(&self, other: &NavigationNodeId) -> (r: bool)
        ensures
            r == (self@ == other@),
    {
        match (self, other) {
            (NavigationNodeId::Machine(a), NavigationNodeId::Machine(b)) => text::same_text(
                a.as_str(),
                b.as_str(),
            ),
            (
                NavigationNodeId::Workspace { machine: m, workspace: w },
                NavigationNodeId::Workspace { machine: m2, workspace: w2 },
            ) => text::same_text(m.as_str(), m2.as_str()) && text::same_text(w.as_str(), w2.as_str()),
            (
                NavigationNodeId::Session { machine: m, workspace: w, name: n },
                NavigationNodeId::Session { machine: m2, workspace: w2, name: n2 },
            ) => text::same_text(m.as_str(), m2.as_str()) && text::same_text(w.as_str(), w2.as_str())
                && text::same_text(n.as_str(), n2.as_str()),
            (
                NavigationNodeId::Window { machine: m, workspace: w, session: s, index: i },
                NavigationNodeId::Window { machine: m2, workspace: w2, session: s2, index: i2 },
            ) => *i == *i2 && text::same_text(m.as_str(), m2.as_str()) && text::same_text(
                w.as_str(),
                w2.as_str(),
            ) && text::same_text(s.as_str(), s2.as_str()),
            (
                NavigationNodeId::Pane {
                    machine: m,
                    workspace: w,
                    session: s,
                    window: i,
                    pane_id: p,
                },
                NavigationNodeId::Pane {
                    machine: m2,
                    workspace: w2,
                    session: s2,
                    window: i2,
                    pane_id: p2,
                },
            ) => *i == *i2 && *p == *p2 && text::same_text(m.as_str(), m2.as_str()) && text::same_text(
                w.as_str(),
                w2.as_str(),
            ) && text::same_text(s.as_str(), s2.as_str()),
            _ => false,
        }
    }

    /// A copy of a node's identity.
    pub fn copy(&self) -> (r: NavigationNodeId)
        ensures
            r@ == self@,
    {
        match self {
            NavigationNodeId::Machine(m) => NavigationNodeId::Machine(m.clone()),
            NavigationNodeId::Workspace { machine, workspace } => NavigationNodeId::Workspace {
                machine: machine.clone(),
                workspace: workspace.clone(),
            },
            NavigationNodeId::Session { machine, workspace, name } => NavigationNodeId::Session {
                machine: machine.clone(),
                workspace: workspace.clone(),
                name: name.clone(),
            },
            NavigationNodeId::Window { machine, workspace, session, index } => NavigationNodeId::Window {
                machine: machine.clone(),
                workspace: workspace.clone(),
                session: session.clone(),
                index: *index,
            },
            NavigationNodeId::Pane { machine, workspace, session, window, pane_id } => NavigationNodeId::Pane {
                machine: machine.clone(),
                workspace: workspace.clone(),
                session: session.clone(),
                window: *window,
                pane_id: *pane_id,
            },
        }
    }
}

/// The level of a node.
#[derive(Clone, Copy, Debug, PartialEq, Eq, Structural)]
pub enum NavigationNodeKind {
    Machine,
    Workspace,
    Session,
    Window,
    Pane,
}

/// How a machine is connected.
#[derive(Clone, Copy, Debug, PartialEq, Eq, Structural)]
pub enum MachineConnectionState {
    Local,
    Disconnected,
    Probing,
    Connected,
    Unavailable,
}

/// One line of the navigation tree.
#[derive(Clone, Debug, PartialEq, Eq)]
pub struct NavigationEntry {
    pub id: NavigationNodeId,
    pub kind: NavigationNodeKind,
    pub depth: u16,
    pub label: String,
    pub meta: Option<String>,
    pub connection: Option<MachineConnectionState>,
    pub active: bool,
    pub expandable: bool,
    pub expanded: bool,
}

pub struct EntryV {
    pub id: NodeV,
    pub kind: NavigationNodeKind,
    pub depth: u16,
    pub label: Seq<char>,
    pub meta: Option<Seq<char>>,
    pub connection: Option<MachineConnectionState>,
    pub active: bool,
    pub expandable: bool,
    pub expanded: bool,
}

impl View for NavigationEntry {
    type V = EntryV;

    open spec fn view(&self) -> EntryV {
        EntryV {
            id: self.id@,
            kind: self.kind,
            depth: self.depth,
            label: self.label@,
            meta: commands::opt_text(self.meta),
            connection: self.connection,
            active: self.active,
            expandable: self.expandable,
            expanded: self.expanded,
        }
    }
}

/// What the lines of a navigation tree stand for.
pub open spec fn entry_views(entries: Seq<NavigationEntry>) -> Seq<EntryV> {
    Seq::new(entries.len(), |i: int| entries[i]@)
}

/// A workspace as the tree shows it.
pub struct WorkspaceNavigationView<'a> {
    pub socket_name: &'a str,
    pub title: &'a str,
    pub active: bool,
    pub tree: &'a [SessionTreeEntry],
}

#[verifier::ext_equal]
pub struct WorkspaceV {
    pub socket_name: Seq<char>,
    pub title: Seq<char>,
    pub active: bool,
    pub tree: Seq<TreeV>,
}

impl<'a> View for WorkspaceNavigationView<'a> {
    type V = WorkspaceV;

    open spec fn view(&self) -> WorkspaceV {
        WorkspaceV {
            socket_name: self.socket_name@,
            title: self.title@,
            active: self.active,
            tree: session_tree::tree_views(self.tree@),
        }
    }
}

/// What workspaces stand for.
pub open spec fn workspace_views<'a>(workspaces: Seq<WorkspaceNavigationView<'a>>) -> Seq<WorkspaceV> {
    Seq::new(workspaces.len(), |i: int| workspaces[i]@)
}

/// A remote machine as the tree shows it.
pub struct RemoteMachineNavigationView<'a> {
    pub id: &'a str,
    pub name: &'a str,
    pub state: MachineConnectionState,
    pub active: bool,
    pub workspaces: Vec<WorkspaceNavigationView<'a>>,
}

#[verifier::ext_equal]
pub struct MachineV {
    pub id: Seq<char>,
    pub name: Seq<char>,
    pub state: MachineConnectionState,
    pub active: bool,
    pub workspaces: Seq<WorkspaceV>,
}

impl<'a> View for RemoteMachineNavigationView<'a> {
    type V = MachineV;

    open spec fn view(&self) -> MachineV {
        MachineV {
            id: self.id@,
            name: self.name@,
            state: self.state,
            active: self.active,
            workspaces: workspace_views(self.workspaces@),
        }
    }
}

/// What remote machines stand for.
pub open spec fn machine_views<'a>(machines: Seq<RemoteMachineNavigationView<'a>>) -> Seq<MachineV> {
    Seq::new(machines.len(), |i: int| machines[i]@)
}

/// The selected line, the node it shows, and the nodes that are folded.
#[derive(Debug)]
pub struct NavigationState {
    pub selected: usize,
    pub selected_id: Option<NavigationNodeId>,
    pub collapsed: Vec<NavigationNodeId>,
}

impl NavigationState {
    /// The node that the selection keeps to.
    pub open spec fn remembered(self) -> Option<NodeV> {
        match self.selected_id {
            Some(id) => Some(id@),
            None => None,
        }
    }

    /// The folded nodes.
    pub open spec fn folded(self) -> Set<NodeV> {
        Set::new(|id: NodeV| exists|i: int| 0 <= i < self.collapsed@.len() && #[trigger] self.collapsed@[i]@ == id)
    }
}

impl Default for NavigationState {
    /// The first line selected, nothing folded.
    fn default() -> (r: Self)
        ensures
            r.selected == 0,
            r.remembered() is None,
            r.folded() == Set::<NodeV>::empty(),
    {
        let r = NavigationState { selected: 0, selected_id: None, collapsed: Vec::new() };
        proof {
            assert(r.folded() =~= Set::<NodeV>::empty());
        }
        r
    }
}

/// The node on a line, if there is such a line.
pub open spec fn id_at(entries: Seq<EntryV>, index: int) -> Option<NodeV> {
    if 0 <= index < entries.len() {
        Some(entries[index].id)
    } else {
        None
    }
}

/// The first line from `from` on that shows a node.
pub open spec fn line_of(entries: Seq<EntryV>, id: NodeV, from: int) -> Option<int>
    decreases entries.len() - from,
{
    if from >= entries.len() {
        None
    } else if entries[from].id == id {
        Some(from)
    } else {
        line_of(entries, id, from + 1)
    }
}

/// A node is found again wherever its line has moved to, and only a node that has no line is not.
pub proof fn law_node_is_found_again(entries: Seq<EntryV>, id: NodeV, from: int)
    requires
        0 <= from,
    ensures
        match line_of(entries, id, from) {
            Some(i) => from <= i < entries.len() && entries[i].id == id,
            None => forall|i: int| from <= i < entries.len() ==> (#[trigger] entries[i]).id != id,
        },
    decreases entries.len() - from,
{
    if from < entries.len() && entries[from].id != id {
        law_node_is_found_again(entries, id, from + 1);
    }
}

/// A line number cut back to the last line.
pub open spec fn on_a_line(entries: Seq<EntryV>, index: int) -> int {
    text::min_int(index, text::max_int(entries.len() - 1, 0))
}

/// The last line before `n` that is less deep than `depth`.
pub open spec fn parent_line(entries: Seq<EntryV>, depth: int, n: int) -> Option<int>
    decreases n,
{
    if n <= 0 {
        None
    } else if entries[n - 1].depth < depth {
        Some(n - 1)
    } else {
        parent_line(entries, depth, n - 1)
    }
}

/// The last active line before `n`.
pub open spec fn active_line(entries: Seq<EntryV>, n: int) -> Option<int>
    decreases n,
{
    if n <= 0 {
        None
    } else if entries[n - 1].active {
        Some(n - 1)
    } else {
        active_line(entries, n - 1)
    }
}

fn find_node(entries: &[NavigationEntry], id: &NavigationNodeId) -> (r: Option<usize>)
    ensures
        (match r {
            Some(i) => Some(i as int),
            None => None,
        }) == line_of(entry_views(entries@), id@, 0),
        r matches Some(i) ==> i < entries@.len(),
{
    let ghost all = entry_views(entries@);
    let mut i: usize = 0;
    while i < entries.len()
        invariant
            all == entry_views(entries@),
            i <= entries@.len(),
            line_of(all, id@, i as int) == line_of(all, id@, 0),
        decreases entries@.len() - i,
    {
        proof {
            assert(all[i as int] == entries@[i as int]@);
        }
        if entries[i].id.same(id) {
            return Some(i);
        }
        i = i + 1;
    }
    None
}

impl NavigationState {
    fn remember_selection(&mut self, entries: &[NavigationEntry])
        ensures
            final(self).selected == old(self).selected,
            final(self).collapsed == old(self).collapsed,
            final(self).remembered() == id_at(entry_views(entries@), old(self).selected as int),
    {
        self.selected_id = if self.selected < entries.len() {
            Some(entries[self.selected].id.copy())
        } else {
            None
        };
    }

    /// Finds the selected node again after the lines have changed; where it is gone, the line
    /// number stays as far as there are lines.
    pub fn clamp_selection(&mut self, entries: &[NavigationEntry])
        ensures
            final(self).folded() == old(self).folded(),
            ({
                let lines = entry_views(entries@);
                &&& final(self).selected == (match old(self).remembered() {
                    Some(id) => match line_of(lines, id, 0) {
                        Some(i) => i,
                        None => on_a_line(lines, old(self).selected as int),
                    },
                    None => on_a_line(lines, old(self).selected as int),
                })
                &&& final(self).remembered() == id_at(lines, final(self).selected as int)
            }),
    {
        let ghost lines = entry_views(entries@);
        if let Some(id) = &self.selected_id {
            if let Some(index) = find_node(entries, id) {
                self.selected = index;
            }
        }
        let last: usize = if entries.len() == 0 {
            0
        } else {
            entries.len() - 1
        };
        if self.selected > last {
            self.selected = last;
        }
        self.remember_selection(entries);
    }

    /// Selects the next line, if there is one.
    pub fn select_next(&mut self, entries: &[NavigationEntry])
        ensures
            final(self).folded() == old(self).folded(),
            entries@.len() == 0 ==> *final(self) == *old(self),
            entries@.len() > 0 ==> final(self).selected == text::min_int(
                old(self).selected + 1,
                entries@.len() - 1,
            ) && final(self).remembered() == id_at(
                entry_views(entries@),
                final(self).selected as int,
            ),
    {
        let n: usize = entries.len();
        if n > 0 {
            self.selected = if self.selected < n - 1 {
                self.selected + 1
            } else {
                n - 1
            };
            self.remember_selection(entries);
        }
    }

    /// Selects the line before, if there is one.
    pub fn select_prev(&mut self, entries: &[NavigationEntry])
        ensures
            final(self).folded() == old(self).folded(),
            final(self).selected == text::max_int(old(self).selected - 1, 0),
            final(self).remembered() == id_at(entry_views(entries@), final(self).selected as int),
    {
        self.selected = self.selected.saturating_sub(1);
        self.remember_selection(entries);
    }

    /// Selects the first line.
    pub fn select_first(&mut self, entries: &[NavigationEntry])
        ensures
            final(self).folded() == old(self).folded(),
            final(self).selected == 0,
            final(self).remembered() == id_at(entry_views(entries@), 0),
    {
        self.selected = 0;
        self.remember_selection(entries);
    }

    /// Selects the last line.
    pub fn select_last(&mut self, entries: &[NavigationEntry])
        ensures
            final(self).folded() == old(self).folded(),
            final(self).selected == text::max_int(entries@.len() - 1, 0),
            final(self).remembered() == id_at(entry_views(entries@), final(self).selected as int),
    {
        self.selected = if entries.len() == 0 {
            0
        } else {
            entries.len() - 1
        };
        self.remember_selection(entries);
    }

    /// Selects a line, the last one where there are not so many.
    pub fn select_index(&mut self, entries: &[NavigationEntry], index: usize)
        ensures
            final(self).folded() == old(self).folded(),
            final(self).selected == on_a_line(entry_views(entries@), index as int),
            final(self).remembered() == id_at(entry_views(entries@), final(self).selected as int),
    {
        let last: usize = if entries.len() == 0 {
            0
        } else {
            entries.len() - 1
        };
        self.selected = if index < last {
            index
        } else {
            last
        };
        self.remember_selection(entries);
    }

    fn is_folded(&self, id: &NavigationNodeId) -> (r: bool)
        ensures
            r == self.folded().contains(id@),
    {
        let mut i: usize = 0;
        while i < self.collapsed.len()
            invariant
                i <= self.collapsed@.len(),
                forall|k: int| 0 <= k < i ==> #[trigger] self.collapsed@[k]@ != id@,
            decreases self.collapsed@.len() - i,
        {
            if self.collapsed[i].same(id) {
                proof {
                    assert(self.collapsed@[i as int]@ == id@);
                }
                return true;
            }
            i = i + 1;
        }
        false
    }

    fn unfold(&mut self, id: &NavigationNodeId)
        ensures
            final(self).folded() == old(self).folded().remove(id@),
            final(self).selected == old(self).selected,
            final(self).remembered() == old(self).remembered(),
    {
        let ghost before = self.folded();
        let mut i: usize = 0;
        while i < self.collapsed.len()
            invariant
                i <= self.collapsed@.len(),
                self.selected == old(self).selected,
                self.selected_id == old(self).selected_id,
                forall|k: int| 0 <= k < i ==> #[trigger] self.collapsed@[k]@ != id@,
                forall|x: NodeV|
                    x != id@ ==> (#[trigger] self.folded().contains(x) == before.contains(x)),
            decreases self.collapsed@.len() - i,
        {
            if self.collapsed[i].same(id) {
                let ghost list = self.collapsed@;
                let ghost head = self.folded();
                self.collapsed.remove(i);
                proof {
                    let shorter = self.collapsed@;
                    assert forall|x: NodeV| x != id@ implies (#[trigger] self.folded().contains(x)
                        == before.contains(x)) by {
                        assert(head.contains(x) == before.contains(x));
                        if exists|k: int| 0 <= k < list.len() && #[trigger] list[k]@ == x {
                            let k = choose|k: int| 0 <= k < list.len() && #[trigger] list[k]@ == x;
                            if k < i {
                                assert(shorter[k]@ == x);
                            } else {
                                assert(shorter[k - 1]@ == x);
                            }
                        }
                        if exists|k: int| 0 <= k < shorter.len() && #[trigger] shorter[k]@ == x {
                            let k = choose|k: int|
                                0 <= k < shorter.len() && #[trigger] shorter[k]@ == x;
                            if k < i {
                                assert(list[k]@ == x);
                            } else {
                                assert(list[k + 1]@ == x);
                            }
                        }
                    }
                    assert forall|k: int| 0 <= k < i implies #[trigger] self.collapsed@[k]@ != id@ by {
                        assert(list[k]@ != id@);
                    }
                }
            } else {
                i = i + 1;
            }
        }
        proof {
            assert(self.folded() =~= before.remove(id@));
        }
    }

    fn fold(&mut self, id: &NavigationNodeId)
        ensures
            final(self).folded() == old(self).folded().insert(id@),
            final(self).selected == old(self).selected,
            final(self).remembered() == old(self).remembered(),
    {
        let ghost list = self.collapsed@;
        self.collapsed.push(id.copy());
        proof {
            let longer = self.collapsed@;
            assert(longer.last()@ == id@);
            assert forall|x: NodeV| self.folded().contains(x) == (x == id@ || old(
                self,
            ).folded().contains(x)) by {
                if exists|k: int| 0 <= k < list.len() && #[trigger] list[k]@ == x {
                    let k = choose|k: int| 0 <= k < list.len() && #[trigger] list[k]@ == x;
                    assert(longer[k]@ == x);
                }
                if exists|k: int| 0 <= k < longer.len() && #[trigger] longer[k]@ == x {
                    let k = choose|k: int| 0 <= k < longer.len() && #[trigger] longer[k]@ == x;
                    if k < list.len() {
                        assert(list[k]@ == x);
                    }
                }
            }
            assert(self.folded() =~= old(self).folded().insert(id@));
        }
    }

    /// Folds the selected node, or unfolds it, if it can be.
    pub fn toggle_selected(&mut self, entries: &[NavigationEntry])
        ensures
            final(self).selected == old(self).selected,
            final(self).remembered() == old(self).remembered(),
            final(self).folded() == ({
                let at = old(self).selected as int;
                if at < entries@.len() && entries@[at].expandable {
                    toggled(old(self).folded(), entries@[at].id@)
                } else {
                    old(self).folded()
                }
            }),
    {
        if self.selected < entries.len() {
            let entry = &entries[self.selected];
            if entry.expandable {
                if self.is_folded(&entry.id) {
                    self.unfold(&entry.id);
                } else {
                    self.fold(&entry.id);
                }
            }
        }
    }

    /// Unfolds the selected node or, where it is unfolded, selects its first child.
    pub fn expand_or_child(&mut self, entries: &[NavigationEntry])
        ensures
            ({
                let at = old(self).selected as int;
                let lines = entry_views(entries@);
                if at >= lines.len() {
                    *final(self) == *old(self)
                } else if lines[at].expandable && !lines[at].expanded {
                    &&& final(self).folded() == old(self).folded().remove(lines[at].id)
                    &&& final(self).selected == old(self).selected
                    &&& final(self).remembered() == old(self).remembered()
                } else if at + 1 < lines.len() && lines[at + 1].depth > lines[at].depth {
                    &&& final(self).folded() == old(self).folded()
                    &&& final(self).selected == at + 1
                    &&& final(self).remembered() == Some(lines[at + 1].id)
                } else {
                    *final(self) == *old(self)
                }
            }),
    {
        let at: usize = self.selected;
        let n: usize = entries.len();
        if at >= n {
            return ;
        }
        proof {
            assert(entry_views(entries@)[at as int] == entries@[at as int]@);
        }
        let entry = &entries[at];
        if entry.expandable && !entry.expanded {
            self.unfold(&entry.id);
            return ;
        }
        if at + 1 < n && entries[at + 1].depth > entry.depth {
            proof {
                assert(entry_views(entries@)[at + 1] == entries@[at + 1]@);
            }
            self.selected = at + 1;
            self.remember_selection(entries);
        }
    }

    /// Folds the selected node or, where it is folded or cannot be, selects its parent.
    pub fn collapse_or_parent(&mut self, entries: &[NavigationEntry])
        ensures
            ({
                let at = old(self).selected as int;
                let lines = entry_views(entries@);
                if at >= lines.len() {
                    *final(self) == *old(self)
                } else if lines[at].expandable && lines[at].expanded {
                    &&& final(self).folded() == old(self).folded().insert(lines[at].id)
                    &&& final(self).selected == old(self).selected
                    &&& final(self).remembered() == old(self).remembered()
                } else {
                    match parent_line(lines, lines[at].depth as int, at) {
                        Some(p) => {
                            &&& final(self).folded() == old(self).folded()
                            &&& final(self).selected == p
                            &&& final(self).remembered() == Some(lines[p].id)
                        },
                        None => *final(self) == *old(self),
                    }
                }
            }),
    {
        let at: usize = self.selected;
        if at >= entries.len() {
            return ;
        }
        let ghost lines = entry_views(entries@);
        proof {
            assert(lines[at as int] == entries@[at as int]@);
        }
        let entry = &entries[at];
        if entry.expandable && entry.expanded {
            self.fold(&entry.id);
            return ;
        }
        let depth: u16 = entry.depth;
        let mut i: usize = at;
        while i > 0
            invariant
                i <= at < entries@.len(),
                lines == entry_views(entries@),
                *self == *old(self),
                at == old(self).selected,
                lines[at as int].depth == depth,
                !(lines[at as int].expandable && lines[at as int].expanded),
                parent_line(lines, depth as int, i as int) == parent_line(
                    lines,
                    depth as int,
                    at as int,
                ),
            decreases i,
        {
            proof {
                assert(lines[i - 1] == entries@[i - 1]@);
            }
            if entries[i - 1].depth < depth {
                self.selected = i - 1;
                self.remember_selection(entries);
                return ;
            }
            i = i - 1;
        }
    }

    /// Selects the deepest active line, if there is one.
    pub fn sync_to_active(&mut self, entries: &[NavigationEntry])
        ensures
            final(self).folded() == old(self).folded(),
            match active_line(entry_views(entries@), entries@.len() as int) {
                Some(i) => final(self).selected == i && final(self).remembered() == Some(
                    entry_views(entries@)[i].id,
                ),
                None => *final(self) == *old(self),
            },
    {
        let ghost lines = entry_views(entries@);
        let mut i: usize = entries.len();
        while i > 0
            invariant
                i <= entries@.len(),
                lines == entry_views(entries@),
                *self == *old(self),
                active_line(lines, i as int) == active_line(lines, entries@.len() as int),
            decreases i,
        {
            proof {
                assert(lines[i - 1] == entries@[i - 1]@);
            }
            if entries[i - 1].active {
                self.selected = i - 1;
                self.remember_selection(entries);
                return ;
            }
            i = i - 1;
        }
    }
}

/// A set with a node put in if it is out, and taken out if it is in.
pub open spec fn toggled(folded: Set<NodeV>, id: NodeV) -> Set<NodeV> {
    if folded.contains(id) {
        folded.remove(id)
    } else {
        folded.insert(id)
    }
}

/// Folding and unfolding a node leaves what is folded as it was.
pub proof fn law_toggling_twice(folded: Set<NodeV>, id: NodeV)
    ensures
        toggled(toggled(folded, id), id) == folded,
{
    assert(toggled(toggled(folded, id), id) =~= folded);
}

/// Saturating sum of screen coordinates.
pub open spec fn sat16(n: int) -> int {
    text::min_int(n, 65535)
}

/// Whether a column is on the fold mark of a line: the two columns behind its indentation.
pub open spec fn on_mark(entry: EntryV, origin_x: u16, column: u16) -> bool {
    let start = sat16(sat16(origin_x + 1) + sat16(entry.depth * 2));
    entry.expandable && start <= column < sat16(start + 2)
}

/// Whether a column is on the fold mark of a line.
pub fn disclosure_hit(entry: &NavigationEntry, origin_x: u16, column: u16) -> (r: bool)
    ensures
        r == on_mark(entry@, origin_x, column),
{
    if !entry.expandable {
        return false;
    }
    let indent: u16 = if entry.depth > 32767 {
        65535
    } else {
        entry.depth * 2
    };
    let start: u16 = origin_x.saturating_add(1).saturating_add(indent);
    column >= start && column < start.saturating_add(2)
}

/// Rows before the tree and rows of it: two rows at the bottom are kept for hints where there is
/// room.
pub open spec fn viewport(area_height: u16) -> (u16, u16) {
    (
        0,
        if area_height >= 7 {
            (area_height - 2) as u16
        } else {
            area_height
        },
    )
}

/// Rows before the tree and rows of it.
pub fn sidebar_viewport(area_height: u16) -> (r: (u16, u16))
    ensures
        r == viewport(area_height),
{
    if area_height >= 7 {
        (0, area_height - 2)
    } else {
        (0, area_height)
    }
}

/// First line shown: a third of the view is kept above the selection, and no line past the last
/// is shown while there are enough.
pub open spec fn scroll_offset(selected: int, count: int, height: int) -> int {
    if height == 0 || count <= height {
        0
    } else {
        text::min_int(text::max_int(selected - text::max_int(height / 3, 1), 0), count - height)
    }
}

/// First line shown of the tree.
pub fn sidebar_scroll_offset(selected: usize, entry_count: usize, view_height: usize) -> (r: usize)
    ensures
        r == scroll_offset(selected as int, entry_count as int, view_height as int),
{
    if view_height == 0 || entry_count <= view_height {
        return 0;
    }
    let third: usize = view_height / 3;
    let context: usize = if third < 1 {
        1
    } else {
        third
    };
    let top: usize = selected.saturating_sub(context);
    if top < entry_count - view_height {
        top
    } else {
        entry_count - view_height
    }
}

/// The line under a screen row, if the row shows one.
pub open spec fn entry_under(
    selected: int,
    count: int,
    area_y: u16,
    area_height: u16,
    row: u16,
) -> Option<usize> {
    let height = viewport(area_height).1 as int;
    let index = scroll_offset(selected, count, height) + row - area_y;
    if row < area_y || row >= sat16(area_y + height) || index >= count {
        None
    } else {
        Some(index as usize)
    }
}

/// The line under a screen row, if the row shows one.
pub fn sidebar_entry_at(
    selected: usize,
    entry_count: usize,
    area_y: u16,
    area_height: u16,
    row: u16,
) -> (r: Option<usize>)
    ensures
        r == entry_under(selected as int, entry_count as int, area_y, area_height, row),
{
    let (content_offset, view_height) = sidebar_viewport(area_height);
    let content_y: u16 = area_y.saturating_add(content_offset);
    if row < content_y || row >= content_y.saturating_add(view_height) {
        return None;
    }
    let scroll: usize = sidebar_scroll_offset(selected, entry_count, view_height as usize);
    let down: usize = (row - content_y) as usize;
    if down < entry_count - scroll {
        Some(scroll + down)
    } else {
        None
    }
}

/// The selected line is among those shown, in a view of at least two rows.
pub proof fn law_selection_is_shown(selected: int, count: int, height: int)
    requires
        0 <= selected < count,
        height >= 2,
    ensures
        ({
            let top = scroll_offset(selected, count, height);
            0 <= top <= selected < top + height
        }),
{
}

/// Every line shown is found under its row, and only there.
pub proof fn law_rows_show_their_lines(
    selected: int,
    count: int,
    area_y: u16,
    area_height: u16,
    index: int,
)
    requires
        0 <= selected < count <= usize::MAX,
        area_y + area_height <= u16::MAX,
        ({
            let height = viewport(area_height).1 as int;
            let top = scroll_offset(selected, count, height);
            top <= index < text::min_int(top + height, count)
        }),
    ensures
        ({
            let height = viewport(area_height).1 as int;
            let row = area_y + index - scroll_offset(selected, count, height);
            entry_under(selected, count, area_y, area_height, row as u16) == Some(index as usize)
        }),
        forall|row: u16| #[trigger]
            entry_under(selected, count, area_y, area_height, row) == Some(index as usize)
                ==> row == area_y + index - scroll_offset(
                selected,
                count,
                viewport(area_height).1 as int,
            ),
{
}

pub open spec fn session_id(machine: Seq<char>, workspace: Seq<char>, name: Seq<char>) -> NodeV {
    NodeV::Session { machine, workspace, name }
}

pub open spec fn window_id(
    machine: Seq<char>,
    workspace: Seq<char>,
    session: Seq<char>,
    index: usize,
) -> NodeV {
    NodeV::Window { machine, workspace, session, index }
}

/// The line that a session, window or pane has, unless a node above it in the workspace is folded.
pub open spec fn node_line(
    machine: Seq<char>,
    ws: WorkspaceV,
    node: TreeV,
    folded: Set<NodeV>,
    depth: int,
) -> Option<EntryV> {
    match node {
        TreeV::Session { name, is_active, .. } => {
            let id = session_id(machine, ws.socket_name, name);
            Some(
                EntryV {
                    id,
                    kind: NavigationNodeKind::Session,
                    depth: depth as u16,
                    label: name,
                    meta: None,
                    connection: None,
                    active: ws.active && is_active,
                    expandable: true,
                    expanded: !folded.contains(id),
                },
            )
        },
        TreeV::Window { session_name, index, name, is_active, .. } => {
            let id = window_id(machine, ws.socket_name, session_name, index);
            if folded.contains(session_id(machine, ws.socket_name, session_name)) {
                None
            } else {
                Some(
                    EntryV {
                        id,
                        kind: NavigationNodeKind::Window,
                        depth: (depth + 1) as u16,
                        label: name,
                        meta: None,
                        connection: None,
                        active: ws.active && is_active,
                        expandable: true,
                        expanded: !folded.contains(id),
                    },
                )
            }
        },
        TreeV::Pane { session_name, window_index, pane_id, index, title, is_active } => {
            if folded.contains(session_id(machine, ws.socket_name, session_name))
                || folded.contains(window_id(machine, ws.socket_name, session_name, window_index)) {
                None
            } else {
                Some(
                    EntryV {
                        id: NodeV::Pane {
                            machine,
                            workspace: ws.socket_name,
                            session: session_name,
                            window: window_index,
                            pane_id,
                        },
                        kind: NavigationNodeKind::Pane,
                        depth: (depth + 2) as u16,
                        label: if text::trimmed(title).len() == 0 {
                            "pane "@ + text::decimal(index as nat)
                        } else {
                            title
                        },
                        meta: None,
                        connection: None,
                        active: ws.active && is_active,
                        expandable: false,
                        expanded: false,
                    },
                )
            }
        },
    }
}

/// Zero lines or one.
pub open spec fn as_lines(line: Option<EntryV>) -> Seq<EntryV> {
    match line {
        Some(e) => seq![e],
        None => Seq::empty(),
    }
}

/// The lines of the first `n` nodes of a workspace's tree.
pub open spec fn tree_lines(
    machine: Seq<char>,
    ws: WorkspaceV,
    folded: Set<NodeV>,
    depth: int,
    n: int,
) -> Seq<EntryV>
    decreases n,
{
    if n <= 0 {
        Seq::empty()
    } else {
        tree_lines(machine, ws, folded, depth, n - 1) + as_lines(
            node_line(machine, ws, ws.tree[n - 1], folded, depth),
        )
    }
}

/// The lines of a workspace: its own, and those of its tree unless it is folded.
pub open spec fn workspace_lines(
    machine: Seq<char>,
    ws: WorkspaceV,
    folded: Set<NodeV>,
    depth: int,
) -> Seq<EntryV> {
    let id = NodeV::Workspace { machine, workspace: ws.socket_name };
    seq![
        EntryV {
            id,
            kind: NavigationNodeKind::Workspace,
            depth: depth as u16,
            label: if text::trimmed(ws.title).len() == 0 {
                ws.socket_name
            } else {
                ws.title
            },
            meta: None,
            connection: None,
            active: ws.active,
            expandable: true,
            expanded: !folded.contains(id),
        },
    ] + (if folded.contains(id) {
        Seq::empty()
    } else {
        tree_lines(machine, ws, folded, depth + 1, ws.tree.len() as int)
    })
}

/// The lines of the first `n` workspaces of a machine.
pub open spec fn workspaces_lines(
    machine: Seq<char>,
    workspaces: Seq<WorkspaceV>,
    folded: Set<NodeV>,
    depth: int,
    n: int,
) -> Seq<EntryV>
    decreases n,
{
    if n <= 0 {
        Seq::empty()
    } else {
        workspaces_lines(machine, workspaces, folded, depth, n - 1) + workspace_lines(
            machine,
            workspaces[n - 1],
            folded,
            depth,
        )
    }
}

/// The lines of a machine: its own, and those of its workspaces unless it is folded.
pub open spec fn machine_lines(m: MachineV, folded: Set<NodeV>) -> Seq<EntryV> {
    let id = NodeV::Machine(m.id);
    seq![
        EntryV {
            id,
            kind: NavigationNodeKind::Machine,
            depth: 0,
            label: m.name,
            meta: None,
            connection: Some(m.state),
            active: m.active,
            expandable: m.workspaces.len() > 0,
            expanded: !folded.contains(id),
        },
    ] + (if folded.contains(id) {
        Seq::empty()
    } else {
        workspaces_lines(m.id, m.workspaces, folded, 1, m.workspaces.len() as int)
    })
}

/// Whether a remote machine has not been listed before.
pub open spec fn is_new_machine(local: Seq<char>, remotes: Seq<MachineV>, n: int) -> bool {
    remotes[n].id != local && forall|k: int| 0 <= k < n ==> (#[trigger] remotes[k]).id != remotes[n].id
}

/// The lines of the first `n` remote machines, each machine once.
pub open spec fn remotes_lines(
    local: Seq<char>,
    remotes: Seq<MachineV>,
    folded: Set<NodeV>,
    n: int,
) -> Seq<EntryV>
    decreases n,
{
    if n <= 0 {
        Seq::empty()
    } else {
        remotes_lines(local, remotes, folded, n - 1) + (if is_new_machine(local, remotes, n - 1) {
            machine_lines(remotes[n - 1], folded)
        } else {
            Seq::empty()
        })
    }
}

/// Whether one of the remote machines is active.
pub open spec fn any_active(remotes: Seq<MachineV>) -> bool {
    exists|i: int| 0 <= i < remotes.len() && (#[trigger] remotes[i]).active
}

/// The local machine as the tree shows it: active unless a remote one is.
pub open spec fn local_machine(
    id: Seq<char>,
    name: Seq<char>,
    workspaces: Seq<WorkspaceV>,
    remotes: Seq<MachineV>,
) -> MachineV {
    MachineV {
        id,
        name,
        state: MachineConnectionState::Local,
        active: !any_active(remotes),
        workspaces,
    }
}

/// The whole tree: the local machine, then the remote ones.
pub open spec fn navigation_lines(
    id: Seq<char>,
    name: Seq<char>,
    workspaces: Seq<WorkspaceV>,
    remotes: Seq<MachineV>,
    folded: Set<NodeV>,
) -> Seq<EntryV> {
    machine_lines(local_machine(id, name, workspaces, remotes), folded) + remotes_lines(
        id,
        remotes,
        folded,
        remotes.len() as int,
    )
}

fn blank_title(title: &str) -> (r: bool)
    ensures
        r == (text::trimmed(title@).len() == 0),
{
    let cs = text::chars_of(title);
    text::trim(cs.as_slice()).len() == 0
}

/// The line of one node of a workspace's tree, if it is shown.
fn tree_entry(
    machine: &str,
    workspace: &WorkspaceNavigationView<'_>,
    node: &SessionTreeEntry,
    state: &NavigationState,
    depth: u16,
) -> (r: Option<NavigationEntry>)
    requires
        depth <= 65533,
    ensures
        (match r {
            Some(e) => Some(e@),
            None => None,
        }) == node_line(machine@, workspace@, node@, state.folded(), depth as int),
{
    match node {
        SessionTreeEntry::Session { name, window_count: _, is_active } => {
            let id = NavigationNodeId::Session {
                machine: machine.to_string(),
                workspace: workspace.socket_name.to_string(),
                name: name.clone(),
            };
            let expanded: bool = !state.is_folded(&id);
            Some(
                NavigationEntry {
                    id,
                    kind: NavigationNodeKind::Session,
                    depth,
                    label: name.clone(),
                    meta: None,
                    connection: None,
                    active: workspace.active && *is_active,
                    expandable: true,
                    expanded,
                },
            )
        },
        SessionTreeEntry::Window { session_name, index, name, pane_count: _, is_active } => {
            let session = NavigationNodeId::Session {
                machine: machine.to_string(),
                workspace: workspace.socket_name.to_string(),
                name: session_name.clone(),
            };
            if state.is_folded(&session) {
                return None;
            }
            let id = NavigationNodeId::Window {
                machine: machine.to_string(),
                workspace: workspace.socket_name.to_string(),
                session: session_name.clone(),
                index: *index,
            };
            let expanded: bool = !state.is_folded(&id);
            Some(
                NavigationEntry {
                    id,
                    kind: NavigationNodeKind::Window,
                    depth: depth + 1,
                    label: name.clone(),
                    meta: None,
                    connection: None,
                    active: workspace.active && *is_active,
                    expandable: true,
                    expanded,
                },
            )
        },
        SessionTreeEntry::Pane { session_name, window_index, pane_id, index, title, is_active } => {
            let session = NavigationNodeId::Session {
                machine: machine.to_string(),
                workspace: workspace.socket_name.to_string(),
                name: session_name.clone(),
            };
            let window = NavigationNodeId::Window {
                machine: machine.to_string(),
                workspace: workspace.socket_name.to_string(),
                session: session_name.clone(),
                index: *window_index,
            };
            if state.is_folded(&session) || state.is_folded(&window) {
                return None;
            }
            let label: String = if blank_title(title.as_str()) {
                let mut text = "pane ".to_string();
                text::push_decimal(&mut text, *index as u64);
                text
            } else {
                title.clone()
            };
            Some(
                NavigationEntry {
                    id: NavigationNodeId::Pane {
                        machine: machine.to_string(),
                        workspace: workspace.socket_name.to_string(),
                        session: session_name.clone(),
                        window: *window_index,
                        pane_id: *pane_id,
                    },
                    kind: NavigationNodeKind::Pane,
                    depth: depth + 2,
                    label,
                    meta: None,
                    connection: None,
                    active: workspace.active && *is_active,
                    expandable: false,
                    expanded: false,
                },
            )
        },
    }
}

proof fn lemma_pushed(before: Seq<NavigationEntry>, e: NavigationEntry)
    ensures
        entry_views(before.push(e)) == entry_views(before).push(e@),
        entry_views(before.push(e)) == entry_views(before) + seq![e@],
{
    assert(entry_views(before.push(e)) =~= entry_views(before).push(e@));
    assert(entry_views(before).push(e@) =~= entry_views(before) + seq![e@]);
}

/// Appends the lines of a workspace's tree.
pub fn append_session_tree(
    entries: &mut Vec<NavigationEntry>,
    machine: &str,
    workspace: &WorkspaceNavigationView<'_>,
    state: &NavigationState,
    depth: u16,
)
    requires
        depth <= 65533,
    ensures
        entry_views(final(entries)@) == entry_views(old(entries)@) + tree_lines(
            machine@,
            workspace@,
            state.folded(),
            depth as int,
            workspace@.tree.len() as int,
        ),
{
    let ghost start = entry_views(entries@);
    let n: usize = workspace.tree.len();
    let mut i: usize = 0;
    proof {
        assert(start + Seq::<EntryV>::empty() =~= start);
    }
    while i < n
        invariant
            n == workspace.tree@.len(),
            i <= n,
            depth <= 65533,
            entry_views(entries@) == start + tree_lines(
                machine@,
                workspace@,
                state.folded(),
                depth as int,
                i as int,
            ),
        decreases n - i,
    {
        let node = &workspace.tree[i];
        let ghost before = entries@;
        let ghost lines = tree_lines(
            machine@,
            workspace@,
            state.folded(),
            depth as int,
            i as int,
        );
        proof {
            assert(workspace@.tree[i as int] == node@);
        }
        match tree_entry(machine, workspace, node, state, depth) {
            Some(e) => {
                proof {
                    lemma_pushed(before, e);
                    assert(start + (lines + seq![e@]) =~= (start + lines) + seq![e@]);
                }
                entries.push(e);
            },
            None => {
                proof {
                    assert(lines + Seq::<EntryV>::empty() =~= lines);
                }
            },
        }
        i = i + 1;
    }
}

fn append_workspace(
    entries: &mut Vec<NavigationEntry>,
    machine: &str,
    workspace: &WorkspaceNavigationView<'_>,
    state: &NavigationState,
)
    ensures
        entry_views(final(entries)@) == entry_views(old(entries)@) + workspace_lines(
            machine@,
            workspace@,
            state.folded(),
            1,
        ),
{
    let ghost start = entries@;
    let id = NavigationNodeId::Workspace {
        machine: machine.to_string(),
        workspace: workspace.socket_name.to_string(),
    };
    let expanded: bool = !state.is_folded(&id);
    let label: String = if blank_title(workspace.title) {
        workspace.socket_name.to_string()
    } else {
        workspace.title.to_string()
    };
    let entry = NavigationEntry {
        id,
        kind: NavigationNodeKind::Workspace,
        depth: 1,
        label,
        meta: None,
        connection: None,
        active: workspace.active,
        expandable: true,
        expanded,
    };
    let ghost entry_v = entry@;
    proof {
        lemma_pushed(start, entry);
    }
    entries.push(entry);
    if expanded {
        append_session_tree(entries, machine, workspace, state, 2);
        proof {
            let rest = tree_lines(
                machine@,
                workspace@,
                state.folded(),
                2,
                workspace@.tree.len() as int,
            );
            assert((entry_views(start) + seq![entry_v]) + rest =~= entry_views(start) + (seq![
                entry_v,
            ] + rest));
        }
    } else {
        proof {
            assert(seq![entry_v] + Seq::<EntryV>::empty() =~= seq![entry_v]);
        }
    }
}

/// Appends the lines of a machine.
pub fn append_machine(
    entries: &mut Vec<NavigationEntry>,
    machine_id: &str,
    machine_name: &str,
    connection: MachineConnectionState,
    active: bool,
    workspaces: &[WorkspaceNavigationView<'_>],
    state: &NavigationState,
)
    ensures
        entry_views(final(entries)@) == entry_views(old(entries)@) + machine_lines(
            MachineV {
                id: machine_id@,
                name: machine_name@,
                state: connection,
                active,
                workspaces: workspace_views(workspaces@),
            },
            state.folded(),
        ),
{
    let ghost start = entries@;
    let ghost views = workspace_views(workspaces@);
    let id = NavigationNodeId::Machine(machine_id.to_string());
    let expanded: bool = !state.is_folded(&id);
    let n: usize = workspaces.len();
    let entry = NavigationEntry {
        id,
        kind: NavigationNodeKind::Machine,
        depth: 0,
        label: machine_name.to_string(),
        meta: None,
        connection: Some(connection),
        active,
        expandable: n > 0,
        expanded,
    };
    let ghost entry_v = entry@;
    proof {
        lemma_pushed(start, entry);
    }
    entries.push(entry);
    if !expanded {
        proof {
            assert(seq![entry_v] + Seq::<EntryV>::empty() =~= seq![entry_v]);
        }
        return ;
    }
    let mut i: usize = 0;
    let ghost head = entry_views(entries@);
    proof {
        assert(head + Seq::<EntryV>::empty() =~= head);
    }
    while i < n
        invariant
            n == workspaces@.len(),
            views == workspace_views(workspaces@),
            i <= n,
            entry_views(entries@) == head + workspaces_lines(
                machine_id@,
                views,
                state.folded(),
                1,
                i as int,
            ),
        decreases n - i,
    {
        let ghost lines = workspaces_lines(machine_id@, views, state.folded(), 1, i as int);
        proof {
            assert(views[i as int] == workspaces@[i as int]@);
        }
        append_workspace(entries, machine_id, &workspaces[i], state);
        proof {
            let more = workspace_lines(machine_id@, views[i as int], state.folded(), 1);
            assert((head + lines) + more =~= head + (lines + more));
        }
        i = i + 1;
    }
    proof {
        let lines = workspaces_lines(machine_id@, views, state.folded(), 1, n as int);
        assert((entry_views(start) + seq![entry_v]) + lines =~= entry_views(start) + (seq![entry_v]
            + lines));
    }
}

fn listed_before(
    machine_id: &str,
    remotes: &[RemoteMachineNavigationView<'_>],
    n: usize,
) -> (r: bool)
    requires
        n < remotes@.len(),
    ensures
        r == !is_new_machine(machine_id@, machine_views(remotes@), n as int),
{
    let ghost views = machine_views(remotes@);
    proof {
        assert(views[n as int] == remotes@[n as int]@);
    }
    if text::same_text(remotes[n].id, machine_id) {
        return true;
    }
    let mut i: usize = 0;
    while i < n
        invariant
            n < remotes@.len(),
            views == machine_views(remotes@),
            i <= n,
            remotes@[n as int].id@ != machine_id@,
            forall|k: int| 0 <= k < i ==> (#[trigger] views[k]).id != views[n as int].id,
        decreases n - i,
    {
        proof {
            assert(views[i as int] == remotes@[i as int]@);
        }
        if text::same_text(remotes[i].id, remotes[n].id) {
            return true;
        }
        i = i + 1;
    }
    false
}

fn remote_is_active(remotes: &[RemoteMachineNavigationView<'_>]) -> (r: bool)
    ensures
        r == any_active(machine_views(remotes@)),
{
    let ghost views = machine_views(remotes@);
    let mut i: usize = 0;
    while i < remotes.len()
        invariant
            views == machine_views(remotes@),
            i <= remotes@.len(),
            forall|k: int| 0 <= k < i ==> !(#[trigger] views[k]).active,
        decreases remotes@.len() - i,
    {
        proof {
            assert(views[i as int] == remotes@[i as int]@);
        }
        if remotes[i].active {
            return true;
        }
        i = i + 1;
    }
    false
}

/// The lines of the local machine and of the remote ones behind it.
pub fn build_navigation_tree(
    machine_id: &str,
    machine_name: &str,
    workspaces: &[WorkspaceNavigationView<'_>],
    remotes: &[RemoteMachineNavigationView<'_>],
    state: &NavigationState,
) -> (r: Vec<NavigationEntry>)
    ensures
        entry_views(r@) == navigation_lines(
            machine_id@,
            machine_name@,
            workspace_views(workspaces@),
            machine_views(remotes@),
            state.folded(),
        ),
{
    let ghost views = machine_views(remotes@);
    let mut entries: Vec<NavigationEntry> = Vec::new();
    let local_active: bool = !remote_is_active(remotes);
    append_machine(
        &mut entries,
        machine_id,
        machine_name,
        MachineConnectionState::Local,
        local_active,
        workspaces,
        state,
    );
    let ghost head = machine_lines(
        local_machine(machine_id@, machine_name@, workspace_views(workspaces@), views),
        state.folded(),
    );
    proof {
        assert(entry_views(Seq::<NavigationEntry>::empty()) + head =~= head);
        assert(entry_views(entries@) =~= head);
        assert(head + Seq::<EntryV>::empty() =~= head);
    }
    let n: usize = remotes.len();
    let mut i: usize = 0;
    while i < n
        invariant
            n == remotes@.len(),
            views == machine_views(remotes@),
            i <= n,
            entry_views(entries@) == head + remotes_lines(
                machine_id@,
                views,
                state.folded(),
                i as int,
            ),
        decreases n - i,
    {
        let ghost lines = remotes_lines(machine_id@, views, state.folded(), i as int);
        let remote = &remotes[i];
        proof {
            assert(views[i as int] == remote@);
        }
        if !listed_before(machine_id, remotes, i) {
            append_machine(
                &mut entries,
                remote.id,
                remote.name,
                remote.state,
                remote.active,
                remote.workspaces.as_slice(),
                state,
            );
            proof {
                let more = machine_lines(views[i as int], state.folded());
                assert((head + lines) + more =~= head + (lines + more));
            }
        } else {
            proof {
                assert(lines + Seq::<EntryV>::empty() =~= lines);
            }
        }
        i = i + 1;
    }
    entries
}

/// The lines of the local machine alone.
pub fn build_navigation_entries(
    machine_id: &str,
    machine_name: &str,
    workspaces: &[WorkspaceNavigationView<'_>],
    state: &NavigationState,
) -> (r: Vec<NavigationEntry>)
    ensures
        entry_views(r@) == navigation_lines(
            machine_id@,
            machine_name@,
            workspace_views(workspaces@),
            Seq::empty(),
            state.folded(),
        ),
{
    let remotes: Vec<RemoteMachineNavigationView<'_>> = Vec::new();
    proof {
        assert(machine_views(remotes@) =~= Seq::empty());
    }
    build_navigation_tree(machine_id, machine_name, workspaces, remotes.as_slice(), state)
}

proof fn lemma_tree_lines_place(
    machine: Seq<char>,
    ws: WorkspaceV,
    folded: Set<NodeV>,
    depth: int,
    n: int,
)
    requires
        n <= ws.tree.len(),
    ensures
        forall|i: int|
            0 <= i < tree_lines(machine, ws, folded, depth, n).len() ==> {
                let e = #[trigger] tree_lines(machine, ws, folded, depth, n)[i];
                e.id.machine() == machine && e.id.workspace() == Some(ws.socket_name)
            },
    decreases n,
{
    if n > 0 {
        lemma_tree_lines_place(machine, ws, folded, depth, n - 1);
        let before = tree_lines(machine, ws, folded, depth, n - 1);
        let all = tree_lines(machine, ws, folded, depth, n);
        assert forall|i: int| 0 <= i < all.len() implies {
            let e = #[trigger] all[i];
            e.id.machine() == machine && e.id.workspace() == Some(ws.socket_name)
        } by {
            if i < before.len() {
                assert(all[i] == before[i]);
            }
        }
    }
}

/// Every line of a workspace's branch names that workspace and its machine.
pub proof fn law_workspace_lines_stay_in_it(
    machine: Seq<char>,
    ws: WorkspaceV,
    folded: Set<NodeV>,
    depth: int,
    i: int,
)
    requires
        0 <= i < workspace_lines(machine, ws, folded, depth).len(),
    ensures
        workspace_lines(machine, ws, folded, depth)[i].id.machine() == machine,
        workspace_lines(machine, ws, folded, depth)[i].id.workspace() == Some(ws.socket_name),
{
    lemma_tree_lines_place(machine, ws, folded, depth + 1, ws.tree.len() as int);
    if i > 0 {
        let id = NodeV::Workspace { machine, workspace: ws.socket_name };
        let rest = tree_lines(machine, ws, folded, depth + 1, ws.tree.len() as int);
        assert(!folded.contains(id));
        assert(workspace_lines(machine, ws, folded, depth)[i] == rest[i - 1]);
    }
}

proof fn lemma_workspaces_lines_machine(
    machine: Seq<char>,
    workspaces: Seq<WorkspaceV>,
    folded: Set<NodeV>,
    depth: int,
    n: int,
)
    requires
        n <= workspaces.len(),
    ensures
        forall|i: int|
            0 <= i < workspaces_lines(machine, workspaces, folded, depth, n).len() ==> (
            #[trigger] workspaces_lines(machine, workspaces, folded, depth, n)[i]).id.machine()
                == machine,
    decreases n,
{
    if n > 0 {
        lemma_workspaces_lines_machine(machine, workspaces, folded, depth, n - 1);
        let before = workspaces_lines(machine, workspaces, folded, depth, n - 1);
        let more = workspace_lines(machine, workspaces[n - 1], folded, depth);
        let all = workspaces_lines(machine, workspaces, folded, depth, n);
        assert forall|i: int| 0 <= i < all.len() implies (#[trigger] all[i]).id.machine()
            == machine by {
            if i < before.len() {
                assert(all[i] == before[i]);
            } else {
                assert(all[i] == more[i - before.len()]);
                law_workspace_lines_stay_in_it(
                    machine,
                    workspaces[n - 1],
                    folded,
                    depth,
                    i - before.len(),
                );
            }
        }
    }
}

/// Every line of a machine's branch names that machine.
pub proof fn law_machine_lines_stay_on_it(m: MachineV, folded: Set<NodeV>, i: int)
    requires
        0 <= i < machine_lines(m, folded).len(),
    ensures
        machine_lines(m, folded)[i].id.machine() == m.id,
{
    lemma_workspaces_lines_machine(m.id, m.workspaces, folded, 1, m.workspaces.len() as int);
    if i > 0 {
        let rest = workspaces_lines(m.id, m.workspaces, folded, 1, m.workspaces.len() as int);
        assert(machine_lines(m, folded)[i] == rest[i - 1]);
    }
}

/// Nodes on different machines are never the same node, whatever they are called.
pub proof fn law_machines_share_no_node(
    a: MachineV,
    b: MachineV,
    folded: Set<NodeV>,
    i: int,
    j: int,
)
    requires
        a.id != b.id,
        0 <= i < machine_lines(a, folded).len(),
        0 <= j < machine_lines(b, folded).len(),
    ensures
        machine_lines(a, folded)[i].id != machine_lines(b, folded)[j].id,
{
    law_machine_lines_stay_on_it(a, folded, i);
    law_machine_lines_stay_on_it(b, folded, j);
}

/// Nodes in different workspaces are never the same node, whatever they are called.
pub proof fn law_workspaces_share_no_node(
    machine: Seq<char>,
    a: WorkspaceV,
    b: WorkspaceV,
    folded: Set<NodeV>,
    i: int,
    j: int,
)
    requires
        a.socket_name != b.socket_name,
        0 <= i < workspace_lines(machine, a, folded, 1).len(),
        0 <= j < workspace_lines(machine, b, folded, 1).len(),
    ensures
        workspace_lines(machine, a, folded, 1)[i].id != workspace_lines(machine, b, folded, 1)[j].id,
{
    law_workspace_lines_stay_in_it(machine, a, folded, 1, i);
    law_workspace_lines_stay_in_it(machine, b, folded, 1, j);
}

/// A title only changes the label: the nodes of a workspace stay the same ones.
pub proof fn law_titles_are_only_labels(
    machine: Seq<char>,
    ws: WorkspaceV,
    title: Seq<char>,
    folded: Set<NodeV>,
)
    ensures
        ({
            let named = workspace_lines(machine, WorkspaceV { title, ..ws }, folded, 1);
            let lines = workspace_lines(machine, ws, folded, 1);
            named.len() == lines.len() && forall|i: int|
                0 <= i < lines.len() ==> (#[trigger] named[i]).id == lines[i].id
        }),
{
    let other = WorkspaceV { title, ..ws };
    lemma_tree_lines_title(machine, ws, title, folded, 2, ws.tree.len() as int);
    assert(workspace_lines(machine, other, folded, 1).len() == workspace_lines(
        machine,
        ws,
        folded,
        1,
    ).len());
}

proof fn lemma_tree_lines_title(
    machine: Seq<char>,
    ws: WorkspaceV,
    title: Seq<char>,
    folded: Set<NodeV>,
    depth: int,
    n: int,
)
    ensures
        tree_lines(machine, WorkspaceV { title, ..ws }, folded, depth, n) == tree_lines(
            machine,
            ws,
            folded,
            depth,
            n,
        ),
    decreases n,
{
    if n > 0 {
        lemma_tree_lines_title(machine, ws, title, folded, depth, n - 1);
    }
}

/// A folded node shows its own line and nothing below it: a machine no workspace, a workspace no
/// session, a session no window or pane, a window no pane.
pub proof fn law_folding_hides_what_is_below(
    machine: Seq<char>,
    ws: WorkspaceV,
    folded: Set<NodeV>,
    m: MachineV,
    session: Seq<char>,
    window: usize,
    node: TreeV,
    depth: int,
)
    ensures
        folded.contains(NodeV::Machine(m.id)) ==> machine_lines(m, folded).len() == 1,
        folded.contains(NodeV::Workspace { machine, workspace: ws.socket_name })
            ==> workspace_lines(machine, ws, folded, depth).len() == 1,
        folded.contains(session_id(machine, ws.socket_name, session)) && (match node {
            TreeV::Window { session_name, .. } => session_name == session,
            TreeV::Pane { session_name, .. } => session_name == session,
            _ => false,
        }) ==> node_line(machine, ws, node, folded, depth) is None,
        folded.contains(window_id(machine, ws.socket_name, session, window)) && (match node {
            TreeV::Pane { session_name, window_index, .. } => session_name == session
                && window_index == window,
            _ => false,
        }) ==> node_line(machine, ws, node, folded, depth) is None,
{
}

} // verus!
