//! Moving between panes, workspaces and machines.

use crate::client::state;
use crate::commands;
use crate::frame;
use crate::geometry;
use crate::keys;
use crate::navigation;
use crate::selection;
use crate::text;
use crate::visual;
use crate::client::actions::{Request, RequestV};
use crate::client::state::{Client, ClientV, ConnectionV, Env, EnvV, ManagerV, NavV, WorkspaceManager};
use crate::keys::{MouseEvent, NavDir};
use crate::navigation::{EntryV, NavigationNodeId, NodeV};
use crate::visual::{VisualHit, VisualTarget};
use vstd::prelude::*;

verus! {

/// The panes on screen.
pub open spec fn screen_hits(c: ClientV, env: EnvV) -> Seq<VisualHit> {
    match env.frame {
        Some(f) => visual::hits_of(
            frame::placed(
                f.layout,
                geometry::areas_of(env.cols, env.rows, c.ws.sidebar).layout,
                c.ui.hide_borders,
            ),
        ),
        None => Seq::empty(),
    }
}

/// The pane kept in mind.
pub open spec fn kept_target(c: ClientV) -> Option<VisualTarget> {
    match state::active_ws(c).focus {
        Some(pane_id) => Some(VisualTarget::Local { pane_id }),
        None => None,
    }
}

pub open spec fn select_pane_command(pane_id: usize) -> Seq<char> {
    "select-pane -t %"@ + text::decimal(pane_id as nat)
}

/// A pane made the current one.
pub open spec fn moved_to(c: ClientV, target: VisualTarget) -> ClientV {
    let c = state::asked(c, RequestV::Command(select_pane_command(target->pane_id)));
    state::with_active(c, ConnectionV { focus: Some(target->pane_id), ..state::active_ws(c) })
}

/// A move to the neighbouring pane, if there is one.
pub open spec fn pane_moved(c: ClientV, dir: NavDir, env: EnvV) -> Option<ClientV> {
    let hits = screen_hits(c, env);
    match visual::current_of(kept_target(c), hits) {
        Some(current) => match visual::neighbor(hits, current, dir) {
            Some(next) => Some(moved_to(c, next)),
            None => None,
        },
        None => None,
    }
}

/// The pane on screen at a cell.
pub open spec fn hit_under(c: ClientV, env: EnvV, col: u16, row: u16) -> Option<VisualHit> {
    let hits = screen_hits(c, env);
    match visual::first_hit(hits, |h: VisualHit| visual::hit_has(h, col as int, row as int), 0) {
        Some(i) => Some(hits[i]),
        None => None,
    }
}

/// The pane at a cell made the current one, if there is one and it is not already.
pub open spec fn focused_at(c: ClientV, env: EnvV, col: u16, row: u16) -> Option<ClientV> {
    match hit_under(c, env, col, row) {
        Some(hit) => if visual::current_of(kept_target(c), screen_hits(c, env)) == Some(hit.target) {
            None
        } else {
            Some(moved_to(c, hit.target))
        },
        None => None,
    }
}

/// The pane under the mouse scrolled, or the current one where there is none.
pub open spec fn wheel_turned(c: ClientV, env: EnvV, mouse: MouseEvent, up: bool) -> ClientV {
    match hit_under(c, env, mouse.column, mouse.row) {
        Some(hit) => state::asked(
            moved_to(c, hit.target),
            RequestV::Scroll { up, pane: Some(hit.target->pane_id) },
        ),
        None => state::asked(c, RequestV::Scroll { up, pane: None }),
    }
}

/// A mouse event handed to the program in the pane under it, in the pane's own cells.
pub open spec fn mouse_sent(c: ClientV, env: EnvV, mouse: MouseEvent) -> ClientV {
    match hit_under(c, env, mouse.column, mouse.row) {
        Some(hit) => {
            let inner = geometry::content_of(hit.rect, c.ui.hide_borders);
            let bytes = vstd::utf8::encode_utf8(
                keys::mouse_text(
                    MouseEvent {
                        column: (mouse.column - inner.x) as u16,
                        row: (mouse.row - inner.y) as u16,
                        ..mouse
                    },
                ),
            );
            if selection::cell_in(inner, mouse.column as int, mouse.row as int) && bytes.len() > 0 {
                state::asked(c, RequestV::Input(bytes))
            } else {
                c
            }
        },
        None => c,
    }
}

/// A line made the selected one.
pub open spec fn nav_at(nav: NavV, entries: Seq<EntryV>, index: int) -> NavV {
    let line = navigation::on_a_line(entries, index) as usize;
    NavV { selected: line, id: navigation::id_at(entries, line as int), ..nav }
}

/// The deepest active line made the selected one.
pub open spec fn nav_to_active(nav: NavV, entries: Seq<EntryV>) -> NavV {
    match navigation::active_line(entries, entries.len() as int) {
        Some(i) => NavV { selected: i as usize, id: Some(entries[i].id), ..nav },
        None => nav,
    }
}

/// Whether a line shows a pane of a workspace.
pub open spec fn shows_pane(e: EntryV, w: ConnectionV, pane: usize) -> bool {
    match e.id {
        NodeV::Pane { machine, workspace, pane_id, .. } => machine == w.machine && workspace
            == w.socket && pane_id == pane,
        _ => false,
    }
}

/// The first line, from `from` on, that shows a pane of a workspace.
pub open spec fn pane_line(entries: Seq<EntryV>, w: ConnectionV, pane: usize, from: int) -> Option<
    int,
>
    decreases entries.len() - from,
{
    if from < 0 || from >= entries.len() {
        None
    } else if shows_pane(entries[from], w, pane) {
        Some(from)
    } else {
        pane_line(entries, w, pane, from + 1)
    }
}

/// The current pane: the one kept in mind, else the active one of the frame.
pub open spec fn current_pane(c: ClientV, env: EnvV) -> Option<usize> {
    match state::active_ws(c).focus {
        Some(p) => Some(p),
        None => match env.frame {
            Some(f) => frame::active_id(f.layout),
            None => None,
        },
    }
}

/// The selection in the tree on the current pane, or on the deepest active line.
pub open spec fn nav_synced(c: ClientV, env: EnvV) -> ClientV {
    let found = match current_pane(c, env) {
        Some(p) => pane_line(c.entries, state::active_ws(c), p, 0),
        None => None,
    };
    ClientV {
        nav: match found {
            Some(i) => nav_at(c.nav, c.entries, i),
            None => nav_to_active(c.nav, c.entries),
        },
        ..c
    }
}

/// The first workspace, from `from` on, with a socket.
pub open spec fn socket_at(list: Seq<ConnectionV>, socket: Seq<char>, from: int) -> Option<int>
    decreases list.len() - from,
{
    if from < 0 || from >= list.len() {
        None
    } else if list[from].socket == socket {
        Some(from)
    } else {
        socket_at(list, socket, from + 1)
    }
}

/// The first workspace, from `from` on, of a machine.
pub open spec fn machine_ws(list: Seq<ConnectionV>, machine: Seq<char>, from: int) -> Option<int>
    decreases list.len() - from,
{
    if from < 0 || from >= list.len() {
        None
    } else if list[from].machine == machine {
        Some(from)
    } else {
        machine_ws(list, machine, from + 1)
    }
}

pub open spec fn made_active(c: ClientV, index: int) -> ClientV {
    ClientV { ws: ManagerV { active: index as usize, ..c.ws }, ..c }
}

/// The command that goes to a node inside its workspace; none for the workspace itself.
pub open spec fn switch_command(id: NodeV) -> Option<Seq<char>> {
    match id {
        NodeV::Session { name, .. } => Some("switch-client -t "@ + commands::quoted(name)),
        NodeV::Window { session, index, .. } => Some(
            "switch-client -t "@ + commands::quoted(session) + "; select-window -t "@ + text::decimal(
                index as nat,
            ),
        ),
        NodeV::Pane { session, window, pane_id, .. } => Some(
            "switch-client -t "@ + commands::quoted(session) + "; select-window -t "@ + text::decimal(
                window as nat,
            ) + "; select-pane -t %"@ + text::decimal(pane_id as nat),
        ),
        _ => None,
    }
}

/// A node's workspace made the active one, and the node the current one in it. None where the
/// workspace is not there.
pub open spec fn activated(c: ClientV, id: NodeV, env: EnvV) -> Option<ClientV> {
    match id.workspace() {
        None => None,
        Some(socket) => match socket_at(c.ws.list, socket, 0) {
            None => None,
            Some(i) => {
                let there = state::asked(
                    made_active(c, i),
                    RequestV::Resize(state::server_size(env, c.ws.sidebar)),
                );
                let sent = match switch_command(id) {
                    Some(command) => state::asked(there, RequestV::Command(command)),
                    None => there,
                };
                Some(state::tree_stale(state::unfocused(sent), env.now))
            },
        },
    }
}

fn switch_text(id: &NavigationNodeId) -> (r: Option<String>)
    ensures
        commands::opt_text(r) == switch_command(id@),
{
    match id {
        NavigationNodeId::Session { name, .. } => {
            let mut out = "switch-client -t ".to_string();
            out.append(commands::shell_quote(name.as_str()).as_str());
            Some(out)
        },
        NavigationNodeId::Window { session, index, .. } => {
            let mut out = "switch-client -t ".to_string();
            out.append(commands::shell_quote(session.as_str()).as_str());
            out.append("; select-window -t ");
            text::push_decimal(&mut out, *index as u64);
            Some(out)
        },
        NavigationNodeId::Pane { session, window, pane_id, .. } => {
            let mut out = "switch-client -t ".to_string();
            out.append(commands::shell_quote(session.as_str()).as_str());
            out.append("; select-window -t ");
            text::push_decimal(&mut out, *window as u64);
            out.append("; select-pane -t %");
            text::push_decimal(&mut out, *pane_id as u64);
            Some(out)
        },
        _ => None,
    }
}

/// The workspace that a node is in.
fn workspace_of(id: &NavigationNodeId) -> (r: Option<&String>)
    ensures
        (match r {
            Some(s) => Some(s@),
            None => None,
        }) == id@.workspace(),
{
    match id {
        NavigationNodeId::Machine(_) => None,
        NavigationNodeId::Workspace { workspace, .. } => Some(workspace),
        NavigationNodeId::Session { workspace, .. } => Some(workspace),
        NavigationNodeId::Window { workspace, .. } => Some(workspace),
        NavigationNodeId::Pane { workspace, .. } => Some(workspace),
    }
}

impl WorkspaceManager {
    /// Where the workspace with a socket stands.
    pub fn socket_index(&self, socket: &str) -> (r: Option<usize>)
        ensures
            (match r {
                Some(i) => Some(i as int),
                None => None,
            }) == socket_at(self@.list, socket@, 0),
            r matches Some(i) ==> i < self.workspaces@.len(),
    {
        let ghost all = self@.list;
        let mut i: usize = 0;
        while i < self.workspaces.len()
            invariant
                i <= self.workspaces@.len(),
                all == state::connection_views(self.workspaces@),
                socket_at(all, socket@, i as int) == socket_at(all, socket@, 0),
            decreases self.workspaces@.len() - i,
        {
            proof {
                assert(all[i as int] == self.workspaces@[i as int]@);
            }
            if text::same_text(self.workspaces[i].socket_name.as_str(), socket) {
                return Some(i);
            }
            i = i + 1;
        }
        None
    }

    /// Where the first workspace of a machine stands.
    pub fn machine_index(&self, machine: &str) -> (r: Option<usize>)
        ensures
            (match r {
                Some(i) => Some(i as int),
                None => None,
            }) == machine_ws(self@.list, machine@, 0),
            r matches Some(i) ==> i < self.workspaces@.len(),
    {
        let ghost all = self@.list;
        let mut i: usize = 0;
        while i < self.workspaces.len()
            invariant
                i <= self.workspaces@.len(),
                all == state::connection_views(self.workspaces@),
                machine_ws(all, machine@, i as int) == machine_ws(all, machine@, 0),
            decreases self.workspaces@.len() - i,
        {
            proof {
                assert(all[i as int] == self.workspaces@[i as int]@);
            }
            if text::same_text(self.workspaces[i].machine_id.as_str(), machine) {
                return Some(i);
            }
            i = i + 1;
        }
        None
    }

    /// Makes the workspace with a socket the active one, if it is there.
    pub fn select_socket(&mut self, socket_name: &str) -> (r: bool)
        ensures
            match socket_at(old(self)@.list, socket_name@, 0) {
                Some(i) => r && final(self)@ == (ManagerV { active: i as usize, ..old(self)@ }) && 0
                    <= i < old(self)@.list.len(),
                None => !r && final(self)@ == old(self)@,
            },
    {
        match self.socket_index(socket_name) {
            Some(i) => {
                self.active = i;
                true
            },
            None => false,
        }
    }
}

impl Client {
    fn composed_hits(&self, env: Env) -> (r: Vec<VisualHit>)
        ensures
            r@ == screen_hits(self@, env@),
    {
        match env.frame {
            Some(fd) => visual::collect_visual_hits(
                &fd.layout,
                geometry::server_layout_area(env.cols, env.rows, self.workspaces.sidebar_visible),
                self.ui.hide_borders,
            ),
            None => Vec::new(),
        }
    }

    fn current_visual_target(&self, hits: &Vec<VisualHit>) -> (r: Option<VisualTarget>)
        requires
            self@.wf(),
        ensures
            r == visual::current_of(kept_target(self@), hits@),
    {
        let i: usize = self.workspaces.active;
        proof {
            assert(self@.ws.list[i as int] == self.workspaces.workspaces@[i as int]@);
        }
        match self.workspaces.workspaces[i].focus {
            Some(pane_id) => {
                let stored = VisualTarget::Local { pane_id };
                visual::current_from_hits(Some(&stored), hits.as_slice())
            },
            None => visual::current_from_hits(None, hits.as_slice()),
        }
    }

    fn apply_visual_target(&mut self, target: VisualTarget)
        requires
            old(self)@.wf(),
        ensures
            final(self)@ == moved_to(old(self)@, target),
            final(self)@.wf(),
            final(self).entries == old(self).entries,
    {
        let VisualTarget::Local { pane_id } = target;
        let mut command = "select-pane -t %".to_string();
        text::push_decimal(&mut command, pane_id as u64);
        self.ask(Request::Command(command));
        self.set_focus(pane_id);
    }

    /// Moves to the neighbouring pane; whether there was one.
    pub fn visual_move(&mut self, dir: NavDir, env: Env) -> (r: bool)
        requires
            old(self)@.wf(),
        ensures
            match pane_moved(old(self)@, dir, env@) {
                Some(c) => r && final(self)@ == c,
                None => !r && final(self)@ == old(self)@,
            },
            final(self)@.wf(),
            final(self).entries == old(self).entries,
    {
        let hits = self.composed_hits(env);
        match self.current_visual_target(&hits) {
            None => false,
            Some(current) => match visual::neighbor_in_dir(hits.as_slice(), &current, dir) {
                Some(next) => {
                    self.apply_visual_target(next);
                    true
                },
                None => false,
            },
        }
    }

    /// Makes the pane at a cell the current one; whether that changed anything.
    pub fn focus_at(&mut self, col: u16, row: u16, env: Env) -> (r: bool)
        requires
            old(self)@.wf(),
        ensures
            match focused_at(old(self)@, env@, col, row) {
                Some(c) => r && final(self)@ == c,
                None => !r && final(self)@ == old(self)@,
            },
            final(self)@.wf(),
            final(self).entries == old(self).entries,
    {
        let hits = self.composed_hits(env);
        match visual::hit_at(hits.as_slice(), col, row) {
            None => false,
            Some(hit) => {
                let target: VisualTarget = hit.target;
                let is_current: bool = match self.current_visual_target(&hits) {
                    Some(t) => t == target,
                    None => false,
                };
                if is_current {
                    return false;
                }
                self.apply_visual_target(target);
                true
            },
        }
    }

    /// Scrolls the pane under the mouse.
    pub fn scroll_at(&mut self, mouse: MouseEvent, up: bool, env: Env)
        requires
            old(self)@.wf(),
        ensures
            final(self)@ == wheel_turned(old(self)@, env@, mouse, up),
            final(self)@.wf(),
            final(self).entries == old(self).entries,
    {
        let hits = self.composed_hits(env);
        match visual::hit_at(hits.as_slice(), mouse.column, mouse.row) {
            Some(hit) => {
                let target: VisualTarget = hit.target;
                let VisualTarget::Local { pane_id } = target;
                self.apply_visual_target(target);
                self.ask(Request::Scroll { up, pane: Some(pane_id) });
            },
            None => {
                self.ask(Request::Scroll { up, pane: None });
            },
        }
    }

    /// Hands a mouse event to the program in the pane under it.
    pub fn send_mouse_at(&mut self, mouse: MouseEvent, env: Env)
        requires
            old(self)@.wf(),
        ensures
            final(self)@ == mouse_sent(old(self)@, env@, mouse),
            final(self)@.wf(),
            final(self).entries == old(self).entries,
    {
        let hits = self.composed_hits(env);
        if let Some(hit) = visual::hit_at(hits.as_slice(), mouse.column, mouse.row) {
            let inner = geometry::content_rect(hit.rect, self.ui.hide_borders);
            if !selection::is_cell_in(inner, mouse.column, mouse.row) {
                return ;
            }
            let mut mapped = mouse;
            mapped.column = mouse.column - inner.x;
            mapped.row = mouse.row - inner.y;
            let bytes = keys::mouse_to_bytes(mapped);
            if bytes.len() > 0 {
                self.ask(Request::Input(bytes));
            }
        }
    }

    /// Selects the current pane in the tree.
    pub fn sync_navigation_to_active(&mut self, env: Env)
        requires
            old(self)@.wf(),
        ensures
            final(self)@ == nav_synced(old(self)@, env@),
            final(self)@.wf(),
            final(self).entries == old(self).entries,
    {
        let at: usize = self.workspaces.active;
        let w = &self.workspaces.workspaces[at];
        let ghost place = state::active_ws(self@);
        proof {
            assert(place == w@);
        }
        let pane: Option<usize> = match w.focus {
            Some(p) => Some(p),
            None => match env.frame {
                Some(fd) => frame::active_pane_id(&fd.layout),
                None => None,
            },
        };
        let ghost lines = navigation::entry_views(self.entries@);
        let mut found: Option<usize> = None;
        if let Some(p) = pane {
            let mut i: usize = 0;
            while i < self.entries.len() && found.is_none()
                invariant
                    *self == *old(self),
                    w == &self.workspaces.workspaces@[at as int],
                    place == w@,
                    lines == navigation::entry_views(self.entries@),
                    i <= self.entries@.len(),
                    match found {
                        Some(k) => k < lines.len() && pane_line(lines, place, p, 0) == Some(
                            k as int,
                        ),
                        None => pane_line(lines, place, p, i as int) == pane_line(
                            lines,
                            place,
                            p,
                            0,
                        ),
                    },
                decreases self.entries@.len() - i, (if found is None { 1int } else { 0int }),
            {
                proof {
                    assert(lines[i as int] == self.entries@[i as int]@);
                }
                let here: bool = match &self.entries[i].id {
                    NavigationNodeId::Pane { machine, workspace, pane_id, .. } => *pane_id == p
                        && text::same_text(machine.as_str(), w.machine_id.as_str()) && text::same_text(
                        workspace.as_str(),
                        w.socket_name.as_str(),
                    ),
                    _ => false,
                };
                if here {
                    found = Some(i);
                } else {
                    i = i + 1;
                }
            }
        }
        match found {
            Some(i) => self.navigation.select_index(self.entries.as_slice(), i),
            None => self.navigation.sync_to_active(self.entries.as_slice()),
        }
    }

    /// Goes to a node; whether its workspace is there.
    pub fn activate_navigation_entry(&mut self, id: &NavigationNodeId, env: Env) -> (r: bool)
        requires
            old(self)@.wf(),
        ensures
            match activated(old(self)@, id@, env@) {
                Some(c) => r && final(self)@ == c,
                None => !r && final(self)@ == old(self)@,
            },
            final(self)@.wf(),
            final(self).entries == old(self).entries,
    {
        let command = switch_text(id);
        match workspace_of(id) {
            None => false,
            Some(socket) => {
                if !self.workspaces.select_socket(socket.as_str()) {
                    return false;
                }
                let size = geometry::server_content_size(
                    env.cols,
                    env.rows,
                    self.workspaces.sidebar_visible,
                );
                self.ask(Request::Resize(size));
                if let Some(text) = command {
                    self.ask(Request::Command(text));
                }
                self.invalidate_visual_pane();
                self.invalidate_active_navigation_tree(env.now);
                true
            },
        }
    }
}

} // verus!
