//! What machines and workspaces are called, and which of them the tree shows.

use crate::client::launch;
use crate::client::lines;
use crate::machines;
use crate::navigation;
use crate::text;
use crate::text_laws;
use crate::client::remotes::RemoteV;
use crate::client::state::{ManagerV, NavV};
use crate::machines::MachineNames;
use crate::navigation::{EntryV, NodeV, WorkspaceV};
use vstd::prelude::*;

verus! {

/// The local machine goes by the name that its environment gives, or else by what it prints of
/// itself without the white space around it, or else by `local`.
pub proof fn law_local_name(set: Seq<char>, printed: Seq<char>)
    ensures
        !text_laws::blank(set) ==> launch::local_name(Some(set), Some(printed)) == set,
        !text_laws::blank(set) ==> launch::local_name(Some(set), None) == set,
        text_laws::blank(set) ==> launch::local_name(Some(set), Some(printed)) == launch::local_name(
            None,
            Some(printed),
        ),
        !text_laws::blank(printed) ==> launch::local_name(None, Some(printed)) == text::trimmed(printed),
        text_laws::blank(printed) ==> launch::local_name(None, Some(printed)) == "local"@,
        launch::local_name(None, None) == "local"@,
{
    text_laws::law_blank_texts_are_cut_to_nothing(set);
    text_laws::law_blank_texts_are_cut_to_nothing(printed);
}

/// Two texts are ordered by the first character in which they differ, and one that the other begins
/// with comes first.
pub proof fn law_first_difference_decides(
    common: Seq<char>,
    x: char,
    a: Seq<char>,
    y: char,
    b: Seq<char>,
)
    requires
        x != y,
    ensures
        launch::text_before(common + (seq![x] + a), common + (seq![y] + b)) <==> (x as int) < (y as int),
        launch::text_before(common, common + (seq![y] + b)),
        !launch::text_before(common + (seq![x] + a), common),
    decreases common.len(),
{
    let l = common + (seq![x] + a);
    let r = common + (seq![y] + b);
    if common.len() > 0 {
        law_first_difference_decides(common.skip(1), x, a, y, b);
        assert(l.skip(1) =~= common.skip(1) + (seq![x] + a));
        assert(r.skip(1) =~= common.skip(1) + (seq![y] + b));
        assert(l[0] == common[0] && r[0] == common[0]);
    } else {
        assert(l =~= seq![x] + a);
        assert(r =~= seq![y] + b);
        assert(l[0] == x && r[0] == y);
    }
}

/// The server that was named comes before all others, which come by their names.
pub proof fn law_named_server_comes_first(socket: Seq<char>, names: Seq<Seq<char>>, i: int)
    requires
        launch::in_server_order(socket, names),
        0 <= i < names.len(),
        names[i] == socket,
    ensures
        i == 0,
{
    if i > 0 {
        assert(launch::server_before(socket, names[0], names[i]));
    }
}

/// The tree shows a machine's workspaces, each with its server and its tree, and marks the active
/// one alone.
pub proof fn law_workspaces_are_shown(
    ws: ManagerV,
    machine: Seq<char>,
    title: Seq<char>,
    n: int,
    i: int,
)
    requires
        0 <= i < n <= ws.list.len(),
        ws.list[i].machine == machine,
    ensures
        exists|k: int|
            0 <= k < lines::workspaces_shown(ws, machine, title, n).len() && #[trigger] lines::workspaces_shown(
                ws,
                machine,
                title,
                n,
            )[k] == (WorkspaceV {
                socket_name: ws.list[i].socket,
                title,
                active: i == ws.active,
                tree: ws.list[i].tree,
            }),
    decreases n,
{
    let all = lines::workspaces_shown(ws, machine, title, n);
    let w = WorkspaceV {
        socket_name: ws.list[i].socket,
        title,
        active: i == ws.active,
        tree: ws.list[i].tree,
    };
    if i == n - 1 {
        assert(all[all.len() - 1] == w);
    } else {
        law_workspaces_are_shown(ws, machine, title, n - 1, i);
        let before = lines::workspaces_shown(ws, machine, title, n - 1);
        let k = choose|k: int| 0 <= k < before.len() && #[trigger] before[k] == w;
        assert(all[k] == w);
    }
}

/// Every workspace that the tree shows for a machine is one on that machine.
pub proof fn law_only_its_workspaces_are_shown(
    ws: ManagerV,
    machine: Seq<char>,
    title: Seq<char>,
    n: int,
    k: int,
) -> (i: int)
    requires
        0 <= n <= ws.list.len(),
        0 <= k < lines::workspaces_shown(ws, machine, title, n).len(),
    ensures
        0 <= i < n,
        ws.list[i].machine == machine,
        ws.list[i].socket == lines::workspaces_shown(ws, machine, title, n)[k].socket_name,
        ws.list[i].tree == lines::workspaces_shown(ws, machine, title, n)[k].tree,
        lines::workspaces_shown(ws, machine, title, n)[k].active <==> i == ws.active,
    decreases n,
{
    let before = lines::workspaces_shown(ws, machine, title, n - 1);
    if k < before.len() {
        law_only_its_workspaces_are_shown(ws, machine, title, n - 1, k)
    } else {
        n - 1
    }
}

/// A remote machine is shown under its host's name with the workspaces on it, and counts as active
/// exactly while the active workspace is on it.
pub proof fn law_machines_are_shown(ws: ManagerV, m: RemoteV)
    requires
        ws.active < ws.list.len(),
    ensures
        lines::machine_shown(ws, m).id == m.id,
        lines::machine_shown(ws, m).name == m.host,
        lines::machine_shown(ws, m).active <==> ws.list[ws.active as int].machine == m.id,
        lines::machine_shown(ws, m).workspaces == lines::workspaces_shown(
            ws,
            m.id,
            ws.base,
            ws.list.len() as int,
        ),
{
}

/// The name that the user gave is shown, for machines and for workspaces, and every other line
/// keeps its label.
pub proof fn law_given_names_are_shown(
    e: EntryV,
    machine: Seq<char>,
    workspace: Seq<char>,
    names: MachineNames,
)
    ensures
        e.id == NodeV::Machine(machine) && names.machine_names().contains_key(machine)
            ==> lines::named_line(e, names).label == names.machine_names()[machine],
        e.id == (NodeV::Workspace { machine, workspace }) && names.names_on(machine).contains_key(
            workspace,
        ) ==> lines::named_line(e, names).label == names.names_on(machine)[workspace],
        e.id == NodeV::Machine(machine) && !names.machine_names().contains_key(machine)
            ==> lines::named_line(e, names) == e,
        e.id == (NodeV::Workspace { machine, workspace }) && names.names_on(machine)
            == Map::<Seq<char>, Seq<char>>::empty() ==> lines::named_line(e, names) == e,
        e.id is Session || e.id is Window || e.id is Pane ==> lines::named_line(e, names) == e,
{
}

/// A name from earlier versions, kept under the workspace's address, counts on remote machines
/// only, and only where no newer one is kept.
pub proof fn law_earlier_names_count(
    machine: Seq<char>,
    workspace: Seq<char>,
    names: MachineNames,
)
    requires
        !names.names_on(machine).contains_key(workspace),
        names.names_on(machine).contains_key("ssh://"@ + machine + "/"@ + workspace),
    ensures
        machine != "local"@ ==> names.workspace_label(machine, workspace) == Some(
            names.names_on(machine)["ssh://"@ + machine + "/"@ + workspace],
        ),
        machine == "local"@ ==> names.workspace_label(machine, workspace) is None,
{
}

/// What is selected stays so when the lines are made anew, wherever its line is then; where it is
/// gone, the selection stays on a line as near as can be.
pub proof fn law_selection_stays_on_its_node(nav: NavV, entries: Seq<EntryV>, id: NodeV, i: int)
    requires
        nav.id == Some(id),
        0 <= i < entries.len() <= usize::MAX,
        entries[i].id == id,
    ensures
        lines::nav_clamped(nav, entries).selected < entries.len(),
        entries[lines::nav_clamped(nav, entries).selected as int].id == id,
        lines::nav_clamped(nav, entries).id == Some(id),
        lines::nav_clamped(nav, entries).folded == nav.folded,
{
    lemma_found(entries, id, 0, i);
}

proof fn lemma_found(entries: Seq<EntryV>, id: NodeV, from: int, i: int)
    requires
        0 <= from <= i < entries.len(),
        entries[i].id == id,
    ensures
        navigation::line_of(entries, id, from) matches Some(k) && from <= k <= i && entries[k].id == id,
    decreases entries.len() - from,
{
    if entries[from].id != id {
        lemma_found(entries, id, from + 1, i);
    }
}

/// A name is accepted where it shows something and holds no control character once the white space
/// around it is gone; a destination of SSH must besides not look like an option, and hold none at
/// all.
pub proof fn law_accepted_names(s: Seq<char>)
    ensures
        text_laws::blank(s) ==> !machines::name_ok(s) && !machines::destination_ok(s),
        s.len() > 0 && s[0] == '-' ==> !machines::destination_ok(s),
        (exists|k: int| 0 <= k < s.len() && (#[trigger] s[k] as u32) < 0x20) ==> !machines::destination_ok(s),
        (forall|k: int|
            0 <= k < s.len() ==> 0x21 <= (#[trigger] s[k] as u32) && (s[k] as u32) < 0x7f)
            && s.len() > 0 ==> machines::name_ok(s) && (s[0] != '-' ==> machines::destination_ok(s)),
{
    text_laws::law_blank_texts_are_cut_to_nothing(s);
    if exists|k: int| 0 <= k < s.len() && (#[trigger] s[k] as u32) < 0x20 {
        let k = choose|k: int| 0 <= k < s.len() && (#[trigger] s[k] as u32) < 0x20;
        assert(text::control(s[k]));
    }
    if s.len() > 0 && (forall|k: int|
        0 <= k < s.len() ==> 0x21 <= (#[trigger] s[k] as u32) && (s[k] as u32) < 0x7f) {
        assert(0x21 <= (s[0] as u32));
        assert(!text::white_space(s[0]));
        let last = s.len() - 1;
        assert(0x21 <= (s[last] as u32));
        assert(!text::white_space(s.last()));
        assert(text::trimmed(s) == s);
    }
}

} // verus!
