//! What the navigation tree shows, and how a server tells its part of it.

use crate::client::tree;
use crate::json;
use crate::navigation;
use crate::session_tree;
use crate::text;
use crate::text_laws;
use crate::json::ScalarV;
use crate::navigation::{EntryV, MachineV, NavigationNodeKind, NodeV, WorkspaceV};
use crate::session_tree::TreeV;
use vstd::prelude::*;

verus! {

/// Whether a line shows a node of a workspace's tree: a session two deep, a window three and a pane
/// four, each under its own name; a pane without a title is called by its number. It is active
/// where both it and its workspace are.
pub open spec fn shows_node(e: EntryV, machine: Seq<char>, ws: WorkspaceV, node: TreeV) -> bool {
    match node {
        TreeV::Session { name, is_active, .. } => {
            &&& e.id == NodeV::Session { machine, workspace: ws.socket_name, name }
            &&& e.kind == NavigationNodeKind::Session
            &&& e.depth == 2
            &&& e.label == name
            &&& e.active == (ws.active && is_active)
            &&& e.expandable && e.expanded
        },
        TreeV::Window { session_name, index, name, is_active, .. } => {
            &&& e.id == NodeV::Window {
                machine,
                workspace: ws.socket_name,
                session: session_name,
                index,
            }
            &&& e.kind == NavigationNodeKind::Window
            &&& e.depth == 3
            &&& e.label == name
            &&& e.active == (ws.active && is_active)
            &&& e.expandable && e.expanded
        },
        TreeV::Pane { session_name, window_index, pane_id, index, title, is_active } => {
            &&& e.id == NodeV::Pane {
                machine,
                workspace: ws.socket_name,
                session: session_name,
                window: window_index,
                pane_id,
            }
            &&& e.kind == NavigationNodeKind::Pane
            &&& e.depth == 4
            &&& text_laws::blank(title) ==> e.label == "pane "@ + text::decimal(index as nat)
            &&& !text_laws::blank(title) ==> e.label == title
            &&& e.active == (ws.active && is_active)
            &&& !e.expandable
        },
    }
}

proof fn lemma_nodes_shown(machine: Seq<char>, ws: WorkspaceV, n: int)
    requires
        0 <= n <= ws.tree.len(),
    ensures
        ({
            let lines = navigation::tree_lines(machine, ws, Set::empty(), 2, n);
            &&& lines.len() == n
            &&& forall|k: int| 0 <= k < n ==> shows_node(#[trigger] lines[k], machine, ws, ws.tree[k])
        }),
    decreases n,
{
    if n > 0 {
        lemma_nodes_shown(machine, ws, n - 1);
        let before = navigation::tree_lines(machine, ws, Set::empty(), 2, n - 1);
        let node = ws.tree[n - 1];
        let line = navigation::node_line(machine, ws, node, Set::empty(), 2);
        if node is Pane {
            text_laws::law_blank_texts_are_cut_to_nothing(node->title);
        }
        assert(line is Some);
        let lines = navigation::tree_lines(machine, ws, Set::empty(), 2, n);
        assert(lines =~= before.push(line->0));
        assert forall|k: int| 0 <= k < n implies shows_node(
            #[trigger] lines[k],
            machine,
            ws,
            ws.tree[k],
        ) by {
            if k < n - 1 {
                assert(lines[k] == before[k]);
            }
        }
    }
}

/// With nothing folded a workspace has a line of its own, one deep, under its title or, without
/// one, its socket's name, and then a line for every session, window and pane that its server told,
/// in the order that it told them.
pub proof fn law_unfolded_workspace_shows_everything(machine: Seq<char>, ws: WorkspaceV)
    ensures
        ({
            let lines = navigation::workspace_lines(machine, ws, Set::empty(), 1);
            &&& lines.len() == 1 + ws.tree.len()
            &&& lines[0].id == NodeV::Workspace { machine, workspace: ws.socket_name }
            &&& lines[0].kind == NavigationNodeKind::Workspace
            &&& lines[0].depth == 1
            &&& lines[0].active == ws.active
            &&& text_laws::blank(ws.title) ==> lines[0].label == ws.socket_name
            &&& !text_laws::blank(ws.title) ==> lines[0].label == ws.title
            &&& forall|k: int|
                0 <= k < ws.tree.len() ==> shows_node(
                    #[trigger] lines[k + 1],
                    machine,
                    ws,
                    ws.tree[k],
                )
        }),
{
    lemma_nodes_shown(machine, ws, ws.tree.len() as int);
    text_laws::law_blank_texts_are_cut_to_nothing(ws.title);
    let lines = navigation::workspace_lines(machine, ws, Set::empty(), 1);
    let rest = navigation::tree_lines(machine, ws, Set::empty(), 2, ws.tree.len() as int);
    assert forall|k: int| 0 <= k < ws.tree.len() implies shows_node(
        #[trigger] lines[k + 1],
        machine,
        ws,
        ws.tree[k],
    ) by {
        assert(lines[k + 1] == rest[k]);
    }
}

/// The tree begins with the local machine, outermost and under its name; it is active unless a
/// remote one is.
pub proof fn law_local_machine_comes_first(
    id: Seq<char>,
    name: Seq<char>,
    workspaces: Seq<WorkspaceV>,
    remotes: Seq<MachineV>,
    folded: Set<NodeV>,
)
    ensures
        ({
            let lines = navigation::navigation_lines(id, name, workspaces, remotes, folded);
            &&& lines.len() > 0
            &&& lines[0].id == NodeV::Machine(id)
            &&& lines[0].kind == NavigationNodeKind::Machine
            &&& lines[0].depth == 0
            &&& lines[0].label == name
            &&& lines[0].active <==> forall|i: int|
                0 <= i < remotes.len() ==> !(#[trigger] remotes[i]).active
            &&& lines[0].expandable == (workspaces.len() > 0)
            &&& lines[0].expanded == !folded.contains(NodeV::Machine(id))
        }),
{
}

/// The fold mark of a line stands in the two columns behind its indentation of two columns for
/// each node above it, one column in.
pub proof fn law_fold_marks(e: EntryV, x: u16, column: u16)
    requires
        x + 3 + 2 * e.depth <= 65535,
    ensures
        navigation::on_mark(e, x, column) <==> e.expandable && (column == x + 1 + 2 * e.depth || column == x + 2
            + 2 * e.depth),
        navigation::viewport(6) == (0u16, 6u16),
        x >= 7 ==> navigation::viewport(x) == (0u16, (x - 2) as u16),
        x < 7 ==> navigation::viewport(x) == (0u16, x),
{
}

proof fn lemma_literals_differ()
    ensures
        "type"@ != "name"@,
        "type"@ != "window_count"@,
        "type"@ != "is_active"@,
        "type"@ != "session_name"@,
        "type"@ != "index"@,
        "type"@ != "pane_count"@,
        "type"@ != "window_index"@,
        "type"@ != "pane_id"@,
        "type"@ != "title"@,
        "name"@ != "window_count"@,
        "name"@ != "is_active"@,
        "window_count"@ != "is_active"@,
        "session_name"@ != "index"@,
        "session_name"@ != "name"@,
        "session_name"@ != "pane_count"@,
        "session_name"@ != "is_active"@,
        "session_name"@ != "window_index"@,
        "session_name"@ != "pane_id"@,
        "session_name"@ != "title"@,
        "index"@ != "name"@,
        "index"@ != "pane_count"@,
        "index"@ != "is_active"@,
        "index"@ != "title"@,
        "name"@ != "pane_count"@,
        "pane_count"@ != "is_active"@,
        "window_index"@ != "pane_id"@,
        "window_index"@ != "index"@,
        "window_index"@ != "is_active"@,
        "window_index"@ != "title"@,
        "pane_id"@ != "index"@,
        "pane_id"@ != "is_active"@,
        "pane_id"@ != "title"@,
        "title"@ != "is_active"@,
        "session"@ != "window"@,
        "session"@ != "pane"@,
        "window"@ != "pane"@,
{
    reveal_strlit("type");
    reveal_strlit("name");
    reveal_strlit("window_count");
    reveal_strlit("is_active");
    reveal_strlit("session_name");
    reveal_strlit("index");
    reveal_strlit("pane_count");
    reveal_strlit("window_index");
    reveal_strlit("pane_id");
    reveal_strlit("title");
    reveal_strlit("session");
    reveal_strlit("window");
    reveal_strlit("pane");
    assert("type"@[0] == 't' && "name"@[0] == 'n');
    assert("index"@[0] == 'i' && "title"@[0] == 't');
    assert("type"@.len() == 4 && "title"@.len() == 5);
    assert("index"@.len() == 5 && "is_active"@.len() == 9);
    assert("window_index"@.len() == 12 && "window_count"@.len() == 12 && "session_name"@.len()
        == 12 && "pane_id"@.len() == 7 && "pane_count"@.len() == 10 && "name"@.len() == 4);
    assert("session"@.len() == 7 && "window"@.len() == 6 && "pane"@.len() == 4);
    assert("window_count"@[0] == 'w' && "session_name"@[0] == 's' && "window_index"@[7] == 'i'
        && "window_count"@[7] == 'c');
}

/// A session is told by its name, the number of its windows and whether it is active.
pub proof fn law_sessions_are_told(name: Seq<char>, windows: u64, active: bool)
    requires
        windows <= usize::MAX,
    ensures
        session_tree::told_line(
            seq![
                ("type"@, ScalarV::Text("session"@)),
                ("name"@, ScalarV::Text(name)),
                ("window_count"@, ScalarV::Number(windows)),
                ("is_active"@, ScalarV::Flag(active)),
            ],
        ) == Some(
            TreeV::Session { name, window_count: windows as usize, is_active: active },
        ),
{
    lemma_literals_differ();
    reveal_with_fuel(json::member, 5);
}

/// A window is told by its session, its place, its name, the number of its panes and whether it is
/// active.
pub proof fn law_windows_are_told(
    session: Seq<char>,
    index: u64,
    name: Seq<char>,
    panes: u64,
    active: bool,
)
    requires
        index <= usize::MAX,
        panes <= usize::MAX,
    ensures
        session_tree::told_line(
            seq![
                ("type"@, ScalarV::Text("window"@)),
                ("session_name"@, ScalarV::Text(session)),
                ("index"@, ScalarV::Number(index)),
                ("name"@, ScalarV::Text(name)),
                ("pane_count"@, ScalarV::Number(panes)),
                ("is_active"@, ScalarV::Flag(active)),
            ],
        ) == Some(
            TreeV::Window {
                session_name: session,
                index: index as usize,
                name,
                pane_count: panes as usize,
                is_active: active,
            },
        ),
{
    lemma_literals_differ();
    reveal_with_fuel(json::member, 7);
}

/// A pane is told by its session, its window, its identity, its place, its title and whether it is
/// active.
pub proof fn law_panes_are_told(
    session: Seq<char>,
    window: u64,
    id: u64,
    index: u64,
    title: Seq<char>,
    active: bool,
)
    requires
        window <= usize::MAX,
        id <= usize::MAX,
        index <= usize::MAX,
    ensures
        session_tree::told_line(
            seq![
                ("type"@, ScalarV::Text("pane"@)),
                ("session_name"@, ScalarV::Text(session)),
                ("window_index"@, ScalarV::Number(window)),
                ("pane_id"@, ScalarV::Number(id)),
                ("index"@, ScalarV::Number(index)),
                ("title"@, ScalarV::Text(title)),
                ("is_active"@, ScalarV::Flag(active)),
            ],
        ) == Some(
            TreeV::Pane {
                session_name: session,
                window_index: window as usize,
                pane_id: id as usize,
                index: index as usize,
                title,
                is_active: active,
            },
        ),
{
    lemma_literals_differ();
    reveal_with_fuel(json::member, 8);
}

proof fn lemma_some(entries: Seq<EntryV>, pred: spec_fn(NodeV) -> bool, n: int)
    requires
        0 <= n <= entries.len(),
    ensures
        tree::lines_with(entries, pred, n) >= 1 <==> exists|i: int|
            0 <= i < n && pred((#[trigger] entries[i]).id),
    decreases n,
{
    if n > 0 {
        lemma_some(entries, pred, n - 1);
        if pred(entries[n - 1].id) {
            assert(pred(entries[n - 1].id));
        }
    }
}

proof fn lemma_several(entries: Seq<EntryV>, pred: spec_fn(NodeV) -> bool, n: int)
    requires
        0 <= n <= entries.len(),
    ensures
        tree::lines_with(entries, pred, n) >= 2 <==> exists|i: int, j: int|
            0 <= i < j < n && pred((#[trigger] entries[i]).id) && pred((#[trigger] entries[j]).id),
    decreases n,
{
    if n > 0 {
        lemma_several(entries, pred, n - 1);
        lemma_some(entries, pred, n - 1);
        if tree::lines_with(entries, pred, n) >= 2 {
            if tree::lines_with(entries, pred, n - 1) < 2 {
                let i = choose|i: int| 0 <= i < n - 1 && pred((#[trigger] entries[i]).id);
                assert(pred(entries[i].id) && pred(entries[n - 1].id));
            }
        }
        if exists|i: int, j: int|
            0 <= i < j < n && pred((#[trigger] entries[i]).id) && pred((#[trigger] entries[j]).id) {
            let (i, j) = choose|i: int, j: int|
                0 <= i < j < n && pred((#[trigger] entries[i]).id) && pred(
                    (#[trigger] entries[j]).id,
                );
            if j == n - 1 {
                assert(pred(entries[i].id));
            }
        }
    }
}

/// A session can be closed exactly where the tree shows another one of its workspace, a window
/// where it shows another one of its session, and a pane where it shows another one of its window
/// or another window of its session. A workspace can always be closed, and of the machines all but
/// the local one.
pub proof fn law_what_can_be_closed(entries: Seq<EntryV>, id: NodeV)
    ensures
        id is Workspace ==> tree::close_block(entries, id) is None,
        id matches NodeV::Machine(m) ==> (tree::close_block(entries, id) is None <==> m != "local"@),
        id matches NodeV::Session { machine, workspace, .. } ==> (tree::close_block(entries, id) is None
            <==> exists|i: int, j: int|
            0 <= i < j < entries.len() && tree::session_of((#[trigger] entries[i]).id, machine, workspace)
                && tree::session_of((#[trigger] entries[j]).id, machine, workspace)),
        id matches NodeV::Window { machine, workspace, session, .. } ==> (tree::close_block(entries, id)
            is None <==> exists|i: int, j: int|
            0 <= i < j < entries.len() && tree::window_of(
                (#[trigger] entries[i]).id,
                machine,
                workspace,
                session,
            ) && tree::window_of((#[trigger] entries[j]).id, machine, workspace, session)),
        id matches NodeV::Pane { machine, workspace, session, window, .. } ==> (tree::close_block(
            entries,
            id,
        ) is None <==> ((exists|i: int, j: int|
            0 <= i < j < entries.len() && tree::pane_of(
                (#[trigger] entries[i]).id,
                machine,
                workspace,
                session,
                window,
            ) && tree::pane_of((#[trigger] entries[j]).id, machine, workspace, session, window)) || (
        exists|i: int, j: int|
            0 <= i < j < entries.len() && tree::window_of(
                (#[trigger] entries[i]).id,
                machine,
                workspace,
                session,
            ) && tree::window_of((#[trigger] entries[j]).id, machine, workspace, session)))),
{
    let n = entries.len() as int;
    match id {
        NodeV::Session { machine, workspace, .. } => {
            lemma_several(entries, |x: NodeV| tree::session_of(x, machine, workspace), n);
        },
        NodeV::Window { machine, workspace, session, .. } => {
            lemma_several(entries, |x: NodeV| tree::window_of(x, machine, workspace, session), n);
        },
        NodeV::Pane { machine, workspace, session, window, .. } => {
            lemma_several(entries, |x: NodeV| tree::window_of(x, machine, workspace, session), n);
            lemma_several(entries, |x: NodeV| tree::pane_of(x, machine, workspace, session, window), n);
        },
        _ => {},
    }
}

} // verus!
