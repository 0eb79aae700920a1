//! Folding a node of the navigation tree takes away what is below it, and nothing else.

use crate::navigation;
use crate::navigation::{EntryV, MachineV, NodeV, WorkspaceV};
use crate::session_tree::TreeV;
use vstd::prelude::*;

verus! {

/// The first line from `from` on that is not deeper than `depth`, or the end.
pub open spec fn run_behind(lines: Seq<EntryV>, depth: u16, from: int) -> int
    decreases lines.len() - from,
{
    if from >= lines.len() {
        lines.len() as int
    } else if lines[from].depth <= depth {
        from
    } else {
        run_behind(lines, depth, from + 1)
    }
}

/// Lines with line `k` folded: it is shown as folded, and the run of deeper lines right behind it
/// is gone.
pub open spec fn folded_at(lines: Seq<EntryV>, k: int) -> Seq<EntryV> {
    lines.take(k).push(EntryV { expanded: false, ..lines[k] }) + lines.skip(
        run_behind(lines, lines[k].depth, k + 1),
    )
}

/// The session that the node behind the first `n` belongs to, if it is a window or a pane.
pub open spec fn last_session(tree: Seq<TreeV>, n: int) -> Option<Seq<char>>
    decreases n,
{
    if n <= 0 {
        None
    } else {
        match tree[n - 1] {
            TreeV::Session { name, .. } => Some(name),
            _ => last_session(tree, n - 1),
        }
    }
}

/// The window that the node behind the first `n` belongs to, if it is a pane.
pub open spec fn last_window(tree: Seq<TreeV>, n: int) -> Option<usize>
    decreases n,
{
    if n <= 0 {
        None
    } else {
        match tree[n - 1] {
            TreeV::Session { .. } => None,
            TreeV::Window { index, .. } => Some(index),
            TreeV::Pane { .. } => last_window(tree, n - 1),
        }
    }
}

/// Whether a tree lists each session, behind it its windows, and behind each of these its panes,
/// and no session or window twice.
pub open spec fn orderly(tree: Seq<TreeV>) -> bool {
    &&& forall|i: int|
        0 <= i < tree.len() ==> match #[trigger] tree[i] {
            TreeV::Session { .. } => true,
            TreeV::Window { session_name, .. } => last_session(tree, i) == Some(session_name),
            TreeV::Pane { session_name, window_index, .. } => last_session(tree, i) == Some(
                session_name,
            ) && last_window(tree, i) == Some(window_index),
        }
    &&& forall|i: int, j: int|
        #![trigger tree[i], tree[j]]
        0 <= i < j < tree.len() ==> match (tree[i], tree[j]) {
            (TreeV::Session { name: a, .. }, TreeV::Session { name: b, .. }) => a != b,
            (
                TreeV::Window { session_name: a, index: m, .. },
                TreeV::Window { session_name: b, index: n, .. },
            ) => !(a == b && m == n),
            _ => true,
        }
}

/// Whether the workspaces of a machine have sockets of their own, and orderly trees.
pub open spec fn listed_well(workspaces: Seq<WorkspaceV>) -> bool {
    &&& forall|i: int, j: int|
        #![trigger workspaces[i], workspaces[j]]
        0 <= i < j < workspaces.len() ==> workspaces[i].socket_name != workspaces[j].socket_name
    &&& forall|i: int| 0 <= i < workspaces.len() ==> orderly((#[trigger] workspaces[i]).tree)
}

proof fn lemma_run_bounds(lines: Seq<EntryV>, depth: u16, from: int)
    requires
        0 <= from <= lines.len(),
    ensures
        from <= run_behind(lines, depth, from) <= lines.len(),
    decreases lines.len() - from,
{
    if from < lines.len() && lines[from].depth > depth {
        lemma_run_bounds(lines, depth, from + 1);
    }
}

proof fn lemma_run_to_the_end(lines: Seq<EntryV>, depth: u16, from: int)
    requires
        0 <= from <= lines.len(),
        forall|i: int| from <= i < lines.len() ==> (#[trigger] lines[i]).depth > depth,
    ensures
        run_behind(lines, depth, from) == lines.len(),
    decreases lines.len() - from,
{
    if from < lines.len() {
        lemma_run_to_the_end(lines, depth, from + 1);
    }
}

proof fn lemma_run_in_front(a: Seq<EntryV>, b: Seq<EntryV>, depth: u16, from: int)
    requires
        0 <= from <= a.len(),
        b.len() > 0 ==> b[0].depth <= depth,
    ensures
        run_behind(a + b, depth, from) == run_behind(a, depth, from),
    decreases a.len() - from,
{
    if from < a.len() && a[from].depth > depth {
        lemma_run_in_front(a, b, depth, from + 1);
    }
}

proof fn lemma_run_behind(a: Seq<EntryV>, b: Seq<EntryV>, depth: u16, from: int)
    requires
        0 <= from <= b.len(),
    ensures
        run_behind(a + b, depth, a.len() + from) == a.len() + run_behind(b, depth, from),
    decreases b.len() - from,
{
    if from < b.len() {
        assert((a + b)[a.len() + from] == b[from]);
        if b[from].depth > depth {
            lemma_run_behind(a, b, depth, from + 1);
        }
    }
}

/// Folding in the front of two lists, where the second begins no deeper than the folded line.
proof fn lemma_fold_in_front(a: Seq<EntryV>, b: Seq<EntryV>, k: int)
    requires
        0 <= k < a.len(),
        b.len() > 0 ==> b[0].depth <= a[k].depth,
    ensures
        folded_at(a + b, k) == folded_at(a, k) + b,
{
    lemma_run_in_front(a, b, a[k].depth, k + 1);
    lemma_run_bounds(a, a[k].depth, k + 1);
    assert((a + b)[k] == a[k]);
    assert(folded_at(a + b, k) =~= folded_at(a, k) + b);
}

/// Folding in the back of two lists.
proof fn lemma_fold_behind(a: Seq<EntryV>, b: Seq<EntryV>, k: int)
    requires
        0 <= k < b.len(),
    ensures
        folded_at(a + b, a.len() + k) == a + folded_at(b, k),
{
    lemma_run_behind(a, b, b[k].depth, k + 1);
    lemma_run_bounds(b, b[k].depth, k + 1);
    assert((a + b)[a.len() + k] == b[k]);
    assert(folded_at(a + b, a.len() + k) =~= a + folded_at(b, k));
}

/// Folding where everything behind is deeper leaves nothing behind.
proof fn lemma_fold_all(lines: Seq<EntryV>, k: int)
    requires
        0 <= k < lines.len(),
        forall|i: int| k < i < lines.len() ==> (#[trigger] lines[i]).depth > lines[k].depth,
    ensures
        folded_at(lines, k) == lines.take(k).push(EntryV { expanded: false, ..lines[k] }),
{
    lemma_run_to_the_end(lines, lines[k].depth, k + 1);
    assert(folded_at(lines, k) =~= lines.take(k).push(EntryV { expanded: false, ..lines[k] }));
}

/// One more line behind: it is gone where it is deeper and everything from the folded line on was.
proof fn lemma_fold_push(lines: Seq<EntryV>, k: int, e: EntryV)
    requires
        0 <= k < lines.len(),
    ensures
        ({
            let whole = run_behind(lines, lines[k].depth, k + 1) == lines.len();
            let more = lines.push(e);
            if whole && e.depth > lines[k].depth {
                &&& folded_at(more, k) == folded_at(lines, k)
                &&& run_behind(more, more[k].depth, k + 1) == more.len()
            } else {
                &&& folded_at(more, k) == folded_at(lines, k).push(e)
                &&& run_behind(more, more[k].depth, k + 1) < more.len()
            }
        }),
{
    let more = lines.push(e);
    let depth = lines[k].depth;
    assert(more[k] == lines[k]);
    lemma_run_bounds(lines, depth, k + 1);
    lemma_run_push(lines, depth, k + 1, e);
    let end = run_behind(lines, depth, k + 1);
    if end == lines.len() && e.depth > depth {
        assert(folded_at(more, k) =~= folded_at(lines, k));
    } else {
        assert(folded_at(more, k) =~= folded_at(lines, k).push(e));
    }
}

proof fn lemma_run_push(lines: Seq<EntryV>, depth: u16, from: int, e: EntryV)
    requires
        0 <= from <= lines.len(),
    ensures
        run_behind(lines.push(e), depth, from) == (if run_behind(lines, depth, from) == lines.len()
            && e.depth > depth {
            lines.len() as int + 1
        } else {
            run_behind(lines, depth, from)
        }),
    decreases lines.len() - from,
{
    reveal_with_fuel(run_behind, 2);
    if from < lines.len() {
        lemma_run_push(lines, depth, from + 1, e);
    }
}

proof fn lemma_session_listed(tree: Seq<TreeV>, n: int)
    requires
        0 <= n <= tree.len(),
    ensures
        last_session(tree, n) matches Some(s) ==> exists|j: int|
            0 <= j < n && (#[trigger] tree[j] matches TreeV::Session { name, .. } && name == s),
    decreases n,
{
    if n > 0 {
        lemma_session_listed(tree, n - 1);
        if let Some(s) = last_session(tree, n) {
            if tree[n - 1] is Session {
                assert(tree[n - 1] matches TreeV::Session { name, .. } && name == s);
            } else {
                let j = choose|j: int|
                    0 <= j < n - 1 && (#[trigger] tree[j] matches TreeV::Session { name, .. } && name
                        == s);
                assert(tree[j] matches TreeV::Session { name, .. } && name == s);
            }
        }
    }
}

proof fn lemma_window_listed(tree: Seq<TreeV>, n: int)
    requires
        orderly(tree),
        0 <= n <= tree.len(),
    ensures
        last_window(tree, n) matches Some(w) ==> exists|j: int|
            0 <= j < n && (#[trigger] tree[j] matches TreeV::Window { session_name, index, .. }
                && Some(session_name) == last_session(tree, n) && index == w),
    decreases n,
{
    if n > 0 {
        lemma_window_listed(tree, n - 1);
        if let Some(w) = last_window(tree, n) {
            if tree[n - 1] is Window {
                assert(tree[n - 1] matches TreeV::Window { session_name, index, .. } && Some(
                    session_name,
                ) == last_session(tree, n) && index == w);
            } else {
                let j = choose|j: int|
                    0 <= j < n - 1 && (#[trigger] tree[j] matches TreeV::Window {
                        session_name,
                        index,
                        ..
                    } && Some(session_name) == last_session(tree, n - 1) && index == w);
                assert(tree[j] matches TreeV::Window { session_name, index, .. } && Some(
                    session_name,
                ) == last_session(tree, n) && index == w);
            }
        }
    }
}

/// Whether a node of a tree is the node `id`.
spec fn is_node(machine: Seq<char>, ws: WorkspaceV, node: TreeV, id: NodeV) -> bool {
    match node {
        TreeV::Session { name, .. } => id == navigation::session_id(machine, ws.socket_name, name),
        TreeV::Window { session_name, index, .. } => id == navigation::window_id(
            machine,
            ws.socket_name,
            session_name,
            index,
        ),
        TreeV::Pane { .. } => false,
    }
}

/// Whether a node of a tree belongs below the node `id`.
spec fn is_below(machine: Seq<char>, ws: WorkspaceV, node: TreeV, id: NodeV) -> bool {
    match node {
        TreeV::Session { .. } => false,
        TreeV::Window { session_name, .. } => id == navigation::session_id(machine, ws.socket_name, session_name),
        TreeV::Pane { session_name, window_index, .. } => id == navigation::session_id(
            machine,
            ws.socket_name,
            session_name,
        ) || id == navigation::window_id(machine, ws.socket_name, session_name, window_index),
    }
}

/// Whether what stands behind the first `n` nodes belongs below the node `id`.
spec fn in_branch(machine: Seq<char>, ws: WorkspaceV, id: NodeV, n: int) -> bool {
    match last_session(ws.tree, n) {
        None => false,
        Some(s) => id == navigation::session_id(machine, ws.socket_name, s) || match last_window(ws.tree, n) {
            None => false,
            Some(w) => id == navigation::window_id(machine, ws.socket_name, s, w),
        },
    }
}

proof fn lemma_node_folded(
    machine: Seq<char>,
    ws: WorkspaceV,
    node: TreeV,
    folded: Set<NodeV>,
    depth: int,
    id: NodeV,
)
    ensures
        ({
            let line = navigation::node_line(machine, ws, node, folded, depth);
            let after = navigation::node_line(machine, ws, node, folded.insert(id), depth);
            if is_below(machine, ws, node, id) {
                after is None
            } else if is_node(machine, ws, node, id) {
                match line {
                    Some(e) => after == Some(EntryV { expanded: false, ..e }) && e.id == id,
                    None => after is None,
                }
            } else {
                after == line
            }
        }),
{
}

/// Before the node itself comes, neither it nor anything below it is listed.
proof fn lemma_not_before(machine: Seq<char>, ws: WorkspaceV, id: NodeV, t: int, i: int)
    requires
        orderly(ws.tree),
        0 <= i < t < ws.tree.len(),
        is_node(machine, ws, ws.tree[t], id),
    ensures
        !is_node(machine, ws, ws.tree[i], id),
        !is_below(machine, ws, ws.tree[i], id),
{
    lemma_session_listed(ws.tree, i);
    lemma_window_listed(ws.tree, i);
}

proof fn lemma_tree_before(
    machine: Seq<char>,
    ws: WorkspaceV,
    folded: Set<NodeV>,
    depth: int,
    id: NodeV,
    t: int,
    n: int,
)
    requires
        orderly(ws.tree),
        n <= t < ws.tree.len(),
        is_node(machine, ws, ws.tree[t], id),
    ensures
        navigation::tree_lines(machine, ws, folded.insert(id), depth, n) == navigation::tree_lines(
            machine,
            ws,
            folded,
            depth,
            n,
        ),
    decreases n,
{
    if n > 0 {
        lemma_tree_before(machine, ws, folded, depth, id, t, n - 1);
        lemma_not_before(machine, ws, id, t, n - 1);
        lemma_node_folded(machine, ws, ws.tree[n - 1], folded, depth, id);
    }
}

/// Behind the node: what belongs below it goes, and everything else stays.
proof fn lemma_tree_behind(
    machine: Seq<char>,
    ws: WorkspaceV,
    folded: Set<NodeV>,
    depth: int,
    t: int,
    n: int,
)
    requires
        orderly(ws.tree),
        0 <= t < n <= ws.tree.len(),
        0 <= depth <= 65533,
        ws.tree[t] is Session || ws.tree[t] is Window,
        navigation::node_line(machine, ws, ws.tree[t], folded, depth) is Some,
    ensures
        ({
            let id = navigation::node_line(machine, ws, ws.tree[t], folded, depth)->0.id;
            let lines = navigation::tree_lines(machine, ws, folded, depth, n);
            let k = navigation::tree_lines(machine, ws, folded, depth, t).len() as int;
            &&& k < lines.len()
            &&& lines[k] == navigation::node_line(machine, ws, ws.tree[t], folded, depth)->0
            &&& navigation::tree_lines(machine, ws, folded.insert(id), depth, n) == folded_at(lines, k)
            &&& in_branch(machine, ws, id, n) <==> run_behind(lines, lines[k].depth, k + 1)
                == lines.len()
        }),
    decreases n,
{
    let node = ws.tree[t];
    let line = navigation::node_line(machine, ws, node, folded, depth)->0;
    let id = line.id;
    let before = navigation::tree_lines(machine, ws, folded, depth, n - 1);
    let lines = navigation::tree_lines(machine, ws, folded, depth, n);
    let after = navigation::tree_lines(machine, ws, folded.insert(id), depth, n);
    let k = navigation::tree_lines(machine, ws, folded, depth, t).len() as int;
    lemma_node_folded(machine, ws, ws.tree[n - 1], folded, depth, id);
    if n == t + 1 {
        lemma_tree_before(machine, ws, folded, depth, id, t, t);
        assert(lines =~= before.push(line));
        lemma_fold_all(lines, k);
        lemma_run_to_the_end(lines, line.depth, k + 1);
        assert(lines.take(k) =~= before);
        assert(after =~= folded_at(lines, k));
    } else {
        lemma_tree_behind(machine, ws, folded, depth, t, n - 1);
        let next = ws.tree[n - 1];
        assert(ws.tree[t] == node && ws.tree[n - 1] == next);
        assert(!is_node(machine, ws, next, id));
        match navigation::node_line(machine, ws, next, folded, depth) {
            Some(e) => {
                assert(lines =~= before.push(e));
                lemma_fold_push(before, k, e);
            },
            None => {
                assert(lines =~= before);
            },
        }
        assert(is_below(machine, ws, next, id) ==> in_branch(machine, ws, id, n - 1));
        assert(after =~= folded_at(lines, k));
    }
}

/// A line of a tree is the line of one of its nodes.
proof fn lemma_tree_line_node(
    machine: Seq<char>,
    ws: WorkspaceV,
    folded: Set<NodeV>,
    depth: int,
    n: int,
    k: int,
) -> (t: int)
    requires
        0 <= n <= ws.tree.len(),
        0 <= k < navigation::tree_lines(machine, ws, folded, depth, n).len(),
    ensures
        0 <= t < n,
        k == navigation::tree_lines(machine, ws, folded, depth, t).len(),
        navigation::node_line(machine, ws, ws.tree[t], folded, depth) == Some(
            navigation::tree_lines(machine, ws, folded, depth, n)[k],
        ),
    decreases n,
{
    let before = navigation::tree_lines(machine, ws, folded, depth, n - 1);
    if k < before.len() {
        assert(navigation::tree_lines(machine, ws, folded, depth, n)[k] == before[k]);
        lemma_tree_line_node(machine, ws, folded, depth, n - 1, k)
    } else {
        n - 1
    }
}

proof fn lemma_tree_depths(
    machine: Seq<char>,
    ws: WorkspaceV,
    folded: Set<NodeV>,
    depth: int,
    n: int,
)
    requires
        0 <= n <= ws.tree.len(),
        0 <= depth <= 65533,
    ensures
        forall|i: int|
            0 <= i < navigation::tree_lines(machine, ws, folded, depth, n).len() ==> (#[trigger] navigation::tree_lines(
                machine,
                ws,
                folded,
                depth,
                n,
            )[i]).depth >= depth,
    decreases n,
{
    if n > 0 {
        lemma_tree_depths(machine, ws, folded, depth, n - 1);
        let before = navigation::tree_lines(machine, ws, folded, depth, n - 1);
        assert forall|i: int|
            0 <= i < navigation::tree_lines(machine, ws, folded, depth, n).len() implies (#[trigger] navigation::tree_lines(
            machine,
            ws,
            folded,
            depth,
            n,
        )[i]).depth >= depth by {
            if i < before.len() {
                assert(navigation::tree_lines(machine, ws, folded, depth, n)[i] == before[i]);
            }
        }
    }
}

/// What is folded elsewhere changes nothing in a tree.
proof fn lemma_tree_elsewhere(
    machine: Seq<char>,
    ws: WorkspaceV,
    folded: Set<NodeV>,
    depth: int,
    id: NodeV,
    n: int,
)
    requires
        id is Machine || id is Workspace || id.machine() != machine || id.workspace() != Some(
            ws.socket_name,
        ),
    ensures
        navigation::tree_lines(machine, ws, folded.insert(id), depth, n) == navigation::tree_lines(
            machine,
            ws,
            folded,
            depth,
            n,
        ),
    decreases n,
{
    if n > 0 {
        lemma_tree_elsewhere(machine, ws, folded, depth, id, n - 1);
        lemma_node_folded(machine, ws, ws.tree[n - 1], folded, depth, id);
    }
}

proof fn lemma_workspace_elsewhere(
    machine: Seq<char>,
    ws: WorkspaceV,
    folded: Set<NodeV>,
    id: NodeV,
)
    requires
        id.machine() != machine || id.workspace() != Some(ws.socket_name),
    ensures
        navigation::workspace_lines(machine, ws, folded.insert(id), 1) == navigation::workspace_lines(machine, ws, folded, 1),
{
    lemma_tree_elsewhere(machine, ws, folded, 2, id, ws.tree.len() as int);
}

/// The lines of a workspace when one of its nodes is folded.
proof fn lemma_workspace_folded(machine: Seq<char>, ws: WorkspaceV, folded: Set<NodeV>, k: int)
    requires
        orderly(ws.tree),
        0 <= k < navigation::workspace_lines(machine, ws, folded, 1).len(),
        navigation::workspace_lines(machine, ws, folded, 1)[k].expandable,
        navigation::workspace_lines(machine, ws, folded, 1)[k].expanded,
    ensures
        ({
            let lines = navigation::workspace_lines(machine, ws, folded, 1);
            &&& navigation::workspace_lines(machine, ws, folded.insert(lines[k].id), 1) == folded_at(lines, k)
            &&& !folded.contains(lines[k].id)
            &&& !(lines[k].id is Machine)
            &&& lines[k].depth >= 1
        }),
{
    let lines = navigation::workspace_lines(machine, ws, folded, 1);
    let own = NodeV::Workspace { machine, workspace: ws.socket_name };
    let n = ws.tree.len() as int;
    let id = lines[k].id;
    let rest = navigation::tree_lines(machine, ws, folded, 2, n);
    lemma_tree_depths(machine, ws, folded, 2, n);
    if k == 0 {
        assert forall|i: int| 0 < i < lines.len() implies (#[trigger] lines[i]).depth > lines[0].depth by {
            assert(lines[i] == rest[i - 1]);
        }
        lemma_fold_all(lines, 0);
        assert(lines.take(0) =~= Seq::empty());
        assert(navigation::workspace_lines(machine, ws, folded.insert(id), 1) =~= folded_at(lines, 0));
    } else {
        assert(!folded.contains(own));
        let head = seq![lines[0]];
        assert(lines =~= head + rest);
        assert(lines[k] == rest[k - 1]);
        let t = lemma_tree_line_node(machine, ws, folded, 2, n, k - 1);
        lemma_tree_behind(machine, ws, folded, 2, t, n);
        lemma_fold_behind(head, rest, k - 1);
        assert(navigation::workspace_lines(machine, ws, folded.insert(id), 1) =~= folded_at(lines, k));
    }
}

proof fn lemma_workspaces_elsewhere(
    machine: Seq<char>,
    workspaces: Seq<WorkspaceV>,
    folded: Set<NodeV>,
    id: NodeV,
    n: int,
)
    requires
        n <= workspaces.len(),
        id.machine() != machine || id is Machine || forall|i: int|
            0 <= i < n ==> id.workspace() != Some((#[trigger] workspaces[i]).socket_name),
    ensures
        navigation::workspaces_lines(machine, workspaces, folded.insert(id), 1, n) == navigation::workspaces_lines(
            machine,
            workspaces,
            folded,
            1,
            n,
        ),
    decreases n,
{
    if n > 0 {
        lemma_workspaces_elsewhere(machine, workspaces, folded, id, n - 1);
        lemma_workspace_elsewhere(machine, workspaces[n - 1], folded, id);
    }
}

/// A line of some workspaces is in one of them.
proof fn lemma_workspaces_line(
    machine: Seq<char>,
    workspaces: Seq<WorkspaceV>,
    folded: Set<NodeV>,
    n: int,
    k: int,
)
    requires
        0 <= n <= workspaces.len(),
        0 <= k < navigation::workspaces_lines(machine, workspaces, folded, 1, n).len(),
    ensures
        exists|i: int|
            0 <= i < n && navigation::workspaces_lines(machine, workspaces, folded, 1, n)[k].id.workspace()
                == Some((#[trigger] workspaces[i]).socket_name),
    decreases n,
{
    let before = navigation::workspaces_lines(machine, workspaces, folded, 1, n - 1);
    let more = navigation::workspace_lines(machine, workspaces[n - 1], folded, 1);
    let line = navigation::workspaces_lines(machine, workspaces, folded, 1, n)[k];
    if k < before.len() {
        lemma_workspaces_line(machine, workspaces, folded, n - 1, k);
        assert(line == before[k]);
        let i = choose|i: int|
            0 <= i < n - 1 && before[k].id.workspace() == Some((#[trigger] workspaces[i]).socket_name);
        assert(line.id.workspace() == Some(workspaces[i].socket_name));
    } else {
        assert(line == more[k - before.len()]);
        navigation::law_workspace_lines_stay_in_it(machine, workspaces[n - 1], folded, 1, k - before.len());
        assert(line.id.workspace() == Some(workspaces[n - 1].socket_name));
    }
}

proof fn lemma_workspaces_folded(
    machine: Seq<char>,
    workspaces: Seq<WorkspaceV>,
    folded: Set<NodeV>,
    n: int,
    k: int,
)
    requires
        listed_well(workspaces),
        0 <= n <= workspaces.len(),
        0 <= k < navigation::workspaces_lines(machine, workspaces, folded, 1, n).len(),
        navigation::workspaces_lines(machine, workspaces, folded, 1, n)[k].expandable,
        navigation::workspaces_lines(machine, workspaces, folded, 1, n)[k].expanded,
    ensures
        ({
            let lines = navigation::workspaces_lines(machine, workspaces, folded, 1, n);
            &&& navigation::workspaces_lines(machine, workspaces, folded.insert(lines[k].id), 1, n)
                == folded_at(lines, k)
            &&& !folded.contains(lines[k].id)
            &&& !(lines[k].id is Machine)
            &&& lines[k].depth >= 1
        }),
    decreases n,
{
    let before = navigation::workspaces_lines(machine, workspaces, folded, 1, n - 1);
    let more = navigation::workspace_lines(machine, workspaces[n - 1], folded, 1);
    let lines = navigation::workspaces_lines(machine, workspaces, folded, 1, n);
    let id = lines[k].id;
    assert(lines == before + more);
    if k < before.len() {
        assert(lines[k] == before[k]);
        lemma_workspaces_folded(machine, workspaces, folded, n - 1, k);
        lemma_workspaces_line(machine, workspaces, folded, n - 1, k);
        let i = choose|i: int|
            0 <= i < n - 1 && before[k].id.workspace() == Some((#[trigger] workspaces[i]).socket_name);
        assert(workspaces[i].socket_name != workspaces[n - 1].socket_name);
        lemma_workspace_elsewhere(machine, workspaces[n - 1], folded, id);
        lemma_fold_in_front(before, more, k);
    } else {
        let at = k - before.len();
        assert(lines[k] == more[at]);
        lemma_workspace_folded(machine, workspaces[n - 1], folded, at);
        navigation::law_workspace_lines_stay_in_it(machine, workspaces[n - 1], folded, 1, at);
        assert forall|i: int| 0 <= i < n - 1 implies id.workspace() != Some(
            (#[trigger] workspaces[i]).socket_name,
        ) by {
            assert(workspaces[i].socket_name != workspaces[n - 1].socket_name);
        }
        lemma_workspaces_elsewhere(machine, workspaces, folded, id, n - 1);
        lemma_fold_behind(before, more, at);
    }
}

proof fn lemma_workspaces_depths(
    machine: Seq<char>,
    workspaces: Seq<WorkspaceV>,
    folded: Set<NodeV>,
    n: int,
)
    requires
        0 <= n <= workspaces.len(),
    ensures
        forall|i: int|
            0 <= i < navigation::workspaces_lines(machine, workspaces, folded, 1, n).len() ==> (
            #[trigger] navigation::workspaces_lines(machine, workspaces, folded, 1, n)[i]).depth >= 1,
    decreases n,
{
    if n > 0 {
        lemma_workspaces_depths(machine, workspaces, folded, n - 1);
        let ws = workspaces[n - 1];
        lemma_tree_depths(machine, ws, folded, 2, ws.tree.len() as int);
        let before = navigation::workspaces_lines(machine, workspaces, folded, 1, n - 1);
        let more = navigation::workspace_lines(machine, ws, folded, 1);
        let rest = navigation::tree_lines(machine, ws, folded, 2, ws.tree.len() as int);
        assert forall|i: int|
            0 <= i < navigation::workspaces_lines(machine, workspaces, folded, 1, n).len() implies (
        #[trigger] navigation::workspaces_lines(machine, workspaces, folded, 1, n)[i]).depth >= 1 by {
            if i < before.len() {
                assert(navigation::workspaces_lines(machine, workspaces, folded, 1, n)[i] == before[i]);
            } else {
                let at = i - before.len();
                assert(navigation::workspaces_lines(machine, workspaces, folded, 1, n)[i] == more[at]);
                if at > 0 {
                    assert(more[at] == rest[at - 1]);
                }
            }
        }
    }
}

proof fn lemma_machine_elsewhere(m: MachineV, folded: Set<NodeV>, id: NodeV)
    requires
        id.machine() != m.id,
    ensures
        navigation::machine_lines(m, folded.insert(id)) == navigation::machine_lines(m, folded),
{
    lemma_workspaces_elsewhere(m.id, m.workspaces, folded, id, m.workspaces.len() as int);
}

/// The lines of a machine when one of its nodes is folded.
proof fn lemma_machine_folded(m: MachineV, folded: Set<NodeV>, k: int)
    requires
        listed_well(m.workspaces),
        0 <= k < navigation::machine_lines(m, folded).len(),
        navigation::machine_lines(m, folded)[k].expandable,
        navigation::machine_lines(m, folded)[k].expanded,
    ensures
        ({
            let lines = navigation::machine_lines(m, folded);
            &&& navigation::machine_lines(m, folded.insert(lines[k].id)) == folded_at(lines, k)
            &&& !folded.contains(lines[k].id)
        }),
{
    let lines = navigation::machine_lines(m, folded);
    let n = m.workspaces.len() as int;
    let id = lines[k].id;
    let rest = navigation::workspaces_lines(m.id, m.workspaces, folded, 1, n);
    lemma_workspaces_depths(m.id, m.workspaces, folded, n);
    if k == 0 {
        assert forall|i: int| 0 < i < lines.len() implies (#[trigger] lines[i]).depth > lines[0].depth by {
            assert(lines[i] == rest[i - 1]);
        }
        lemma_fold_all(lines, 0);
        assert(lines.take(0) =~= Seq::empty());
        assert(navigation::machine_lines(m, folded.insert(id)) =~= folded_at(lines, 0));
    } else {
        assert(!folded.contains(NodeV::Machine(m.id)));
        let head = seq![lines[0]];
        assert(lines =~= head + rest);
        assert(lines[k] == rest[k - 1]);
        lemma_workspaces_folded(m.id, m.workspaces, folded, n, k - 1);
        lemma_fold_behind(head, rest, k - 1);
        assert(navigation::machine_lines(m, folded.insert(id)) =~= folded_at(lines, k));
    }
}

proof fn lemma_remotes_elsewhere(
    local: Seq<char>,
    remotes: Seq<MachineV>,
    folded: Set<NodeV>,
    id: NodeV,
    n: int,
)
    requires
        n <= remotes.len(),
        forall|i: int|
            0 <= i < n && navigation::is_new_machine(local, remotes, i) ==> (#[trigger] remotes[i]).id
                != id.machine(),
    ensures
        navigation::remotes_lines(local, remotes, folded.insert(id), n) == navigation::remotes_lines(
            local,
            remotes,
            folded,
            n,
        ),
    decreases n,
{
    if n > 0 {
        lemma_remotes_elsewhere(local, remotes, folded, id, n - 1);
        if navigation::is_new_machine(local, remotes, n - 1) {
            assert(remotes[n - 1].id != id.machine());
            lemma_machine_elsewhere(remotes[n - 1], folded, id);
        }
    }
}

/// A line of some remote machines is on one of them.
proof fn lemma_remotes_line(
    local: Seq<char>,
    remotes: Seq<MachineV>,
    folded: Set<NodeV>,
    n: int,
    k: int,
)
    requires
        0 <= n <= remotes.len(),
        0 <= k < navigation::remotes_lines(local, remotes, folded, n).len(),
    ensures
        exists|i: int|
            0 <= i < n && navigation::is_new_machine(local, remotes, i) && navigation::remotes_lines(
                local,
                remotes,
                folded,
                n,
            )[k].id.machine() == (#[trigger] remotes[i]).id,
    decreases n,
{
    let before = navigation::remotes_lines(local, remotes, folded, n - 1);
    let line = navigation::remotes_lines(local, remotes, folded, n)[k];
    if k < before.len() {
        lemma_remotes_line(local, remotes, folded, n - 1, k);
        assert(line == before[k]);
        let i = choose|i: int|
            0 <= i < n - 1 && navigation::is_new_machine(local, remotes, i) && before[k].id.machine() == (
            #[trigger] remotes[i]).id;
        assert(line.id.machine() == remotes[i].id);
    } else {
        let more = navigation::machine_lines(remotes[n - 1], folded);
        assert(line == more[k - before.len()]);
        navigation::law_machine_lines_stay_on_it(remotes[n - 1], folded, k - before.len());
        assert(line.id.machine() == remotes[n - 1].id);
    }
}

proof fn lemma_remotes_folded(
    local: Seq<char>,
    remotes: Seq<MachineV>,
    folded: Set<NodeV>,
    n: int,
    k: int,
)
    requires
        0 <= n <= remotes.len(),
        forall|i: int| 0 <= i < remotes.len() ==> listed_well((#[trigger] remotes[i]).workspaces),
        0 <= k < navigation::remotes_lines(local, remotes, folded, n).len(),
        navigation::remotes_lines(local, remotes, folded, n)[k].expandable,
        navigation::remotes_lines(local, remotes, folded, n)[k].expanded,
    ensures
        ({
            let lines = navigation::remotes_lines(local, remotes, folded, n);
            &&& navigation::remotes_lines(local, remotes, folded.insert(lines[k].id), n) == folded_at(lines, k)
            &&& !folded.contains(lines[k].id)
        }),
    decreases n,
{
    let before = navigation::remotes_lines(local, remotes, folded, n - 1);
    let fresh = navigation::is_new_machine(local, remotes, n - 1);
    let more = if fresh {
        navigation::machine_lines(remotes[n - 1], folded)
    } else {
        Seq::empty()
    };
    let lines = navigation::remotes_lines(local, remotes, folded, n);
    let id = lines[k].id;
    assert(lines == before + more);
    if k < before.len() {
        assert(lines[k] == before[k]);
        lemma_remotes_folded(local, remotes, folded, n - 1, k);
        lemma_remotes_line(local, remotes, folded, n - 1, k);
        let i = choose|i: int|
            0 <= i < n - 1 && navigation::is_new_machine(local, remotes, i) && before[k].id.machine() == (
            #[trigger] remotes[i]).id;
        if fresh {
            assert(remotes[i].id != remotes[n - 1].id);
            lemma_machine_elsewhere(remotes[n - 1], folded, id);
        }
        lemma_fold_in_front(before, more, k);
    } else {
        let at = k - before.len();
        assert(lines[k] == more[at]);
        lemma_machine_folded(remotes[n - 1], folded, at);
        navigation::law_machine_lines_stay_on_it(remotes[n - 1], folded, at);
        assert forall|i: int| 0 <= i < n - 1 && navigation::is_new_machine(local, remotes, i) implies (
        #[trigger] remotes[i]).id != id.machine() by {
            assert(remotes[i].id != remotes[n - 1].id);
        }
        lemma_remotes_elsewhere(local, remotes, folded, id, n - 1);
        lemma_fold_behind(before, more, at);
    }
}

/// Folding a line of the tree shows it as folded and takes away just the deeper lines right behind
/// it: every other line stays as it was, and in its place.
pub proof fn law_folding_takes_only_what_is_below(
    id: Seq<char>,
    name: Seq<char>,
    workspaces: Seq<WorkspaceV>,
    remotes: Seq<MachineV>,
    folded: Set<NodeV>,
    k: int,
)
    requires
        listed_well(workspaces),
        forall|i: int| 0 <= i < remotes.len() ==> listed_well((#[trigger] remotes[i]).workspaces),
        0 <= k < navigation::navigation_lines(id, name, workspaces, remotes, folded).len(),
        navigation::navigation_lines(id, name, workspaces, remotes, folded)[k].expandable,
        navigation::navigation_lines(id, name, workspaces, remotes, folded)[k].expanded,
    ensures
        ({
            let before = navigation::navigation_lines(id, name, workspaces, remotes, folded);
            navigation::navigation_lines(id, name, workspaces, remotes, navigation::toggled(folded, before[k].id))
                == folded_at(before, k)
        }),
{
    let m = navigation::local_machine(id, name, workspaces, remotes);
    let n = remotes.len() as int;
    let here = navigation::machine_lines(m, folded);
    let there = navigation::remotes_lines(id, remotes, folded, n);
    let before = navigation::navigation_lines(id, name, workspaces, remotes, folded);
    let node = before[k].id;
    assert(before == here + there);
    if k < here.len() {
        assert(before[k] == here[k]);
        lemma_machine_folded(m, folded, k);
        navigation::law_machine_lines_stay_on_it(m, folded, k);
        lemma_remotes_elsewhere(id, remotes, folded, node, n);
        lemma_remotes_begin(id, remotes, folded, n);
        lemma_fold_in_front(here, there, k);
    } else {
        let at = k - here.len();
        assert(before[k] == there[at]);
        lemma_remotes_folded(id, remotes, folded, n, at);
        lemma_remotes_line(id, remotes, folded, n, at);
        lemma_machine_elsewhere(m, folded, node);
        lemma_fold_behind(here, there, at);
    }
}

proof fn lemma_remotes_begin(local: Seq<char>, remotes: Seq<MachineV>, folded: Set<NodeV>, n: int)
    requires
        0 <= n <= remotes.len(),
    ensures
        ({
            let lines = navigation::remotes_lines(local, remotes, folded, n);
            lines.len() > 0 ==> lines[0].depth == 0
        }),
    decreases n,
{
    if n > 0 {
        lemma_remotes_begin(local, remotes, folded, n - 1);
    }
}

} // verus!
