//! The sessions, windows and panes of a server.

use crate::json;
use crate::text;
use crate::json::{Document, DocumentV, Scalar, ScalarV};
use vstd::prelude::*;

verus! {

/// One line of a server's tree: sessions, each followed by its windows, each followed by its
/// panes.
#[derive(Clone, Debug, PartialEq, Eq)]
pub enum SessionTreeEntry {
    Session { name: String, window_count: usize, is_active: bool },
    Window {
        session_name: String,
        index: usize,
        name: String,
        pane_count: usize,
        is_active: bool,
    },
    Pane {
        session_name: String,
        window_index: usize,
        pane_id: usize,
        index: usize,
        title: String,
        is_active: bool,
    },
}

#[verifier::ext_equal]
pub enum TreeV {
    Session { name: Seq<char>, window_count: usize, is_active: bool },
    Window {
        session_name: Seq<char>,
        index: usize,
        name: Seq<char>,
        pane_count: usize,
        is_active: bool,
    },
    Pane {
        session_name: Seq<char>,
        window_index: usize,
        pane_id: usize,
        index: usize,
        title: Seq<char>,
        is_active: bool,
    },
}

impl View for SessionTreeEntry {
    type V = TreeV;

    open spec fn view(&self) -> TreeV {
        match *self {
            SessionTreeEntry::Session { name, window_count, is_active } => TreeV::Session {
                name: name@,
                window_count,
                is_active,
            },
            SessionTreeEntry::Window { session_name, index, name, pane_count, is_active } => TreeV::Window {
                session_name: session_name@,
                index,
                name: name@,
                pane_count,
                is_active,
            },
            SessionTreeEntry::Pane {
                session_name,
                window_index,
                pane_id,
                index,
                title,
                is_active,
            } => TreeV::Pane {
                session_name: session_name@,
                window_index,
                pane_id,
                index,
                title: title@,
                is_active,
            },
        }
    }
}

/// What the lines of a tree stand for.
pub open spec fn tree_views(tree: Seq<SessionTreeEntry>) -> Seq<TreeV> {
    Seq::new(tree.len(), |i: int| tree[i]@)
}

/// A line of a tree as a server tells it. A line without what it needs is left out; a pane may
/// have no title.
pub open spec fn told_line(m: Seq<(Seq<char>, ScalarV)>) -> Option<TreeV> {
    match json::text_member(m, "type"@) {
        Some(kind) => if kind == "session"@ {
            told_session(m)
        } else if kind == "window"@ {
            told_window(m)
        } else if kind == "pane"@ {
            told_pane(m)
        } else {
            None
        },
        None => None,
    }
}

pub open spec fn told_session(m: Seq<(Seq<char>, ScalarV)>) -> Option<TreeV> {
    match (
        json::text_member(m, "name"@),
        json::number_member(m, "window_count"@),
        json::flag_member(m, "is_active"@),
    ) {
        (Some(name), Some(window_count), Some(is_active)) => Some(
            TreeV::Session { name, window_count, is_active },
        ),
        _ => None,
    }
}

pub open spec fn told_window(m: Seq<(Seq<char>, ScalarV)>) -> Option<TreeV> {
    match (
        json::text_member(m, "session_name"@),
        json::number_member(m, "index"@),
        json::text_member(m, "name"@),
        json::number_member(m, "pane_count"@),
        json::flag_member(m, "is_active"@),
    ) {
        (Some(session_name), Some(index), Some(name), Some(pane_count), Some(is_active)) => Some(
            TreeV::Window { session_name, index, name, pane_count, is_active },
        ),
        _ => None,
    }
}

pub open spec fn told_pane(m: Seq<(Seq<char>, ScalarV)>) -> Option<TreeV> {
    match (
        json::text_member(m, "session_name"@),
        json::number_member(m, "window_index"@),
        json::number_member(m, "pane_id"@),
        json::number_member(m, "index"@),
        json::flag_member(m, "is_active"@),
    ) {
        (
            Some(session_name),
            Some(window_index),
            Some(pane_id),
            Some(index),
            Some(is_active),
        ) => Some(
            TreeV::Pane {
                session_name,
                window_index,
                pane_id,
                index,
                title: match json::text_member(m, "title"@) {
                    Some(t) => t,
                    None => Seq::empty(),
                },
                is_active,
            },
        ),
        _ => None,
    }
}

/// The lines that the first `n` objects tell.
pub open spec fn told_lines(objects: Seq<Seq<(Seq<char>, ScalarV)>>, n: int) -> Seq<TreeV>
    decreases n,
{
    if n <= 0 {
        Seq::empty()
    } else {
        match told_line(objects[n - 1]) {
            Some(line) => told_lines(objects, n - 1).push(line),
            None => told_lines(objects, n - 1),
        }
    }
}

/// The tree that a document tells: none, where it is no list.
pub open spec fn told_tree(document: Option<DocumentV>) -> Seq<TreeV> {
    match document {
        Some(DocumentV::List(objects)) => told_lines(objects, objects.len() as int),
        _ => Seq::empty(),
    }
}

fn session_line(m: &Vec<(String, Scalar)>) -> (r: Option<SessionTreeEntry>)
    ensures
        line_view(r) == told_session(json::member_views(m@)),
{
    match (json::text_of(m, "name"), json::number_of(m, "window_count"), json::flag_of(m, "is_active")) {
        (Some(name), Some(window_count), Some(is_active)) => Some(
            SessionTreeEntry::Session { name, window_count, is_active },
        ),
        _ => None,
    }
}

fn window_line(m: &Vec<(String, Scalar)>) -> (r: Option<SessionTreeEntry>)
    ensures
        line_view(r) == told_window(json::member_views(m@)),
{
    match (
        json::text_of(m, "session_name"),
        json::number_of(m, "index"),
        json::text_of(m, "name"),
        json::number_of(m, "pane_count"),
        json::flag_of(m, "is_active"),
    ) {
        (Some(session_name), Some(index), Some(name), Some(pane_count), Some(is_active)) => Some(
            SessionTreeEntry::Window { session_name, index, name, pane_count, is_active },
        ),
        _ => None,
    }
}

fn pane_line_of(m: &Vec<(String, Scalar)>) -> (r: Option<SessionTreeEntry>)
    ensures
        line_view(r) == told_pane(json::member_views(m@)),
{
    let title = match json::text_of(m, "title") {
        Some(t) => t,
        None => String::new(),
    };
    match (
        json::text_of(m, "session_name"),
        json::number_of(m, "window_index"),
        json::number_of(m, "pane_id"),
        json::number_of(m, "index"),
        json::flag_of(m, "is_active"),
    ) {
        (
            Some(session_name),
            Some(window_index),
            Some(pane_id),
            Some(index),
            Some(is_active),
        ) => Some(
            SessionTreeEntry::Pane { session_name, window_index, pane_id, index, title, is_active },
        ),
        _ => None,
    }
}

pub open spec fn line_view(line: Option<SessionTreeEntry>) -> Option<TreeV> {
    match line {
        Some(l) => Some(l@),
        None => None,
    }
}

/// A line of a tree, if an object tells one.
pub fn tree_line(m: &Vec<(String, Scalar)>) -> (r: Option<SessionTreeEntry>)
    ensures
        line_view(r) == told_line(json::member_views(m@)),
{
    match json::text_of(m, "type") {
        Some(kind) => {
            if text::same_text(kind.as_str(), "session") {
                session_line(m)
            } else if text::same_text(kind.as_str(), "window") {
                window_line(m)
            } else if text::same_text(kind.as_str(), "pane") {
                pane_line_of(m)
            } else {
                None
            }
        },
        None => None,
    }
}

/// The tree that a document tells.
pub fn session_tree_of(document: Option<Document>) -> (r: Vec<SessionTreeEntry>)
    ensures
        tree_views(r@) == told_tree(json::document_view(document)),
{
    let mut out: Vec<SessionTreeEntry> = Vec::new();
    proof {
        assert(tree_views(out@) =~= Seq::empty());
    }
    if let Some(Document::List(objects)) = document {
        let ghost views = json::object_views(objects@);
        let mut i: usize = 0;
        while i < objects.len()
            invariant
                i <= objects@.len(),
                views == json::object_views(objects@),
                tree_views(out@) == told_lines(views, i as int),
            decreases objects@.len() - i,
        {
            let ghost before = out@;
            proof {
                assert(views[i as int] == json::member_views(objects@[i as int]@));
            }
            if let Some(line) = tree_line(&objects[i]) {
                out.push(line);
                proof {
                    assert(tree_views(out@) =~= tree_views(before).push(line@));
                }
            }
            i = i + 1;
        }
    }
    out
}

/// The tree that a server answers with.
pub fn parse_session_tree_json(json: &str) -> (r: Vec<SessionTreeEntry>)
    ensures
        tree_views(r@) == told_tree(json::json_document(json@)),
{
    session_tree_of(json::read_json(json))
}

} // verus!
