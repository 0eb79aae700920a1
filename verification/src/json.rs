//! JSON documents that a server answers with: one object, or a list of them.

use serde_json::Value;
use crate::commands;
use crate::text;
use vstd::prelude::*;

verus! {

/// A member of an object, as far as answers use one.
#[derive(Debug)]
pub enum Scalar {
    Text(String),
    Number(u64),
    Flag(bool),
    Other,
}

#[verifier::ext_equal]
pub enum ScalarV {
    Text(Seq<char>),
    Number(u64),
    Flag(bool),
    Other,
}

impl View for Scalar {
    type V = ScalarV;

    open spec fn view(&self) -> ScalarV {
        match *self {
            Scalar::Text(s) => ScalarV::Text(s@),
            Scalar::Number(n) => ScalarV::Number(n),
            Scalar::Flag(b) => ScalarV::Flag(b),
            Scalar::Other => ScalarV::Other,
        }
    }
}

/// The members of an object; none, where there was no object.
pub type Members = Vec<(String, Scalar)>;

pub open spec fn member_views(m: Seq<(String, Scalar)>) -> Seq<(Seq<char>, ScalarV)> {
    Seq::new(m.len(), |i: int| (m[i].0@, m[i].1@))
}

pub open spec fn object_views(objects: Seq<Vec<(String, Scalar)>>) -> Seq<
    Seq<(Seq<char>, ScalarV)>,
> {
    Seq::new(objects.len(), |i: int| member_views(objects[i]@))
}

/// A document: a list of values, or one that is no list.
#[derive(Debug)]
pub enum Document {
    List(Vec<Members>),
    Single(Members),
}

#[verifier::ext_equal]
pub enum DocumentV {
    List(Seq<Seq<(Seq<char>, ScalarV)>>),
    Single(Seq<(Seq<char>, ScalarV)>),
}

pub open spec fn document_view(d: Option<Document>) -> Option<DocumentV> {
    match d {
        Some(Document::List(objects)) => Some(DocumentV::List(object_views(objects@))),
        Some(Document::Single(members)) => Some(DocumentV::Single(member_views(members@))),
        None => None,
    }
}

/// What a text holds as a JSON document: nothing where it is none, else the members of the
/// object, or of each object in the list.
pub uninterp spec fn json_document(text: Seq<char>) -> Option<DocumentV>;

/// Reads a JSON document with `serde_json::from_str`. What is read is only named: it is a function
/// of the text alone. Values that are no objects are given without members; members other than
/// texts, flags and numbers from zero to the largest of 64 bits are given as such.
#[verifier::external_body]
pub(crate) fn read_json(text: &str) -> (r: Option<Document>)
    ensures
        document_view(r) == json_document(text@),
{
    let scalar = |v: Value| match v {
        Value::String(s) => Scalar::Text(s),
        Value::Bool(b) => Scalar::Flag(b),
        Value::Number(n) => n.as_u64().map_or(Scalar::Other, Scalar::Number),
        _ => Scalar::Other,
    };
    let members = |v: Value| match v {
        Value::Object(m) => m.into_iter().map(|(k, v)| (k, scalar(v))).collect(),
        _ => Vec::new(),
    };
    match serde_json::from_str(text) {
        Ok(Value::Array(a)) => Some(Document::List(a.into_iter().map(members).collect())),
        Ok(v) => Some(Document::Single(members(v))),
        Err(_) => None,
    }
}

/// The first member of a name from `i` on.
pub open spec fn member(m: Seq<(Seq<char>, ScalarV)>, key: Seq<char>, i: int) -> Option<ScalarV>
    decreases m.len() - i,
{
    if i < 0 || i >= m.len() {
        None
    } else if m[i].0 == key {
        Some(m[i].1)
    } else {
        member(m, key, i + 1)
    }
}

pub open spec fn text_member(m: Seq<(Seq<char>, ScalarV)>, key: Seq<char>) -> Option<Seq<char>> {
    match member(m, key, 0) {
        Some(ScalarV::Text(s)) => Some(s),
        _ => None,
    }
}

pub open spec fn number_member(m: Seq<(Seq<char>, ScalarV)>, key: Seq<char>) -> Option<usize> {
    match member(m, key, 0) {
        Some(ScalarV::Number(n)) => Some(n as usize),
        _ => None,
    }
}

pub open spec fn flag_member(m: Seq<(Seq<char>, ScalarV)>, key: Seq<char>) -> Option<bool> {
    match member(m, key, 0) {
        Some(ScalarV::Flag(b)) => Some(b),
        _ => None,
    }
}

fn find_member<'a>(m: &'a Vec<(String, Scalar)>, key: &str) -> (r: Option<&'a Scalar>)
    ensures
        (match r {
            Some(v) => Some(v@),
            None => None,
        }) == member(member_views(m@), key@, 0),
{
    let ghost all = member_views(m@);
    let mut i: usize = 0;
    while i < m.len()
        invariant
            i <= m@.len(),
            all == member_views(m@),
            member(all, key@, i as int) == member(all, key@, 0),
        decreases m@.len() - i,
    {
        proof {
            assert(all[i as int] == (m@[i as int].0@, m@[i as int].1@));
        }
        if text::same_text(m[i].0.as_str(), key) {
            return Some(&m[i].1);
        }
        i = i + 1;
    }
    None
}

/// A member that is a text.
pub fn text_of(m: &Vec<(String, Scalar)>, key: &str) -> (r: Option<String>)
    ensures
        commands::opt_text(r) == text_member(member_views(m@), key@),
{
    match find_member(m, key) {
        Some(Scalar::Text(s)) => Some(s.clone()),
        _ => None,
    }
}

/// A member that is a number.
pub fn number_of(m: &Vec<(String, Scalar)>, key: &str) -> (r: Option<usize>)
    ensures
        r == number_member(member_views(m@), key@),
{
    match find_member(m, key) {
        Some(Scalar::Number(n)) => Some(#[verifier::truncate] (*n as usize)),
        _ => None,
    }
}

/// A member that is a flag.
pub fn flag_of(m: &Vec<(String, Scalar)>, key: &str) -> (r: Option<bool>)
    ensures
        r == flag_member(member_views(m@), key@),
{
    match find_member(m, key) {
        Some(Scalar::Flag(b)) => Some(*b),
        _ => None,
    }
}

} // verus!
