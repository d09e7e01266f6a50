//! The boundary with serde_json: parsing and printing are done there, on its
//! own `Value`; this module moves values across, one node at a time.
//!
//! What is believed of serde_json is stated on the items marked
//! `external_body` and on the functions without a body. Everything else here
//! is proved from those statements.

use crate::json::{distinct_keys, lemma_key_index, Json, JsonObject, JsonTree};
use vstd::prelude::*;

verus! {

/// `serde_json::Value`, opaque here: it is only opened and built node by
/// node, through `peek` and `seal`.
#[verifier::external_type_specification]
#[verifier::external_body]
pub struct ExValue(serde_json::Value);

/// The tree that a `serde_json::Value` holds: its variant, its scalar, and
/// for an array or an object its children in iteration order.
pub uninterp spec fn value_tree(v: serde_json::Value) -> JsonTree;

/// What `serde_json::from_slice` makes of these bytes: the tree it parsed,
/// or `None` where it reports an error.
pub uninterp spec fn parsed_bytes(bytes: Seq<u8>) -> Option<JsonTree>;

/// What `serde_json::from_str` makes of this text.
pub uninterp spec fn parsed_text(text: Seq<char>) -> Option<JsonTree>;

/// What `serde_json::to_string_pretty` prints for a tree, or `None` where it
/// reports an error.
pub uninterp spec fn pretty_text(tree: JsonTree) -> Option<Seq<char>>;

/// What the `Display` of a `serde_json::Value` prints for a tree: the
/// compact form.
pub uninterp spec fn compact_text(tree: JsonTree) -> Seq<char>;

/// One node of a `serde_json::Value`, borrowed: its scalar, or its children
/// still in serde_json's own type.
pub enum NodeRef<'a> {
    Null,
    Bool(bool),
    Number(&'a serde_json::Number),
    Text(&'a String),
    Array(&'a Vec<serde_json::Value>),
    Object(Vec<(&'a String, &'a serde_json::Value)>),
}

/// One node to build a `serde_json::Value` from.
pub enum Node {
    Null,
    Bool(bool),
    Number(serde_json::Number),
    Text(String),
    Array(Vec<serde_json::Value>),
    Object(Vec<(String, serde_json::Value)>),
}

impl<'a> NodeRef<'a> {
    /// The tree under a borrowed node.
    pub open spec fn tree(self) -> JsonTree {
        match self {
            NodeRef::Null => JsonTree::Null,
            NodeRef::Bool(b) => JsonTree::Bool(b),
            NodeRef::Number(n) => JsonTree::Number(*n),
            NodeRef::Text(s) => JsonTree::Text(s@),
            NodeRef::Array(items) => JsonTree::Array(
                Seq::new(items@.len(), |i: int| value_tree(items@[i])),
            ),
            NodeRef::Object(entries) => JsonTree::Object(
                Seq::new(entries@.len(), |i: int| (entries@[i].0@, value_tree(*entries@[i].1))),
            ),
        }
    }
}

impl Node {
    /// The tree under a node.
    pub open spec fn tree(self) -> JsonTree {
        match self {
            Node::Null => JsonTree::Null,
            Node::Bool(b) => JsonTree::Bool(b),
            Node::Number(n) => JsonTree::Number(n),
            Node::Text(s) => JsonTree::Text(s@),
            Node::Array(items) => JsonTree::Array(
                Seq::new(items@.len(), |i: int| value_tree(items@[i])),
            ),
            Node::Object(entries) => JsonTree::Object(
                Seq::new(entries@.len(), |i: int| (entries@[i].0@, value_tree(entries@[i].1))),
            ),
        }
    }
}

/// Opens a `serde_json::Value` by matching on its variants. The node holds
/// what the value holds; an object's entries come in the order of
/// `Map::iter`, and a map has no key twice.
#[verifier::external_body]
fn peek<'a>(v: &'a serde_json::Value) -> (node: NodeRef<'a>)
    ensures
        node.tree() == value_tree(*v),
        node.tree() matches JsonTree::Object(entries) ==> distinct_keys(entries),
{
    match v {
        serde_json::Value::Null => NodeRef::Null,
        serde_json::Value::Bool(b) => NodeRef::Bool(*b),
        serde_json::Value::Number(n) => NodeRef::Number(n),
        serde_json::Value::String(s) => NodeRef::Text(s),
        serde_json::Value::Array(items) => NodeRef::Array(items),
        serde_json::Value::Object(map) => NodeRef::Object(map.iter().collect()),
    }
}

/// Builds a `serde_json::Value` from a node. An object is collected into a
/// `Map`, which keeps the entries in the order given as long as no key
/// comes twice; for a node with a repeated key nothing is claimed.
#[verifier::external_body]
fn seal(node: Node) -> (v: serde_json::Value)
    ensures
        (node.tree() matches JsonTree::Object(entries) ==> distinct_keys(entries)) ==> value_tree(v)
            == node.tree(),
{
    match node {
        Node::Null => serde_json::Value::Null,
        Node::Bool(b) => serde_json::Value::Bool(b),
        Node::Number(n) => serde_json::Value::Number(n),
        Node::Text(s) => serde_json::Value::String(s),
        Node::Array(items) => serde_json::Value::Array(items),
        Node::Object(entries) => serde_json::Value::Object(entries.into_iter().collect()),
    }
}

/// Calls `serde_json::from_slice` for a `Value`.
#[verifier::external_body]
fn parse_slice(bytes: &[u8]) -> (r: Option<serde_json::Value>)
    ensures
        match r {
            Some(v) => parsed_bytes(bytes@) == Some(value_tree(v)),
            None => parsed_bytes(bytes@) is None,
        },
{
    serde_json::from_slice::<serde_json::Value>(bytes).ok()
}

/// Calls `serde_json::from_str` for a `Value`.
#[verifier::external_body]
fn parse_str(text: &str) -> (r: Option<serde_json::Value>)
    ensures
        match r {
            Some(v) => parsed_text(text@) == Some(value_tree(v)),
            None => parsed_text(text@) is None,
        },
{
    serde_json::from_str::<serde_json::Value>(text).ok()
}

/// Calls `serde_json::to_string_pretty`.
#[verifier::external_body]
fn print_pretty(v: &serde_json::Value) -> (r: Option<String>)
    ensures
        match r {
            Some(s) => pretty_text(value_tree(*v)) == Some(s@),
            None => pretty_text(value_tree(*v)) is None,
        },
{
    serde_json::to_string_pretty(v).ok()
}

/// Calls `to_string` on a `serde_json::Value`, which prints it through its
/// `Display`.
#[verifier::external_body]
fn print_compact(v: &serde_json::Value) -> (s: String)
    ensures
        s@ == compact_text(value_tree(*v)),
{
    v.to_string()
}

/// Copies a `serde_json::Value` into a [`Json`] with the same tree.
fn lift(v: &serde_json::Value) -> (j: Json)
    ensures
        j@ == value_tree(*v),
    decreases value_tree(*v),
{
    match peek(v) {
        NodeRef::Null => Json::Null,
        NodeRef::Bool(b) => Json::Bool(b),
        NodeRef::Number(n) => Json::Number(n.clone()),
        NodeRef::Text(s) => Json::Text(s.clone()),
        NodeRef::Array(items) => {
            let mut out: Vec<Json> = Vec::new();
            let mut i: usize = 0;
            while i < items.len()
                invariant
                    value_tree(*v) == NodeRef::Array(items).tree(),
                    i <= items.len(),
                    out.len() == i,
                    forall|k: int| 0 <= k < i ==> (#[trigger] out@[k])@ == value_tree(items@[k]),
                decreases items.len() - i,
            {
                proof {
                    let children = value_tree(*v)->Array_0;
                    assert(decreases_to!(value_tree(*v) => children));
                    assert(decreases_to!(children => children[i as int]));
                    assert(children[i as int] == value_tree(items@[i as int]));
                }
                let child = lift(&items[i]);
                out.push(child);
                i += 1;
            }
            assert(Json::Array(out)@->Array_0 =~= value_tree(*v)->Array_0);
            Json::Array(out)
        },
        NodeRef::Object(entries) => {
            let mut out = JsonObject::new();
            let mut i: usize = 0;
            while i < entries.len()
                invariant
                    value_tree(*v) == NodeRef::Object(entries).tree(),
                    distinct_keys(value_tree(*v)->Object_0),
                    i <= entries.len(),
                    out@ == value_tree(*v)->Object_0.take(i as int),
                decreases entries.len() - i,
            {
                let ghost all = value_tree(*v)->Object_0;
                proof {
                    assert(decreases_to!(value_tree(*v) => all));
                    assert(decreases_to!(all => all[i as int]));
                    assert(decreases_to!(all[i as int] => all[i as int].1));
                    assert(all[i as int].1 == value_tree(*entries@[i as int].1));
                }
                let key = entries[i].0.clone();
                let child = lift(entries[i].1);
                proof {
                    let before = all.take(i as int);
                    lemma_key_index(before, key@);
                    assert forall|k: int| 0 <= k < before.len() implies (#[trigger] before[k]).0
                        != key@ by {
                        assert(before[k] == all[k]);
                    }
                    assert(before.push((key@, child@)) =~= all.take(i + 1));
                }
                out.append(key, child);
                i += 1;
            }
            assert(out@ =~= value_tree(*v)->Object_0);
            Json::Object(out)
        },
    }
}

/// Copies a [`Json`] into a `serde_json::Value` with the same tree.
fn lower(j: &Json) -> (v: serde_json::Value)
    ensures
        value_tree(v) == j@,
    decreases j@,
{
    match j {
        Json::Null => seal(Node::Null),
        Json::Bool(b) => seal(Node::Bool(*b)),
        Json::Number(n) => seal(Node::Number(n.clone())),
        Json::Text(s) => seal(Node::Text(s.clone())),
        Json::Array(items) => {
            let mut out: Vec<serde_json::Value> = Vec::new();
            let mut i: usize = 0;
            while i < items.len()
                invariant
                    *j == Json::Array(*items),
                    i <= items.len(),
                    out.len() == i,
                    forall|k: int| 0 <= k < i ==> value_tree(#[trigger] out@[k]) == items@[k]@,
                decreases items.len() - i,
            {
                proof {
                    let children = j@->Array_0;
                    assert(decreases_to!(j@ => children));
                    assert(decreases_to!(children => children[i as int]));
                }
                let child = lower(&items[i]);
                out.push(child);
                i += 1;
            }
            let ghost node = Node::Array(out);
            assert(node.tree()->Array_0 =~= j@->Array_0);
            seal(Node::Array(out))
        },
        Json::Object(obj) => {
            let n = obj.len();
            let mut out: Vec<(String, serde_json::Value)> = Vec::new();
            let mut i: usize = 0;
            while i < n
                invariant
                    j@ == JsonTree::Object(obj@),
                    n == obj@.len(),
                    i <= n,
                    out.len() == i,
                    forall|k: int|
                        0 <= k < i ==> (#[trigger] out@[k]).0@ == obj@[k].0 && value_tree(out@[k].1)
                            == obj@[k].1,
                decreases n - i,
            {
                proof {
                    let all = j@->Object_0;
                    assert(decreases_to!(j@ => all));
                    assert(decreases_to!(all => all[i as int]));
                    assert(decreases_to!(all[i as int] => all[i as int].1));
                }
                let key = obj.key(i).clone();
                let child = lower(obj.value(i));
                out.push((key, child));
                i += 1;
            }
            let ghost node = Node::Object(out);
            assert(node.tree()->Object_0 =~= obj@);
            seal(Node::Object(out))
        },
    }
}

/// Parses bytes as a structured value, as `serde_json::from_slice` does.
pub fn try_parse_json_bytes(part: &[u8]) -> (r: Option<Json>)
    ensures
        match r {
            Some(j) => parsed_bytes(part@) == Some(j@),
            None => parsed_bytes(part@) is None,
        },
{
    match parse_slice(part) {
        Some(v) => Some(lift(&v)),
        None => None,
    }
}

/// Parses text as a structured value, as `serde_json::from_str` does.
pub fn try_parse_json_str(s: &str) -> (r: Option<Json>)
    ensures
        match r {
            Some(j) => parsed_text(s@) == Some(j@),
            None => parsed_text(s@) is None,
        },
{
    match parse_str(s) {
        Some(v) => Some(lift(&v)),
        None => None,
    }
}

/// The text that a tree is shown as: the pretty form, or the compact form
/// where the pretty printer reports an error.
pub open spec fn rendered(tree: JsonTree) -> Seq<char> {
    match pretty_text(tree) {
        Some(text) => text,
        None => compact_text(tree),
    }
}

/// Prints a value on one line, as the `Display` of serde_json does.
pub fn render_compact(value: &Json) -> (s: String)
    ensures
        s@ == compact_text(value@),
{
    let v = lower(value);
    print_compact(&v)
}

/// Prints a value as it stands, without cropping: indented, as
/// `serde_json::to_string_pretty` does, or on one line where that fails.
pub fn render(value: &Json) -> (s: String)
    ensures
        s@ == rendered(value@),
{
    let v = lower(value);
    match print_pretty(&v) {
        Some(text) => text,
        None => print_compact(&v),
    }
}

} // verus!
