//! Reading a response body into a [`Json`] document.
use crate::error::{Failure, WikiError};
use crate::json::{fields, lemma_array_view, lemma_object_view, trees, Json, Tree};
use vstd::prelude::*;

verus! {

/// A JSON value as `serde_json` holds it.
#[verifier::external_type_specification]
#[verifier::external_body]
pub struct ExValue(serde_json::Value);

/// The tree that `serde_json::from_str` reads from a text, or `None` where it
/// reports an error.
pub uninterp spec fn parsed_text(text: Seq<char>) -> Option<Tree>;

/// The tree that a `serde_json::Value` holds.
pub uninterp spec fn value_tree(v: serde_json::Value) -> Tree;

/// The trees of a sequence of values.
spec fn value_trees(items: Seq<serde_json::Value>) -> Seq<Tree> {
    Seq::new(items.len(), |i: int| value_tree(items[i]))
}

/// The keys and trees of a sequence of keyed values.
spec fn value_fields(members: Seq<(String, &serde_json::Value)>) -> Seq<
    (Seq<char>, Tree),
> {
    Seq::new(members.len(), |i: int| (members[i].0@, value_tree(*members[i].1)))
}

/// One level of a `serde_json::Value`: its variant, with what the variant
/// holds.
enum Shape<'a> {
    Null,
    Bool(bool),
    Number(String),
    Text(String),
    Array(&'a Vec<serde_json::Value>),
    Object(Vec<(String, &'a serde_json::Value)>),
}

impl<'a> Shape<'a> {
    /// The tree of the value that this is one level of.
    spec fn tree(self) -> Tree {
        match self {
            Shape::Null => Tree::Null,
            Shape::Bool(b) => Tree::Bool(b),
            Shape::Number(n) => Tree::Number(n@),
            Shape::Text(s) => Tree::Text(s@),
            Shape::Array(items) => Tree::Array(value_trees(items@)),
            Shape::Object(members) => Tree::Object(value_fields(members@)),
        }
    }
}

/// `serde_json::from_str`, read as a `serde_json::Value`. The contract names
/// the outcome: the same text always reads as the same tree, or always fails.
#[verifier::external_body]
fn read_value(text: &str) -> (r: Result<serde_json::Value, serde_json::Error>)
    ensures
        match r {
            Ok(v) => parsed_text(text@) == Some(value_tree(v)),
            Err(_) => parsed_text(text@) is None,
        },
{
    serde_json::from_str::<serde_json::Value>(text)
}

/// Tells the variants of `serde_json::Value` apart. A number is handed out
/// as the decimal text that its `Display` writes, an object as its members in
/// the order of `Map::iter`.
#[verifier::external_body]
fn shape_of<'a>(v: &'a serde_json::Value) -> (s: Shape<'a>)
    ensures
        s.tree() == value_tree(*v),
{
    match v {
        serde_json::Value::Null => Shape::Null,
        serde_json::Value::Bool(b) => Shape::Bool(*b),
        serde_json::Value::Number(n) => Shape::Number(n.to_string()),
        serde_json::Value::String(s) => Shape::Text(s.clone()),
        serde_json::Value::Array(a) => Shape::Array(a),
        serde_json::Value::Object(m) => Shape::Object(m.iter().map(|(k, c)| (k.clone(), c)).collect()),
    }
}

/// Copies a `serde_json::Value` into a [`Json`] document, level by level.
fn tree_from(v: &serde_json::Value) -> (j: Json)
    ensures
        j@ == value_tree(*v),
    decreases value_tree(*v),
{
    match shape_of(v) {
        Shape::Null => Json::Null,
        Shape::Bool(b) => Json::Bool(b),
        Shape::Number(n) => Json::Number(n),
        Shape::Text(s) => Json::Text(s),
        Shape::Array(items) => {
            let mut out: Vec<Json> = Vec::new();
            let mut i: usize = 0;
            while i < items.len()
                invariant
                    i <= items.len(),
                    out@.len() == i,
                    value_tree(*v) == Tree::Array(value_trees(items@)),
                    forall|k: int| 0 <= k < i ==> (#[trigger] out@[k])@ == value_tree(items@[k]),
                decreases items.len() - i,
            {
                proof {
                    let below = value_trees(items@);
                    assert(below[i as int] == value_tree(items@[i as int]));
                    let whole = value_tree(*v);
                    assert(decreases_to!(whole => whole->Array_0));
                    assert(decreases_to!(whole->Array_0 => whole->Array_0[i as int]));
                }
                let c = tree_from(&items[i]);
                out.push(c);
                i += 1;
            }
            proof {
                lemma_array_view(out);
                assert(trees(out@) =~= value_trees(items@));
            }
            Json::Array(out)
        },
        Shape::Object(members) => {
            let mut out: Vec<(String, Json)> = Vec::new();
            let mut i: usize = 0;
            while i < members.len()
                invariant
                    i <= members.len(),
                    out@.len() == i,
                    value_tree(*v) == Tree::Object(value_fields(members@)),
                    forall|k: int|
                        0 <= k < i ==> (#[trigger] out@[k]).0@ == members@[k].0@ && out@[k].1@
                            == value_tree(*members@[k].1),
                decreases members.len() - i,
            {
                proof {
                    let below = value_fields(members@);
                    assert(below[i as int] == (
                        members@[i as int].0@,
                        value_tree(*members@[i as int].1),
                    ));
                    let whole = value_tree(*v);
                    assert(decreases_to!(whole => whole->Object_0));
                    assert(decreases_to!(whole->Object_0 => whole->Object_0[i as int]));
                    assert(decreases_to!(whole->Object_0[i as int] => whole->Object_0[i as int].1));
                }
                let c = tree_from(members[i].1);
                out.push((members[i].0.clone(), c));
                i += 1;
            }
            proof {
                lemma_object_view(out);
                assert(fields(out@) =~= value_fields(members@));
            }
            Json::Object(out)
        },
    }
}

/// Reads a response body. Succeeds exactly on the texts that `serde_json`
/// accepts as a JSON document, with the tree that it reads from them.
pub fn decode(text: &str) -> (r: Result<Json, WikiError>)
    ensures
        match r {
            Ok(j) => parsed_text(text@) == Some(j@),
            Err(e) => parsed_text(text@) is None && e@ == Failure::Json,
        },
{
    match read_value(text) {
        Ok(v) => Ok(tree_from(&v)),
        Err(e) => Err(WikiError::JSONError(e)),
    }
}

} // verus!
