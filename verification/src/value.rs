//! The document model shared by YAML plans and JSON payloads, and the calls that
//! read and render it.
//!
//! Numbers are kept as the text that the parser prints for them, so that no
//! floating-point value enters the library.
use vstd::prelude::*;
use serde_yaml::Value as Y;

verus! {

/// A YAML or JSON value: a node of the document tree.
#[derive(Debug)]
pub enum Node {
    Null,
    Bool(bool),
    /// A number, as its canonical decimal text (e.g. `42`, `-7`, `2.5`).
    Number(String),
    String(String),
    Sequence(Vec<Node>),
    /// A mapping, its entries in document order.
    Mapping(Vec<(Node, Node)>),
    /// A YAML value with an explicit `!tag`.
    Tagged(String, Box<Node>),
}

/// `b` is a copy of `a`: the same tree, with the same texts at its leaves.
pub open spec fn copy_of(a: Node, b: Node) -> bool
    decreases a,
{
    match a {
        Node::Null => b is Null,
        Node::Bool(x) => b == Node::Bool(x),
        Node::Number(t) => b matches Node::Number(u) && u@ == t@,
        Node::String(t) => b matches Node::String(u) && u@ == t@,
        Node::Sequence(xs) => b matches Node::Sequence(ys) && ys@.len() == xs@.len() && forall|i: int|
            0 <= i < xs@.len() ==> copy_of(#[trigger] xs@[i], ys@[i]),
        Node::Mapping(xs) => b matches Node::Mapping(ys) && ys@.len() == xs@.len() && forall|i: int|
            0 <= i < xs@.len() ==> copy_of(#[trigger] xs@[i].0, ys@[i].0) && copy_of(xs@[i].1, ys@[i].1),
        Node::Tagged(t, x) => b matches Node::Tagged(u, y) && u@ == t@ && copy_of(*x, *y),
    }
}

impl Node {
    /// A copy of the whole tree.
    pub fn deep_clone(&self) -> (r: Node)
        ensures
            copy_of(*self, r),
        decreases self,
    {
        match self {
            Node::Null => Node::Null,
            Node::Bool(b) => Node::Bool(*b),
            Node::Number(t) => Node::Number(t.clone()),
            Node::String(s) => Node::String(s.clone()),
            Node::Sequence(items) => {
                let mut out: Vec<Node> = Vec::new();
                let mut i: usize = 0;
                while i < items.len()
                    invariant
                        i <= items@.len(),
                        *self == Node::Sequence(*items),
                        out@.len() == i,
                        forall|j: int| 0 <= j < i ==> copy_of(#[trigger] items@[j], out@[j]),
                    decreases items@.len() - i,
                {
                    proof {
                        assert(decreases_to!(*items => items@));
                        assert(decreases_to!(items@ => items@[i as int]));
                        assert(decreases_to!(*self => self->Sequence_0));
                    }
                    out.push(items[i].deep_clone());
                    i = i + 1;
                }
                Node::Sequence(out)
            },
            Node::Mapping(entries) => {
                let mut out: Vec<(Node, Node)> = Vec::new();
                let mut i: usize = 0;
                while i < entries.len()
                    invariant
                        i <= entries@.len(),
                        *self == Node::Mapping(*entries),
                        out@.len() == i,
                        forall|j: int| 0 <= j < i ==> copy_of(#[trigger] entries@[j].0, out@[j].0)
                            && copy_of(entries@[j].1, out@[j].1),
                    decreases entries@.len() - i,
                {
                    proof {
                        assert(decreases_to!(*entries => entries@));
                        assert(decreases_to!(entries@ => entries@[i as int]));
                        assert(decreases_to!(*self => self->Mapping_0));
                        assert(decreases_to!(entries@[i as int] => entries@[i as int].0));
                        assert(decreases_to!(entries@[i as int] => entries@[i as int].1));
                    }
                    let k = entries[i].0.deep_clone();
                    let v = entries[i].1.deep_clone();
                    out.push((k, v));
                    i = i + 1;
                }
                Node::Mapping(out)
            },
            Node::Tagged(t, inner) => Node::Tagged(t.clone(), Box::new(inner.deep_clone())),
        }
    }
}

/// Every `!tag` in the tree has a name: YAML has no syntax for an empty tag, and
/// serde_yaml refuses to build one.
pub open spec fn tags_named(n: Node) -> bool
    decreases n,
{
    match n {
        Node::Sequence(xs) => forall|i: int| 0 <= i < xs@.len() ==> tags_named(#[trigger] xs@[i]),
        Node::Mapping(xs) => forall|i: int|
            0 <= i < xs@.len() ==> tags_named(#[trigger] xs@[i].0) && tags_named(xs@[i].1),
        Node::Tagged(t, x) => t@.len() > 0 && tags_named(*x),
        _ => true,
    }
}

impl Node {
    /// Whether every `!tag` in the tree has a name.
    pub fn tags_are_named(&self) -> (b: bool)
        ensures
            b == tags_named(*self),
        decreases self,
    {
        match self {
            Node::Sequence(items) => {
                let mut i: usize = 0;
                while i < items.len()
                    invariant
                        i <= items@.len(),
                        *self == Node::Sequence(*items),
                        forall|j: int| 0 <= j < i ==> tags_named(#[trigger] items@[j]),
                    decreases items@.len() - i,
                {
                    proof {
                        assert(decreases_to!(*items => items@));
                        assert(decreases_to!(items@ => items@[i as int]));
                        assert(decreases_to!(*self => self->Sequence_0));
                    }
                    if !items[i].tags_are_named() {
                        return false;
                    }
                    i = i + 1;
                }
                true
            },
            Node::Mapping(entries) => {
                let mut i: usize = 0;
                while i < entries.len()
                    invariant
                        i <= entries@.len(),
                        *self == Node::Mapping(*entries),
                        forall|j: int| 0 <= j < i ==> tags_named(#[trigger] entries@[j].0) && tags_named(entries@[j].1),
                    decreases entries@.len() - i,
                {
                    proof {
                        assert(decreases_to!(*entries => entries@));
                        assert(decreases_to!(entries@ => entries@[i as int]));
                        assert(decreases_to!(*self => self->Mapping_0));
                        assert(decreases_to!(entries@[i as int] => entries@[i as int].0));
                        assert(decreases_to!(entries@[i as int] => entries@[i as int].1));
                    }
                    let key_ok = entries[i].0.tags_are_named();
                    let value_ok = entries[i].1.tags_are_named();
                    if !key_ok || !value_ok {
                        return false;
                    }
                    assert forall|j: int| 0 <= j < i + 1 implies tags_named(#[trigger] entries@[j].0)
                        && tags_named(entries@[j].1) by {
                        if j == i {
                            assert(entries@[j] == entries@[i as int]);
                        }
                    }
                    i = i + 1;
                }
                true
            },
            Node::Tagged(t, inner) => t.as_str().unicode_len() > 0 && inner.tags_are_named(),
            _ => true,
        }
    }
}

impl Clone for Node {
    fn clone(&self) -> Self {
        self.deep_clone()
    }
}

#[verifier::external_type_specification]
#[verifier::external_body]
pub struct ExYamlValue(serde_yaml::Value);

#[verifier::external_type_specification]
#[verifier::external_body]
pub struct ExJsonValue(serde_json::Value);

/// What `serde_yaml::from_str::<serde_yaml::Value>` makes of a text: the document,
/// or the text of the error it reports.
pub uninterp spec fn yaml_parse(text: Seq<char>) -> Result<Node, Seq<char>>;

/// What `serde_json::from_str::<serde_json::Value>` makes of a text, `None` when it
/// reports an error.
pub uninterp spec fn json_parse(text: Seq<char>) -> Option<Node>;

/// The compact JSON text that serde_json prints for a value.
pub uninterp spec fn json_text(v: Node) -> Seq<char>;

/// Converts a serde_yaml value into a `Node`, variant for variant; a tag is kept
/// as serde_yaml prints it (`!name`, never empty). Nothing is claimed of it.
#[verifier::external_body]
fn value_from_yaml(v: serde_yaml::Value) -> Node {
    match v {
        serde_yaml::Value::Null => Node::Null,
        serde_yaml::Value::Bool(b) => Node::Bool(b),
        serde_yaml::Value::Number(n) => Node::Number(n.to_string()),
        serde_yaml::Value::String(s) => Node::String(s),
        serde_yaml::Value::Sequence(items) => Node::Sequence(items.into_iter().map(value_from_yaml).collect()),
        serde_yaml::Value::Mapping(m) => Node::Mapping(m.into_iter().map(|(k, v)| (value_from_yaml(k), value_from_yaml(v))).collect()),
        serde_yaml::Value::Tagged(t) => Node::Tagged(t.tag.to_string(), Box::new(value_from_yaml(t.value))),
    }
}

/// Converts a serde_json value into a `Node`, variant for variant. Nothing is
/// claimed of it.
#[verifier::external_body]
fn value_from_json(v: serde_json::Value) -> Node {
    match v {
        serde_json::Value::Null => Node::Null,
        serde_json::Value::Bool(b) => Node::Bool(b),
        serde_json::Value::Number(n) => Node::Number(n.to_string()),
        serde_json::Value::String(s) => Node::String(s),
        serde_json::Value::Array(items) => Node::Sequence(items.into_iter().map(value_from_json).collect()),
        serde_json::Value::Object(m) => Node::Mapping(m.into_iter().map(|(k, v)| (Node::String(k), value_from_json(v))).collect()),
    }
}

/// Converts a `Node` into a serde_json value, variant for variant; a tag is
/// dropped and a number text that serde_json does not read becomes `null`.
/// Nothing is claimed of it.
#[verifier::external_body]
fn value_to_json(v: &Node) -> serde_json::Value {
    match v {
        Node::Null => serde_json::Value::Null,
        Node::Bool(b) => serde_json::Value::Bool(*b),
        Node::Number(t) => t.parse::<serde_json::Number>().map(serde_json::Value::Number).unwrap_or(serde_json::Value::Null),
        Node::String(s) => serde_json::Value::String(s.clone()),
        Node::Sequence(items) => serde_json::Value::Array(items.iter().map(value_to_json).collect()),
        Node::Mapping(es) => serde_json::Value::Object(es.iter().map(|(k, v)| (match k { Node::String(s) => s.clone(), other => value_to_json(other).to_string() }, value_to_json(v))).collect()),
        Node::Tagged(_, inner) => value_to_json(inner),
    }
}

/// Builds a tagged serde_yaml value with `serde_yaml::value::Tag::new`, which
/// panics on an empty tag, which its `requires` rules out. Nothing is claimed of
/// the value.
#[verifier::external_body]
fn tagged_yaml(tag: &str, value: serde_yaml::Value) -> serde_yaml::Value
    requires
        tag@.len() > 0,
{
    let tag = serde_yaml::value::Tag::new(tag);
    serde_yaml::Value::Tagged(Box::new(serde_yaml::value::TaggedValue { tag, value }))
}

/// Converts a `Node` into a serde_yaml value, variant for variant (tags through
/// `tagged_yaml`), for a tree whose tags all have names. Nothing is claimed of
/// the value.
#[verifier::external_body]
fn value_to_yaml(v: &Node) -> Y
    requires
        tags_named(*v),
{
    match v {
        Node::Null => Y::Null,
        Node::Bool(b) => Y::Bool(*b),
        Node::Number(t) => t.parse().map(Y::Number).unwrap_or(Y::Null),
        Node::String(s) => Y::String(s.clone()),
        Node::Sequence(items) => Y::Sequence(items.iter().map(value_to_yaml).collect()),
        Node::Mapping(es) => Y::Mapping(es.iter().map(|(k, v)| (value_to_yaml(k), value_to_yaml(v))).collect()),
        Node::Tagged(t, inner) => tagged_yaml(t, value_to_yaml(inner)),
    }
}

/// The text that `serde_json::to_string` writes for a YAML value, `None` when it
/// refuses the value.
pub uninterp spec fn yaml_json_text(v: Node) -> Option<Seq<char>>;

/// Writes a YAML value as JSON text with `serde_json::to_string`; the outcome is
/// the one that `yaml_json_text` names for the value. Building the YAML value
/// makes a `serde_yaml::value::Tag` for each tag, which panics on an empty name.
#[verifier::external_body]
pub(crate) fn yaml_to_json(v: &Node) -> (r: Option<String>)
    requires
        tags_named(*v),
    ensures
        match r {
            Some(s) => yaml_json_text(*v) == Some(s@),
            None => yaml_json_text(*v) is None,
        },
{
    serde_json::to_string(&value_to_yaml(v)).ok()
}

/// Parses a YAML document with `serde_yaml::from_str` into its untyped value.
/// The contract claims only that the outcome is the one that `yaml_parse` names for
/// this text: serde_yaml's reading of YAML is not restated here.
#[verifier::external_body]
pub(crate) fn parse_yaml(text: &str) -> (r: Result<Node, String>)
    ensures
        match r {
            Ok(v) => yaml_parse(text@) == Ok::<Node, Seq<char>>(v),
            Err(m) => yaml_parse(text@) == Err::<Node, Seq<char>>(m@),
        },
{
    match serde_yaml::from_str::<serde_yaml::Value>(text) {
        Ok(v) => Ok(value_from_yaml(v)),
        Err(e) => Err(e.to_string()),
    }
}

/// Parses a JSON text with `serde_json::from_str` into its untyped value; the
/// outcome is the one that `json_parse` names for this text.
#[verifier::external_body]
pub(crate) fn parse_json(text: &str) -> (r: Option<Node>)
    ensures
        r == json_parse(text@),
{
    serde_json::from_str::<serde_json::Value>(text).ok().map(value_from_json)
}

/// Prints a value as compact JSON with serde_json's `Display`; the text is the one
/// that `json_text` names for the value.
#[verifier::external_body]
pub(crate) fn render_json(v: &Node) -> (s: String)
    ensures
        s@ == json_text(*v),
{
    value_to_json(v).to_string()
}

} // verus!
