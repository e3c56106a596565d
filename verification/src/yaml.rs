//! YAML documents as plain trees. Reading and writing YAML text is the work
//! of `serde_yaml`; what a document holds is modelled here, so that the rules
//! on front matter and macros are verified over the tree.

use vstd::prelude::*;
use serde_yaml::Value;
use crate::text::{chars_of, same_chars};

verus! {

/// A YAML value as `serde_yaml` represents it.
#[verifier::external_type_specification]
#[verifier::external_body]
pub struct ExYamlValue(serde_yaml::Value);

/// A node of a YAML document, with one variant for each kind of value that
/// `serde_yaml` tells apart.
#[derive(Debug, PartialEq, Eq)]
pub enum YamlNode {
    /// `null`, `~` or nothing.
    Null,
    /// `true` or `false`.
    Bool(bool),
    /// A number, by its text.
    Number(String),
    /// A string.
    Text(String),
    /// A sequence.
    Sequence(Vec<YamlNode>),
    /// A mapping, in the order of the document.
    Mapping(Vec<YamlEntry>),
    /// A value with a tag.
    Tagged(String, Box<YamlNode>),
}

/// One entry of a mapping.
#[derive(Debug, PartialEq, Eq)]
pub struct YamlEntry {
    pub key: YamlNode,
    pub value: YamlNode,
}

/// The mathematical value of a node.
pub enum YamlView {
    Null,
    Bool(bool),
    Number(Seq<char>),
    Text(Seq<char>),
    Sequence(Seq<YamlView>),
    Mapping(Seq<YamlEntryView>),
    Tagged(Seq<char>, Box<YamlView>),
}

/// The mathematical value of an entry.
pub struct YamlEntryView {
    pub key: YamlView,
    pub value: YamlView,
}

/// The line and column at which reading a document failed, where they are
/// known.
pub type YamlFault = Option<(usize, usize)>;

/// The value of a node.
pub open spec fn node_view(n: YamlNode) -> YamlView
    decreases n,
{
    match n {
        YamlNode::Null => YamlView::Null,
        YamlNode::Bool(b) => YamlView::Bool(b),
        YamlNode::Number(s) => YamlView::Number(s@),
        YamlNode::Text(s) => YamlView::Text(s@),
        YamlNode::Sequence(items) => YamlView::Sequence(nodes_view(items@)),
        YamlNode::Mapping(entries) => YamlView::Mapping(entries_view(entries@)),
        YamlNode::Tagged(tag, inner) => YamlView::Tagged(tag@, Box::new(node_view(*inner))),
    }
}

/// The values of a sequence of nodes, one for one.
pub open spec fn nodes_view(v: Seq<YamlNode>) -> Seq<YamlView>
    decreases v,
{
    if v.len() == 0 {
        Seq::empty()
    } else {
        nodes_view(v.drop_last()).push(node_view(v.last()))
    }
}

/// The value of an entry.
pub open spec fn entry_view(e: YamlEntry) -> YamlEntryView
    decreases e,
{
    YamlEntryView { key: node_view(e.key), value: node_view(e.value) }
}

/// The values of a sequence of entries, one for one.
pub open spec fn entries_view(v: Seq<YamlEntry>) -> Seq<YamlEntryView>
    decreases v,
{
    if v.len() == 0 {
        Seq::empty()
    } else {
        entries_view(v.drop_last()).push(entry_view(v.last()))
    }
}

impl View for YamlNode {
    type V = YamlView;

    open spec fn view(&self) -> YamlView {
        node_view(*self)
    }
}

impl View for YamlEntry {
    type V = YamlEntryView;

    open spec fn view(&self) -> YamlEntryView {
        entry_view(*self)
    }
}

/// `nodes_view` keeps the length and maps each node to its value.
pub proof fn lemma_nodes_view(v: Seq<YamlNode>)
    ensures
        nodes_view(v).len() == v.len(),
        forall|i: int| 0 <= i < v.len() ==> #[trigger] nodes_view(v)[i] == node_view(v[i]),
    decreases v.len(),
{
    if v.len() > 0 {
        lemma_nodes_view(v.drop_last());
    }
}

/// `entries_view` keeps the length and maps each entry to its value.
pub proof fn lemma_entries_view(v: Seq<YamlEntry>)
    ensures
        entries_view(v).len() == v.len(),
        forall|i: int| 0 <= i < v.len() ==> #[trigger] entries_view(v)[i] == entry_view(v[i]),
    decreases v.len(),
{
    if v.len() > 0 {
        lemma_entries_view(v.drop_last());
    }
}

/// What `serde_yaml::from_str` makes of a text: the document it holds, or
/// the place of the fault.
pub uninterp spec fn yaml_document(text: Seq<char>) -> Result<YamlView, YamlFault>;

/// The tree that a `serde_yaml::Value` holds.
pub uninterp spec fn yaml_value_view(value: Value) -> YamlView;

/// The text that `serde_yaml::to_string` writes for a tree, where it writes
/// one.
pub uninterp spec fn yaml_text(node: YamlView) -> Option<Seq<char>>;

/// A mapping that this library writes: its keys are strings, no two of them
/// equal, and each value is null, a boolean, a string or a sequence of
/// strings.
pub open spec fn writable(node: YamlView) -> bool {
    &&& node is Mapping
    &&& forall|i: int|
        0 <= i < node->Mapping_0.len() ==> (#[trigger] node->Mapping_0[i]).key is Text
    &&& forall|i: int, j: int|
        0 <= i < j < node->Mapping_0.len() ==> (#[trigger] node->Mapping_0[i]).key != (
        #[trigger] node->Mapping_0[j]).key
    &&& forall|i: int|
        0 <= i < node->Mapping_0.len() ==> writable_value((#[trigger] node->Mapping_0[i]).value)
}

/// A value of a mapping that this library writes.
pub open spec fn writable_value(node: YamlView) -> bool {
    match node {
        YamlView::Null => true,
        YamlView::Bool(_) => true,
        YamlView::Text(_) => true,
        YamlView::Sequence(items) => forall|i: int|
            0 <= i < items.len() ==> #[trigger] items[i] is Text,
        _ => false,
    }
}

/// Calls `serde_yaml::from_str` for a `serde_yaml::Value`. The contract
/// claims that the outcome depends on the text alone: either the value holds
/// the tree named `yaml_document`, or the call failed and the line and column
/// of the fault, where the error has them, are the ones named there.
#[verifier::external_body]
fn yaml_load(text: &str) -> (r: Result<Value, YamlFault>)
    ensures
        match r {
            Ok(value) => yaml_document(text@) == Ok::<YamlView, YamlFault>(yaml_value_view(value)),
            Err(fault) => yaml_document(text@) == Err::<YamlView, YamlFault>(fault),
        },
{
    serde_yaml::from_str::<Value>(text).map_err(|e| e.location().map(|l| (l.line(), l.column())))
}

/// Copies a `serde_yaml::Value` into a node, variant for variant. A number
/// is kept by the text that `serde_yaml` displays for it, a tag likewise.
/// The contract claims that the node is the tree that the value holds.
#[verifier::external_body]
fn node_of_value(value: &Value) -> (node: YamlNode)
    ensures
        node@ == yaml_value_view(*value),
{
    match value {
        Value::Null => YamlNode::Null,
        Value::Bool(b) => YamlNode::Bool(*b),
        Value::Number(n) => YamlNode::Number(n.to_string()),
        Value::String(s) => YamlNode::Text(s.clone()),
        Value::Sequence(items) => YamlNode::Sequence(items.iter().map(node_of_value).collect()),
        Value::Mapping(m) => YamlNode::Mapping(
            m.iter().map(|(k, v)| YamlEntry { key: node_of_value(k), value: node_of_value(v) }).collect(),
        ),
        Value::Tagged(t) => YamlNode::Tagged(t.tag.to_string(), Box::new(node_of_value(&t.value))),
    }
}

/// Copies a node into a `serde_yaml::Value`, variant for variant. The
/// contract claims, of a mapping that this library writes, that the value
/// holds the node's tree: such a mapping has no two equal keys, so none is
/// lost, and it holds neither a number nor a tag.
#[verifier::external_body]
fn value_of_node(node: &YamlNode) -> (value: Value)
    requires
        writable(node@) || writable_value(node@),
    ensures
        yaml_value_view(value) == node@,
{
    match node {
        YamlNode::Bool(b) => Value::Bool(*b),
        YamlNode::Text(s) => Value::String(s.clone()),
        YamlNode::Sequence(items) => Value::Sequence(items.iter().map(value_of_node).collect()),
        YamlNode::Mapping(entries) => Value::Mapping(
            entries.iter().map(|e| (value_of_node(&e.key), value_of_node(&e.value))).collect(),
        ),
        _ => Value::Null,
    }
}

/// Calls `serde_yaml::to_string` on a `serde_yaml::Value`. The contract
/// claims, of a mapping that this library writes, that the outcome depends
/// on the tree alone: the text named `yaml_text`, or none where the call
/// failed.
#[verifier::external_body]
fn yaml_dump(value: &Value) -> (r: Option<String>)
    requires
        writable(yaml_value_view(*value)),
    ensures
        match r {
            Some(text) => yaml_text(yaml_value_view(*value)) == Some(text@),
            None => yaml_text(yaml_value_view(*value)) is None,
        },
{
    serde_yaml::to_string(value).ok()
}

/// The outcome of reading a document, by the values of its parts.
pub open spec fn outcome_view(r: Result<YamlNode, YamlFault>) -> Result<YamlView, YamlFault> {
    match r {
        Ok(node) => Ok(node@),
        Err(fault) => Err(fault),
    }
}

/// Reads a YAML document.
pub fn parse_yaml(text: &str) -> (r: Result<YamlNode, YamlFault>)
    ensures
        outcome_view(r) == yaml_document(text@),
{
    match yaml_load(text) {
        Ok(value) => Ok(node_of_value(&value)),
        Err(fault) => Err(fault),
    }
}

/// Writes a mapping as YAML text.
pub fn emit_yaml(node: &YamlNode) -> (r: Option<String>)
    requires
        writable(node@),
    ensures
        match r {
            Some(text) => yaml_text(node@) == Some(text@),
            None => yaml_text(node@) is None,
        },
{
    let value = value_of_node(node);
    yaml_dump(&value)
}

/// The text of a scalar: of a string itself, of nothing the empty text, of
/// a number and of a boolean the text that `serde_yaml` writes for it, which
/// may differ from the document's (`1.50` is read as `1.5`, `True` as
/// `true`). Sequences, mappings and tagged values have none.
pub open spec fn scalar_text(node: YamlView) -> Option<Seq<char>> {
    match node {
        YamlView::Null => Some(Seq::empty()),
        YamlView::Text(s) => Some(s),
        YamlView::Number(s) => Some(s),
        YamlView::Bool(b) => Some(
            if b {
                "true"@
            } else {
                "false"@
            },
        ),
        _ => None,
    }
}

/// The value of the first entry whose key is the string `a` or the string
/// `b`.
pub open spec fn lookup(entries: Seq<YamlEntryView>, a: Seq<char>, b: Seq<char>) -> Option<
    YamlView,
>
    decreases entries.len(),
{
    if entries.len() == 0 {
        None
    } else if entries[0].key == YamlView::Text(a) || entries[0].key == YamlView::Text(b) {
        Some(entries[0].value)
    } else {
        lookup(entries.skip(1), a, b)
    }
}

/// An optional string under one of two keys: none where the key is missing
/// or its value is null, the text of a scalar, and a fault for anything else.
pub open spec fn optional_text(entries: Seq<YamlEntryView>, a: Seq<char>, b: Seq<char>) -> Result<
    Option<Seq<char>>,
    (),
> {
    match lookup(entries, a, b) {
        None => Ok(None),
        Some(YamlView::Null) => Ok(None),
        Some(node) => match scalar_text(node) {
            Some(text) => Ok(Some(text)),
            None => Err(()),
        },
    }
}

/// The text of a scalar node.
pub fn text_of_scalar(node: &YamlNode) -> (r: Option<String>)
    ensures
        match r {
            Some(s) => scalar_text(node@) == Some(s@),
            None => scalar_text(node@) is None,
        },
{
    match node {
        YamlNode::Null => Some(String::new()),
        YamlNode::Text(s) => Some(s.clone()),
        YamlNode::Number(s) => Some(s.clone()),
        YamlNode::Bool(b) => Some(
            if *b {
                "true".to_owned()
            } else {
                "false".to_owned()
            },
        ),
        _ => None,
    }
}

/// Whether a node is the string `a` or the string `b`.
fn is_key(node: &YamlNode, a: &str, b: &str) -> (r: bool)
    ensures
        r == (node@ == YamlView::Text(a@) || node@ == YamlView::Text(b@)),
{
    match node {
        YamlNode::Text(s) => {
            let t = chars_of(s.as_str());
            let ca = chars_of(a);
            let cb = chars_of(b);
            same_chars(&t, &ca) || same_chars(&t, &cb)
        },
        _ => false,
    }
}

/// The value of the first entry whose key is the string `a` or the string `b`.
pub fn find_entry<'a>(entries: &'a Vec<YamlEntry>, a: &str, b: &str) -> (r: Option<&'a YamlNode>)
    ensures
        match r {
            Some(node) => lookup(entries_view(entries@), a@, b@) == Some(node@),
            None => lookup(entries_view(entries@), a@, b@) is None,
        },
{
    let ghost all = entries_view(entries@);
    proof {
        lemma_entries_view(entries@);
    }
    assert(all.skip(0) == all);
    let mut i: usize = 0;
    while i < entries.len()
        invariant
            i <= entries.len(),
            all == entries_view(entries@),
            all.len() == entries.len(),
            forall|k: int| 0 <= k < entries.len() ==> #[trigger] all[k] == entries@[k]@,
            lookup(all, a@, b@) == lookup(all.skip(i as int), a@, b@),
        decreases entries.len() - i,
    {
        assert(all.skip(i as int)[0] == all[i as int]);
        if is_key(&entries[i].key, a, b) {
            return Some(&entries[i].value);
        }
        assert(all.skip(i as int).skip(1) == all.skip(i + 1));
        i += 1;
    }
    None
}

/// The outcome of looking for an optional string, by the values of its parts.
pub open spec fn optional_view(r: Result<Option<String>, ()>) -> Result<Option<Seq<char>>, ()> {
    match r {
        Ok(Some(s)) => Ok(Some(s@)),
        Ok(None) => Ok(None),
        Err(_) => Err(()),
    }
}

/// The optional string under the key `a` or the key `b`.
pub fn optional_entry(entries: &Vec<YamlEntry>, a: &str, b: &str) -> (r: Result<
    Option<String>,
    (),
>)
    ensures
        optional_view(r) == optional_text(entries_view(entries@), a@, b@),
{
    match find_entry(entries, a, b) {
        None => Ok(None),
        Some(node) => match node {
            YamlNode::Null => Ok(None),
            _ => match text_of_scalar(node) {
                Some(text) => Ok(Some(text)),
                None => Err(()),
            },
        },
    }
}

} // verus!
