use vstd::prelude::*;

use crate::config::document::{
    distinct_keys, entries_map, items_trees, lemma_items_trees, tree_of, values_wf, Document, Tree,
};

verus! {

/// A value as the `toml` crate holds it.
#[verifier::external_type_specification]
#[verifier::external_body]
pub struct ExTomlValue(toml::Value);

/// The parse error of the `toml` crate.
#[verifier::external_type_specification]
#[verifier::external_body]
pub struct ExTomlError(toml::de::Error);

/// What `toml::from_str` makes of a text: the document, or nothing where
/// the text is refused.
pub uninterp spec fn toml_parsed(text: Seq<char>) -> Option<Tree>;

/// What a value of the `toml` crate holds.
pub uninterp spec fn toml_tree(value: toml::Value) -> Tree;

/// How deep the arrays and tables of a value of the `toml` crate are
/// nested.
pub uninterp spec fn toml_depth(value: toml::Value) -> nat;

/// A value of the `toml` crate, taken apart one level deep.
pub enum TomlNode {
    Text(String),
    Integer(i64),
    Real(u64),
    Boolean(bool),
    Datetime(String),
    Array(Vec<toml::Value>),
    Table(Vec<(String, toml::Value)>),
}

/// What the items of an array hold, in their order.
pub open spec fn array_trees(items: Seq<toml::Value>) -> Seq<Tree> {
    Seq::new(items.len(), |i: int| toml_tree(items[i]))
}

/// The map that the entries of a table stand for.
pub open spec fn table_map(entries: Seq<(String, toml::Value)>) -> Map<Seq<char>, Tree>
    decreases entries.len(),
{
    if entries.len() == 0 {
        Map::empty()
    } else {
        table_map(entries.drop_last()).insert(entries.last().0@, toml_tree(entries.last().1))
    }
}

/// No key stands twice among the entries of a table.
pub open spec fn distinct_names(entries: Seq<(String, toml::Value)>) -> bool {
    forall|i: int, j: int|
        0 <= i < j < entries.len() ==> (#[trigger] entries[i]).0@ != (#[trigger] entries[j]).0@
}

impl TomlNode {
    /// What the node holds.
    pub open spec fn tree(self) -> Tree {
        match self {
            TomlNode::Text(text) => Tree::Text(text@),
            TomlNode::Integer(number) => Tree::Integer(number as int),
            TomlNode::Real(bits) => Tree::Real(bits),
            TomlNode::Boolean(flag) => Tree::Boolean(flag),
            TomlNode::Datetime(text) => Tree::Datetime(text@),
            TomlNode::Array(items) => Tree::Sequence(array_trees(items@)),
            TomlNode::Table(entries) => Tree::Mapping(table_map(entries@)),
        }
    }

    /// Every value within the node is nested less deeply than `depth`, and
    /// no key of a table stands twice.
    pub open spec fn within(self, depth: nat) -> bool {
        match self {
            TomlNode::Array(items) => forall|i: int|
                0 <= i < items.len() ==> toml_depth(#[trigger] items[i]) < depth,
            TomlNode::Table(entries) => distinct_names(entries@) && forall|i: int|
                0 <= i < entries.len() ==> toml_depth((#[trigger] entries[i]).1) < depth,
            _ => true,
        }
    }
}

/// `toml::from_str`, read as a whole document. The outcome depends on the
/// text alone; what it is for a given text is not stated here.
#[verifier::external_body]
pub(crate) fn parse_toml(text: &str) -> (parsed: Result<toml::Value, toml::de::Error>)
    ensures
        match parsed {
            Ok(value) => toml_parsed(text@) == Some(toml_tree(value)),
            Err(_) => toml_parsed(text@) is None,
        },
{
    toml::from_str::<toml::Value>(text)
}

/// Takes a value of the `toml` crate apart, one level deep: a float is
/// handed out by its bits, a date by its text, an array as its items and a
/// table as its entries. The value holds what the parts hold; the parts are
/// nested less deeply than the value, and a table holds each key once.
#[verifier::external_body]
pub(crate) fn toml_node(value: toml::Value) -> (node: TomlNode)
    ensures
        node.tree() == toml_tree(value),
        node.within(toml_depth(value)),
{
    match value {
        toml::Value::String(text) => TomlNode::Text(text),
        toml::Value::Integer(number) => TomlNode::Integer(number),
        toml::Value::Float(number) => TomlNode::Real(number.to_bits()),
        toml::Value::Boolean(flag) => TomlNode::Boolean(flag),
        toml::Value::Datetime(date) => TomlNode::Datetime(date.to_string()),
        toml::Value::Array(items) => TomlNode::Array(items),
        toml::Value::Table(table) => TomlNode::Table(table.into_iter().collect()),
    }
}

/// The entries of a table and the entries of a document that hold the same
/// under the same keys stand for the same map.
proof fn lemma_table_alike(names: Seq<(String, toml::Value)>, entries: Seq<(String, Document)>)
    requires
        names.len() == entries.len(),
        forall|i: int|
            0 <= i < names.len() ==> (#[trigger] names[i]).0@ == entries[i].0@ && toml_tree(
                names[i].1,
            ) == tree_of(entries[i].1),
    ensures
        table_map(names) == entries_map(entries),
        distinct_names(names) ==> distinct_keys(entries),
    decreases names.len(),
{
    if names.len() > 0 {
        assert forall|i: int| 0 <= i < names.drop_last().len() implies (
        #[trigger] names.drop_last()[i]).0@ == entries.drop_last()[i].0@ && toml_tree(
            names.drop_last()[i].1,
        ) == tree_of(entries.drop_last()[i].1) by {
            assert(names.drop_last()[i] == names[i]);
            assert(entries.drop_last()[i] == entries[i]);
        }
        lemma_table_alike(names.drop_last(), entries.drop_last());
        assert(names[names.len() - 1].0@ == entries[names.len() - 1].0@);
    }
    if distinct_names(names) {
        assert forall|i: int, j: int| 0 <= i < j < entries.len() implies (#[trigger] entries[i]).0@
            != (#[trigger] entries[j]).0@ by {
            assert(names[i].0@ == entries[i].0@ && names[j].0@ == entries[j].0@);
        }
    }
}

/// Moves a value of the `toml` crate into a document.
pub fn document_of_toml(value: toml::Value) -> (doc: Document)
    ensures
        doc.wf(),
        doc@ == toml_tree(value),
    decreases toml_depth(value),
{
    let ghost depth = toml_depth(value);
    match toml_node(value) {
        TomlNode::Text(text) => Document::Text(text),
        TomlNode::Integer(number) => Document::Integer(number),
        TomlNode::Real(bits) => Document::Real(bits),
        TomlNode::Boolean(flag) => Document::Boolean(flag),
        TomlNode::Datetime(text) => Document::Datetime(text),
        TomlNode::Array(items) => {
            let ghost given = items@;
            let mut items = items;
            let mut docs: Vec<Document> = Vec::new();
            while items.len() > 0
                invariant
                    depth == toml_depth(value),
                    items@ == given.take(items.len() as int),
                    forall|i: int| 0 <= i < given.len() ==> toml_depth(#[trigger] given[i]) < depth,
                    docs.len() == given.len() - items.len(),
                    forall|i: int|
                        0 <= i < docs.len() ==> (#[trigger] docs[i]).wf() && tree_of(docs[i])
                            == toml_tree(given[items.len() + i]),
                decreases items.len(),
            {
                let ghost before = docs@;
                let item = items.pop().unwrap();
                assert(item == given[items.len() as int]);
                let doc = document_of_toml(item);
                docs.insert(0, doc);
                proof {
                    assert(items@ =~= given.take(items.len() as int));
                    assert forall|i: int| 0 <= i < docs.len() implies (#[trigger] docs[i]).wf()
                        && tree_of(docs[i]) == toml_tree(given[items.len() + i]) by {
                        if i > 0 {
                            assert(docs[i] == before[i - 1]);
                        }
                    }
                }
            }
            proof {
                lemma_items_trees(docs@);
                assert(items_trees(docs@) =~= array_trees(given));
            }
            Document::Sequence(docs)
        },
        TomlNode::Table(table) => {
            let ghost given = table@;
            let mut table = table;
            let mut entries: Vec<(String, Document)> = Vec::new();
            while table.len() > 0
                invariant
                    depth == toml_depth(value),
                    table@ == given.take(table.len() as int),
                    forall|i: int|
                        0 <= i < given.len() ==> toml_depth((#[trigger] given[i]).1) < depth,
                    entries.len() == given.len() - table.len(),
                    forall|i: int|
                        0 <= i < entries.len() ==> (#[trigger] entries[i]).1.wf() && entries[i].0@
                            == given[table.len() + i].0@ && tree_of(entries[i].1) == toml_tree(
                            given[table.len() + i].1,
                        ),
                decreases table.len(),
            {
                let ghost before = entries@;
                let entry = table.pop().unwrap();
                assert(entry == given[table.len() as int]);
                let doc = document_of_toml(entry.1);
                entries.insert(0, (entry.0, doc));
                proof {
                    assert(table@ =~= given.take(table.len() as int));
                    assert forall|i: int| 0 <= i < entries.len() implies (
                    #[trigger] entries[i]).1.wf() && entries[i].0@ == given[table.len() + i].0@
                        && tree_of(entries[i].1) == toml_tree(given[table.len() + i].1) by {
                        if i > 0 {
                            assert(entries[i] == before[i - 1]);
                        }
                    }
                }
            }
            proof {
                lemma_table_alike(given, entries@);
                assert(values_wf(entries@));
            }
            Document::Mapping(entries)
        },
    }
}

/// Reads a TOML text as a document.
pub fn read_toml(text: &str) -> (parsed: Result<Document, toml::de::Error>)
    ensures
        match parsed {
            Ok(doc) => doc.wf() && toml_parsed(text@) == Some(doc@),
            Err(_) => toml_parsed(text@) is None,
        },
{
    match parse_toml(text) {
        Ok(value) => Ok(document_of_toml(value)),
        Err(error) => Err(error),
    }
}

} // verus!
