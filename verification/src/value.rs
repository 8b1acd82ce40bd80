//! The data that the walker reads and builds, and its mathematical model.
use vstd::prelude::*;

verus! {

/// A nested value as a host hands it over.
///
/// A mapping is a list of pairs and nothing more: it keeps the order in which the
/// pairs were inserted, and nothing asks that its keys differ from one another.
#[derive(Debug, PartialEq, Eq)]
pub enum Value {
    /// Key and value pairs in insertion order; a key is held by its text.
    Mapping(Vec<(String, Value)>),
    /// An ordered list of values.
    Sequence(Vec<Value>),
    /// An interned token, held by its text.
    AtomicSymbol(String),
    /// A plain string.
    Text(String),
    /// Anything else, held by the handle under which the host knows it.
    Opaque(usize),
}

/// The mathematical model of a [`Value`]: the same five categories over
/// sequences of characters and sequences of trees.
pub ghost enum Tree {
    Mapping(Seq<(Seq<char>, Tree)>),
    Sequence(Seq<Tree>),
    AtomicSymbol(Seq<char>),
    Text(Seq<char>),
    Opaque(usize),
}

/// What is left of a [`Tree`] when every text in it is forgotten: the category
/// of each node, the number of pairs of each mapping and of elements of each
/// sequence, and their order.
pub ghost enum Shape {
    Mapping(Seq<Shape>),
    Sequence(Seq<Shape>),
    AtomicSymbol,
    Text,
    Opaque,
}

/// The tree that models `value`: each string by its characters, each list by
/// the sequence of the models of what it holds.
pub open spec fn tree_of(value: Value) -> Tree
    decreases value,
{
    match value {
        Value::Mapping(entries) => Tree::Mapping(
            Seq::new(
                entries.len() as nat,
                |i: int|
                    if 0 <= i < entries.len() {
                        (entries[i].0@, tree_of(entries[i].1))
                    } else {
                        (Seq::empty(), Tree::Opaque(0))
                    },
            ),
        ),
        Value::Sequence(items) => Tree::Sequence(
            Seq::new(
                items.len() as nat,
                |i: int|
                    if 0 <= i < items.len() {
                        tree_of(items[i])
                    } else {
                        Tree::Opaque(0)
                    },
            ),
        ),
        Value::AtomicSymbol(name) => Tree::AtomicSymbol(name@),
        Value::Text(text) => Tree::Text(text@),
        Value::Opaque(handle) => Tree::Opaque(handle),
    }
}

impl View for Value {
    type V = Tree;

    open spec fn view(&self) -> Tree {
        tree_of(*self)
    }
}

/// The model of the pairs of a mapping.
pub open spec fn entries_view(entries: Seq<(String, Value)>) -> Seq<(Seq<char>, Tree)> {
    Seq::new(entries.len(), |i: int| (entries[i].0@, entries[i].1@))
}

/// The model of the elements of a sequence.
pub open spec fn items_view(items: Seq<Value>) -> Seq<Tree> {
    Seq::new(items.len(), |i: int| items[i]@)
}

/// A mapping is modelled by the models of its pairs.
pub proof fn lemma_mapping_view(entries: Vec<(String, Value)>)
    ensures
        Value::Mapping(entries)@ == Tree::Mapping(entries_view(entries@)),
{
    assert(Value::Mapping(entries)@->Mapping_0 =~= entries_view(entries@));
}

/// A sequence is modelled by the models of its elements.
pub proof fn lemma_sequence_view(items: Vec<Value>)
    ensures
        Value::Sequence(items)@ == Tree::Sequence(items_view(items@)),
{
    assert(Value::Sequence(items)@->Sequence_0 =~= items_view(items@));
}

impl Tree {
    /// The shape of this tree. A mapping's shape lists the shapes of its values
    /// in order; its keys are text and leave no trace.
    pub open spec fn shape(self) -> Shape
        decreases self,
    {
        match self {
            Tree::Mapping(entries) => Shape::Mapping(
                Seq::new(
                    entries.len(),
                    |i: int|
                        if 0 <= i < entries.len() {
                            entries[i].1.shape()
                        } else {
                            Shape::Opaque
                        },
                ),
            ),
            Tree::Sequence(items) => Shape::Sequence(
                Seq::new(
                    items.len(),
                    |i: int|
                        if 0 <= i < items.len() {
                            items[i].shape()
                        } else {
                            Shape::Opaque
                        },
                ),
            ),
            Tree::AtomicSymbol(_) => Shape::AtomicSymbol,
            Tree::Text(_) => Shape::Text,
            Tree::Opaque(_) => Shape::Opaque,
        }
    }
}

/// Copies the pairs of a mapping, each value in depth.
fn clone_entries(entries: &Vec<(String, Value)>) -> (copy: Vec<(String, Value)>)
    ensures
        entries_view(copy@) == entries_view(entries@),
    decreases entries, 0nat,
{
    let mut copy: Vec<(String, Value)> = Vec::new();
    let mut i: usize = 0;
    while i < entries.len()
        invariant
            i <= entries.len(),
            copy.len() == i,
            forall|j: int| 0 <= j < i ==> copy[j].0@ == entries[j].0@ && copy[j].1@ == entries[j].1@,
        decreases entries.len() - i,
    {
        let entry = &entries[i];
        let key = entry.0.clone();
        let value = entry.1.clone();
        copy.push((key, value));
        i += 1;
    }
    assert(entries_view(copy@) =~= entries_view(entries@));
    copy
}

/// Copies the elements of a sequence, each in depth.
fn clone_items(items: &Vec<Value>) -> (copy: Vec<Value>)
    ensures
        items_view(copy@) == items_view(items@),
    decreases items, 0nat,
{
    let mut copy: Vec<Value> = Vec::new();
    let mut i: usize = 0;
    while i < items.len()
        invariant
            i <= items.len(),
            copy.len() == i,
            forall|j: int| 0 <= j < i ==> copy[j]@ == items[j]@,
        decreases items.len() - i,
    {
        let item = items[i].clone();
        copy.push(item);
        i += 1;
    }
    assert(items_view(copy@) =~= items_view(items@));
    copy
}

impl Clone for Value {
    /// A copy in depth: a fresh value with the same model.
    fn clone(&self) -> (copy: Self)
        ensures
            copy@ == self@,
        decreases self, 1nat,
    {
        match self {
            Value::Mapping(entries) => {
                let copy = clone_entries(entries);
                proof {
                    lemma_mapping_view(*entries);
                    lemma_mapping_view(copy);
                }
                Value::Mapping(copy)
            },
            Value::Sequence(items) => {
                let copy = clone_items(items);
                proof {
                    lemma_sequence_view(*items);
                    lemma_sequence_view(copy);
                }
                Value::Sequence(copy)
            },
            Value::AtomicSymbol(name) => Value::AtomicSymbol(name.clone()),
            Value::Text(text) => Value::Text(text.clone()),
            Value::Opaque(handle) => Value::Opaque(*handle),
        }
    }
}

} // verus!
