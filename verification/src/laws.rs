//! What holds of the walk on every tree and under every binding.
use vstd::prelude::*;
use crate::transform::{rekeyed, rekeyed_value, transformed, Binding};
use crate::value::Tree;

verus! {

/// Rewriting the pairs of a mapping keeps the mapping's shape: as many pairs,
/// in the same order, and every value with the shape that it had.
pub proof fn lemma_rekeyed_keeps_shape(entries: Seq<(Seq<char>, Tree)>, binding: Binding)
    ensures
        Tree::Mapping(rekeyed(entries, binding)).shape() == Tree::Mapping(entries).shape(),
    decreases entries,
{
    let rewritten = rekeyed(entries, binding);
    assert forall|i: int| 0 <= i < entries.len() implies rewritten[i].1.shape()
        == entries[i].1.shape() by {
        match entries[i].1 {
            Tree::Mapping(inner) => {
                lemma_rekeyed_keeps_shape(inner, binding);
            },
            _ => {},
        }
    }
    assert(Tree::Mapping(rewritten).shape()->Mapping_0 =~= Tree::Mapping(
        entries,
    ).shape()->Mapping_0);
}

/// The walk preserves structure: under every binding the result has the shape
/// of the input. Mappings keep the number and order of their pairs, sequences
/// the number and order of their elements, and every node its category.
pub proof fn lemma_transform_keeps_shape(tree: Tree, binding: Binding)
    ensures
        transformed(tree, binding).shape() == tree.shape(),
    decreases tree,
{
    match tree {
        Tree::Sequence(items) => {
            let walked = transformed(tree, binding)->Sequence_0;
            assert forall|i: int| 0 <= i < items.len() implies walked[i].shape()
                == items[i].shape() by {
                lemma_transform_keeps_shape(items[i], binding);
            }
            assert(transformed(tree, binding).shape()->Sequence_0 =~= tree.shape()->Sequence_0);
        },
        Tree::Mapping(entries) => {
            lemma_rekeyed_keeps_shape(entries, binding);
        },
        _ => {},
    }
}

/// Under the identity binding the pairs of a mapping come back as they were.
pub proof fn lemma_rekeyed_unaltered(entries: Seq<(Seq<char>, Tree)>)
    ensures
        rekeyed(entries, Binding::Unaltered) == entries,
    decreases entries,
{
    assert forall|i: int| 0 <= i < entries.len() implies rekeyed(entries, Binding::Unaltered)[i]
        == entries[i] by {
        match entries[i].1 {
            Tree::Mapping(inner) => {
                lemma_rekeyed_unaltered(inner);
            },
            _ => {},
        }
    }
    assert(rekeyed(entries, Binding::Unaltered) =~= entries);
}

/// The identity binding walks the whole tree and returns an equal one.
pub proof fn lemma_unaltered_is_identity(tree: Tree)
    ensures
        transformed(tree, Binding::Unaltered) == tree,
    decreases tree,
{
    match tree {
        Tree::Sequence(items) => {
            let walked = transformed(tree, Binding::Unaltered)->Sequence_0;
            assert forall|i: int| 0 <= i < items.len() implies walked[i] == items[i] by {
                lemma_unaltered_is_identity(items[i]);
            }
            assert(walked =~= items);
        },
        Tree::Mapping(entries) => {
            lemma_rekeyed_unaltered(entries);
        },
        _ => {},
    }
}

/// The walk treats the values of a mapping and the elements of a sequence
/// differently: a value of a mapping that is not a mapping itself comes back
/// as it was, whatever it holds, while its key is converted.
pub proof fn lemma_mapping_keeps_other_values(
    entries: Seq<(Seq<char>, Tree)>,
    binding: Binding,
    i: int,
)
    requires
        0 <= i < entries.len(),
        !(entries[i].1 is Mapping),
    ensures
        transformed(Tree::Mapping(entries), binding) is Mapping,
        transformed(Tree::Mapping(entries), binding)->Mapping_0.len() == entries.len(),
        transformed(Tree::Mapping(entries), binding)->Mapping_0[i] == (
            binding.converted(entries[i].0),
            entries[i].1,
        ),
{
}

} // verus!
