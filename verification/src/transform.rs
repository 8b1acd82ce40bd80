//! The structural transformer: one recursive walk, bound to five conventions.
use vstd::prelude::*;
use crate::case::{camel_form, dashed_form, pascal_form, snake_form};
use crate::case::{to_camel_case, to_dashed_case, to_pascal_case, to_snake_case};
use crate::laws::{lemma_transform_keeps_shape, lemma_unaltered_is_identity};
use crate::value::{entries_view, items_view, lemma_mapping_view, lemma_sequence_view, Tree, Value};

verus! {

/// One of the five fixed pairings of a key transform with the object transform
/// that walks by it.
#[derive(Clone, Copy, Debug, PartialEq, Eq)]
pub enum Binding {
    /// PascalCase.
    Camel,
    /// camelCase.
    CamelLower,
    /// kebab-case.
    Dash,
    /// snake_case.
    Underscore,
    /// Every text as it is.
    Unaltered,
}

impl Binding {
    /// What this binding's key transform makes of a token.
    pub open spec fn converted(self, token: Seq<char>) -> Seq<char> {
        match self {
            Binding::Camel => pascal_form(token),
            Binding::CamelLower => camel_form(token),
            Binding::Dash => dashed_form(token),
            Binding::Underscore => snake_form(token),
            Binding::Unaltered => token,
        }
    }

    /// Applies this binding's key transform to a token.
    pub fn key_transform(self, token: &str) -> (out: String)
        ensures
            out@ == self.converted(token@),
    {
        match self {
            Binding::Camel => to_pascal_case(token),
            Binding::CamelLower => to_camel_case(token),
            Binding::Dash => to_dashed_case(token),
            Binding::Underscore => to_snake_case(token),
            Binding::Unaltered => token.to_owned(),
        }
    }

    /// Applies this binding's object transform to a value: the whole walk,
    /// under the same binding.
    pub fn object_transform(self, value: &Value) -> (out: Value)
        ensures
            out@ == transformed(value@, self),
        decreases value, 1nat,
    {
        transform(value, self)
    }
}

/// The result of the walk on a tree.
///
/// A sequence has every element walked. A mapping has every key converted and
/// its values left alone, but for those that are mappings themselves. A symbol
/// and a text are converted. Anything else stays.
pub open spec fn transformed(tree: Tree, binding: Binding) -> Tree
    decreases tree,
{
    match tree {
        Tree::Sequence(items) => Tree::Sequence(
            Seq::new(
                items.len(),
                |i: int|
                    if 0 <= i < items.len() {
                        transformed(items[i], binding)
                    } else {
                        items[i]
                    },
            ),
        ),
        Tree::Mapping(entries) => Tree::Mapping(rekeyed(entries, binding)),
        Tree::AtomicSymbol(name) => Tree::AtomicSymbol(binding.converted(name)),
        Tree::Text(text) => Tree::Text(binding.converted(text)),
        Tree::Opaque(_) => tree,
    }
}

/// A value of a mapping after the walk: a mapping has its pairs rewritten, and
/// any other value, a sequence too, is kept as it is.
pub open spec fn rekeyed_value(value: Tree, binding: Binding) -> Tree
    decreases value,
{
    match value {
        Tree::Mapping(inner) => Tree::Mapping(rekeyed(inner, binding)),
        _ => value,
    }
}

/// The pairs of a mapping after the walk: as many, in the same order, each key
/// converted and each value rewritten as [`rekeyed_value`] says.
pub open spec fn rekeyed(entries: Seq<(Seq<char>, Tree)>, binding: Binding) -> Seq<
    (Seq<char>, Tree),
>
    decreases entries,
{
    Seq::new(
        entries.len(),
        |i: int|
            if 0 <= i < entries.len() {
                (binding.converted(entries[i].0), rekeyed_value(entries[i].1, binding))
            } else {
                entries[i]
            },
    )
}

/// Rewrites the keys of a mapping's pairs, and those of the mappings nested
/// directly in its values.
pub fn deep_transform_keys(entries: &Vec<(String, Value)>, binding: Binding) -> (out: Vec<
    (String, Value),
>)
    ensures
        entries_view(out@) == rekeyed(entries_view(entries@), binding),
    decreases entries, 0nat,
{
    let mut out: Vec<(String, Value)> = Vec::new();
    let mut i: usize = 0;
    while i < entries.len()
        invariant
            i <= entries.len(),
            out.len() == i,
            forall|j: int|
                0 <= j < i ==> {
                    &&& (#[trigger] out[j]).0@ == binding.converted(entries[j].0@)
                    &&& out[j].1@ == rekeyed_value(entries[j].1@, binding)
                },
        decreases entries.len() - i,
    {
        let entry = &entries[i];
        let new_value = match &entry.1 {
            Value::Mapping(inner) => {
                let nested = deep_transform_keys(inner, binding);
                proof {
                    lemma_mapping_view(*inner);
                    lemma_mapping_view(nested);
                }
                Value::Mapping(nested)
            },
            other => other.clone(),
        };
        let new_key = binding.key_transform(entry.0.as_str());
        out.push((new_key, new_value));
        i += 1;
    }
    assert(entries_view(out@) =~= rekeyed(entries_view(entries@), binding));
    out
}

/// Replaces every element of a sequence by its object transform.
pub fn transform_array(items: &Vec<Value>, binding: Binding) -> (out: Vec<Value>)
    ensures
        Tree::Sequence(items_view(out@)) == transformed(
            Tree::Sequence(items_view(items@)),
            binding,
        ),
    decreases items, 2nat,
{
    let mut out: Vec<Value> = Vec::new();
    let mut i: usize = 0;
    while i < items.len()
        invariant
            i <= items.len(),
            out.len() == i,
            forall|j: int| 0 <= j < i ==> out[j]@ == transformed(items[j]@, binding),
        decreases items.len() - i,
    {
        let item = binding.object_transform(&items[i]);
        out.push(item);
        i += 1;
    }
    assert(items_view(out@) =~= transformed(
        Tree::Sequence(items_view(items@)),
        binding,
    )->Sequence_0);
    out
}

/// Rewrites a mapping: its keys, and the keys of the mappings nested directly
/// in its values.
pub fn transform_hash(entries: &Vec<(String, Value)>, binding: Binding) -> (out: Vec<
    (String, Value),
>)
    ensures
        Tree::Mapping(entries_view(out@)) == transformed(
            Tree::Mapping(entries_view(entries@)),
            binding,
        ),
{
    deep_transform_keys(entries, binding)
}

/// Converts the text of a symbol and wraps it as a symbol again.
pub fn transform_symbol(name: &str, binding: Binding) -> (out: Value)
    ensures
        out@ == transformed(Tree::AtomicSymbol(name@), binding),
{
    Value::AtomicSymbol(binding.key_transform(name))
}

/// The walk: dispatches on the category of `value` and builds a fresh value.
pub fn transform(value: &Value, binding: Binding) -> (out: Value)
    ensures
        out@ == transformed(value@, binding),
    decreases value, 0nat,
{
    match value {
        Value::Sequence(items) => {
            let walked = transform_array(items, binding);
            proof {
                lemma_sequence_view(*items);
                lemma_sequence_view(walked);
            }
            Value::Sequence(walked)
        },
        Value::Mapping(entries) => {
            let walked = transform_hash(entries, binding);
            proof {
                lemma_mapping_view(*entries);
                lemma_mapping_view(walked);
            }
            Value::Mapping(walked)
        },
        Value::AtomicSymbol(name) => transform_symbol(name.as_str(), binding),
        Value::Text(text) => Value::Text(binding.key_transform(text.as_str())),
        Value::Opaque(handle) => Value::Opaque(*handle),
    }
}

/// Rewrites the keys of `value` in depth to PascalCase.
pub fn camel(value: &Value) -> (out: Value)
    ensures
        out@ == transformed(value@, Binding::Camel),
        out@.shape() == value@.shape(),
{
    proof {
        lemma_transform_keeps_shape(value@, Binding::Camel);
    }
    transform(value, Binding::Camel)
}

/// Rewrites the keys of `value` in depth to camelCase.
pub fn camel_lower(value: &Value) -> (out: Value)
    ensures
        out@ == transformed(value@, Binding::CamelLower),
        out@.shape() == value@.shape(),
{
    proof {
        lemma_transform_keeps_shape(value@, Binding::CamelLower);
    }
    transform(value, Binding::CamelLower)
}

/// Rewrites the keys of `value` in depth to kebab-case.
pub fn dash(value: &Value) -> (out: Value)
    ensures
        out@ == transformed(value@, Binding::Dash),
        out@.shape() == value@.shape(),
{
    proof {
        lemma_transform_keeps_shape(value@, Binding::Dash);
    }
    transform(value, Binding::Dash)
}

/// Rewrites the keys of `value` in depth to snake_case.
pub fn underscore(value: &Value) -> (out: Value)
    ensures
        out@ == transformed(value@, Binding::Underscore),
        out@.shape() == value@.shape(),
{
    proof {
        lemma_transform_keeps_shape(value@, Binding::Underscore);
    }
    transform(value, Binding::Underscore)
}

/// Walks `value` in depth and rewrites nothing: the result equals the input.
pub fn unaltered(value: &Value) -> (out: Value)
    ensures
        out@ == value@,
{
    proof {
        lemma_unaltered_is_identity(value@);
    }
    transform(value, Binding::Unaltered)
}

} // verus!
