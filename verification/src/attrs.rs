//! Ordered attribute storage for tags, backed by `indexmap::IndexMap`.
//!
//! The map's contents are modelled as a sequence of `(key, value)` character
//! sequences in insertion order, through the uninterpreted function
//! [`attr_entries`]. The wrappers below state, over that model, what the
//! methods of `IndexMap` do according to its documentation: insertion keeps
//! an existing key at its place and replaces its value, a new key goes last,
//! and iteration follows the insertion order.

use vstd::prelude::*;

verus! {

#[verifier::external_type_specification]
#[verifier::external_body]
#[verifier::reject_recursive_types(K)]
#[verifier::reject_recursive_types(V)]
#[verifier::reject_recursive_types(S)]
pub struct ExIndexMap<K, V, S>(indexmap::IndexMap<K, V, S>);

/// The key-value pairs held by an attribute map, in insertion order.
pub uninterp spec fn attr_entries(m: indexmap::IndexMap<String, String>) -> Seq<
    (Seq<char>, Seq<char>),
>;

/// No two entries share a key.
pub open spec fn keys_unique(es: Seq<(Seq<char>, Seq<char>)>) -> bool {
    forall|i: int, j: int|
        0 <= i < es.len() && 0 <= j < es.len() && i != j ==> (#[trigger] es[i]).0 != (
        #[trigger] es[j]).0
}

/// Relies on `IndexMap::new`: the new map is empty.
#[verifier::external_body]
pub(crate) fn imap_new() -> (m: indexmap::IndexMap<String, String>)
    ensures
        attr_entries(m) == Seq::<(Seq<char>, Seq<char>)>::empty(),
{
    indexmap::IndexMap::new()
}

/// Relies on `IndexMap::get`: returns the value stored for `key` when the
/// key is present, and `None` when it is not.
#[verifier::external_body]
pub(crate) fn imap_get<'a>(m: &'a indexmap::IndexMap<String, String>, key: &str) -> (r: Option<
    &'a String,
>)
    ensures
        match r {
            Some(v) => exists|i: int|
                0 <= i < attr_entries(*m).len() && (#[trigger] attr_entries(*m)[i]).0 == key@
                    && attr_entries(*m)[i].1 == v@,
            None => forall|i: int|
                0 <= i < attr_entries(*m).len() ==> (#[trigger] attr_entries(*m)[i]).0 != key@,
        },
{
    m.get(key)
}

/// Relies on `IndexMap::insert`: an existing key keeps its place in the
/// order and its value is replaced; a new key is appended last in order.
#[verifier::external_body]
pub(crate) fn imap_insert(m: &mut indexmap::IndexMap<String, String>, key: String, value: String)
    ensures
        (forall|i: int|
            0 <= i < attr_entries(*old(m)).len() ==> (#[trigger] attr_entries(*old(m))[i]).0
                != key@) ==> attr_entries(*final(m)) == attr_entries(*old(m)).push((key@, value@)),
        keys_unique(attr_entries(*old(m))) ==> forall|i: int|
            0 <= i < attr_entries(*old(m)).len() && (#[trigger] attr_entries(*old(m))[i]).0 == key@
                ==> attr_entries(*final(m)) == attr_entries(*old(m)).update(i, (key@, value@)),
{
    m.insert(key, value);
}

/// Relies on `IndexMap::iter`: the key-value pairs come out in insertion
/// order; the body only clones each pair.
#[verifier::external_body]
pub(crate) fn imap_entries(m: &indexmap::IndexMap<String, String>) -> (r: Vec<(String, String)>)
    ensures
        r@.len() == attr_entries(*m).len(),
        forall|i: int|
            0 <= i < r@.len() ==> (#[trigger] r@[i]).0@ == attr_entries(*m)[i].0 && r@[i].1@
                == attr_entries(*m)[i].1,
{
    m.iter().map(|(k, v)| (k.clone(), v.clone())).collect()
}

} // verus!
