//! Ordered field-name to type-name tables.

use crate::entries::{bind, distinct_keys, has_key, lemma_bind_distinct, lookup};
use indexmap::IndexMap;
use vstd::prelude::*;

verus! {

/// `indexmap::IndexMap`: a hash table that keeps its pairs in the order in
/// which their keys were first inserted. Nothing is known of its inside; what
/// it holds is named by `type_entries` and `value_entries`.
#[verifier::external_type_specification]
#[verifier::external_body]
#[verifier::reject_recursive_types(K)]
#[verifier::reject_recursive_types(V)]
#[verifier::reject_recursive_types(S)]
pub struct ExIndexMap<K, V, S>(IndexMap<K, V, S>);

/// The `(field name, type name)` pairs that a table holds, in its order.
pub uninterp spec fn type_entries(m: IndexMap<String, String>) -> Seq<(Seq<char>, Seq<char>)>;

/// `IndexMap::new`: a fresh table holds nothing.
#[verifier::external_body]
fn type_map_new() -> (m: IndexMap<String, String>)
    ensures
        type_entries(m) == Seq::<(Seq<char>, Seq<char>)>::empty(),
{
    IndexMap::new()
}

/// `IndexMap::len`: the number of pairs held.
#[verifier::external_body]
fn type_map_len(m: &IndexMap<String, String>) -> (n: usize)
    ensures
        n == type_entries(*m).len(),
{
    m.len()
}

/// `IndexMap::insert`: a key that is already present keeps its place and gets
/// the new value, the old one being returned; a new key is added last.
#[verifier::external_body]
fn type_map_insert(m: &mut IndexMap<String, String>, key: String, value: String) -> (previous:
    Option<String>)
    ensures
        type_entries(*final(m)) == bind(type_entries(*old(m)), key@, value@),
        match previous {
            Some(p) => lookup(type_entries(*old(m)), key@) == Some(p@),
            None => !has_key(type_entries(*old(m)), key@),
        },
{
    m.insert(key, value)
}

/// `IndexMap::get`: the value stored for `key`, if the key is present.
#[verifier::external_body]
fn type_map_get<'a>(m: &'a IndexMap<String, String>, key: &str) -> (value: Option<&'a String>)
    ensures
        match value {
            Some(v) => lookup(type_entries(*m), key@) == Some(v@),
            None => !has_key(type_entries(*m), key@),
        },
{
    m.get(key)
}

/// `IndexMap::get_index`: the pair at position `index`, for indices below the
/// length.
#[verifier::external_body]
fn type_map_get_index<'a>(m: &'a IndexMap<String, String>, index: usize) -> (pair: Option<
    (&'a String, &'a String),
>)
    ensures
        match pair {
            Some((k, v)) => index < type_entries(*m).len() && type_entries(*m)[index as int] == (
                k@,
                v@,
            ),
            None => index >= type_entries(*m).len(),
        },
{
    m.get_index(index)
}

/// An ordered table from field names to type names.
///
/// Field names are unique; the order is the order in which names were first
/// bound.
#[derive(Debug, PartialEq, Eq)]
pub struct TypeMapping {
    map: IndexMap<String, String>,
}

impl View for TypeMapping {
    type V = Seq<(Seq<char>, Seq<char>)>;

    closed spec fn view(&self) -> Self::V {
        type_entries(self.map)
    }
}

impl TypeMapping {
    /// Field names are pairwise different. Every table built through this
    /// type's functions is well formed.
    pub open spec fn wf(&self) -> bool {
        distinct_keys(self@)
    }

    /// The empty table.
    pub fn new() -> (r: Self)
        ensures
            r@ == Seq::<(Seq<char>, Seq<char>)>::empty(),
            r.wf(),
    {
        TypeMapping { map: type_map_new() }
    }

    /// Number of fields.
    pub fn len(&self) -> (n: usize)
        ensures
            n == self@.len(),
    {
        type_map_len(&self.map)
    }

    /// Binds `name` to `schema_type`. A name that is already bound keeps its
    /// position and the type it had is returned.
    pub fn insert(&mut self, name: String, schema_type: String) -> (previous: Option<String>)
        ensures
            final(self)@ == bind(old(self)@, name@, schema_type@),
            old(self).wf() ==> final(self).wf(),
            match previous {
                Some(p) => lookup(old(self)@, name@) == Some(p@),
                None => !has_key(old(self)@, name@),
            },
    {
        proof {
            if self.wf() {
                lemma_bind_distinct(self@, name@, schema_type@);
            }
        }
        type_map_insert(&mut self.map, name, schema_type)
    }

    /// The type bound to `name`, if any.
    pub fn get(&self, name: &str) -> (schema_type: Option<&String>)
        ensures
            match schema_type {
                Some(t) => lookup(self@, name@) == Some(t@),
                None => lookup(self@, name@) is None,
            },
    {
        type_map_get(&self.map, name)
    }

    /// Whether `name` is bound.
    pub fn contains_key(&self, name: &str) -> (r: bool)
        ensures
            r == has_key(self@, name@),
    {
        type_map_get(&self.map, name).is_some()
    }

    /// The field at position `index`.
    pub fn get_index(&self, index: usize) -> (pair: Option<(&String, &String)>)
        ensures
            match pair {
                Some((n, t)) => index < self@.len() && self@[index as int] == (n@, t@),
                None => index >= self@.len(),
            },
    {
        type_map_get_index(&self.map, index)
    }

    /// The fields as a list of `(name, type)` pairs, in order.
    pub fn to_vec(&self) -> (r: Vec<(String, String)>)
        ensures
            pairs_view(r@) == self@,
    {
        let n = self.len();
        let mut r: Vec<(String, String)> = Vec::new();
        let mut i: usize = 0;
        while i < n
            invariant
                n == self@.len(),
                i <= n,
                r@.len() == i,
                forall|j: int| 0 <= j < i ==> ((#[trigger] r@[j]).0@, r@[j].1@) == self@[j],
            decreases n - i,
        {
            let (name, ty) = self.get_index(i).unwrap();
            r.push((name.clone(), ty.clone()));
            i = i + 1;
        }
        assert(pairs_view(r@) =~= self@);
        r
    }
}

/// What a list of `(name, type)` pairs holds, as mathematics.
pub open spec fn pairs_view(pairs: Seq<(String, String)>) -> Seq<(Seq<char>, Seq<char>)> {
    Seq::new(pairs.len(), |i: int| (pairs[i].0@, pairs[i].1@))
}

} // verus!
