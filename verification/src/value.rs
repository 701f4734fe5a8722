//! Decoded rows of unknown static shape: tagged scalar values keyed by field
//! name, and typed access to them.

use crate::entries::{bind, distinct_keys, has_key, lemma_bind_distinct, lookup};
use indexmap::IndexMap;
use vstd::prelude::*;

verus! {

/// A scalar value with its tag.
#[derive(Debug, PartialEq, Eq)]
pub enum ScalarValue {
    /// No value.
    Null,
    /// A whole number.
    Number(i64),
    /// A truth value.
    Boolean(bool),
    /// A text.
    String(String),
}

/// What a [`ScalarValue`] holds, as mathematics.
pub enum ScalarView {
    Null,
    Number(int),
    Boolean(bool),
    String(Seq<char>),
}

impl View for ScalarValue {
    type V = ScalarView;

    open spec fn view(&self) -> ScalarView {
        match self {
            ScalarValue::Null => ScalarView::Null,
            ScalarValue::Number(n) => ScalarView::Number(*n as int),
            ScalarValue::Boolean(b) => ScalarView::Boolean(*b),
            ScalarValue::String(s) => ScalarView::String(s@),
        }
    }
}

impl Clone for ScalarValue {
    fn clone(&self) -> (r: Self)
        ensures
            r@ == self@,
    {
        match self {
            ScalarValue::Null => ScalarValue::Null,
            ScalarValue::Number(n) => ScalarValue::Number(*n),
            ScalarValue::Boolean(b) => ScalarValue::Boolean(*b),
            ScalarValue::String(s) => ScalarValue::String(s.clone()),
        }
    }
}

/// The `(field name, value)` pairs that a table holds, in its order.
pub uninterp spec fn value_entries(m: IndexMap<String, ScalarValue>) -> Seq<(Seq<char>, ScalarView)>;

/// `IndexMap::new`: a fresh table holds nothing.
#[verifier::external_body]
fn value_map_new() -> (m: IndexMap<String, ScalarValue>)
    ensures
        value_entries(m) == Seq::<(Seq<char>, ScalarView)>::empty(),
{
    IndexMap::new()
}

/// `IndexMap::len`: the number of pairs held.
#[verifier::external_body]
fn value_map_len(m: &IndexMap<String, ScalarValue>) -> (n: usize)
    ensures
        n == value_entries(*m).len(),
{
    m.len()
}

/// `IndexMap::insert`: a key that is already present keeps its place and gets
/// the new value, the old one being returned; a new key is added last.
#[verifier::external_body]
fn value_map_insert(m: &mut IndexMap<String, ScalarValue>, key: String, value: ScalarValue) -> (previous:
    Option<ScalarValue>)
    ensures
        value_entries(*final(m)) == bind(value_entries(*old(m)), key@, value@),
        match previous {
            Some(p) => lookup(value_entries(*old(m)), key@) == Some(p@),
            None => !has_key(value_entries(*old(m)), key@),
        },
{
    m.insert(key, value)
}

/// `IndexMap::get`: the value stored for `key`, if the key is present.
#[verifier::external_body]
fn value_map_get<'a>(m: &'a IndexMap<String, ScalarValue>, key: &str) -> (value: Option<&'a ScalarValue>)
    ensures
        match value {
            Some(v) => lookup(value_entries(*m), key@) == Some(v@),
            None => !has_key(value_entries(*m), key@),
        },
{
    m.get(key)
}

/// `IndexMap::get_index`: the pair at position `index`, for indices below the
/// length.
#[verifier::external_body]
fn value_map_get_index<'a>(m: &'a IndexMap<String, ScalarValue>, index: usize) -> (pair: Option<
    (&'a String, &'a ScalarValue),
>)
    ensures
        match pair {
            Some((k, v)) => index < value_entries(*m).len() && value_entries(*m)[index as int] == (
                k@,
                v@,
            ),
            None => index >= value_entries(*m).len(),
        },
{
    m.get_index(index)
}

/// An ordered table from field names to values: one decoded row.
///
/// Field names are unique; the order is the order in which names were first
/// bound.
#[derive(Debug, PartialEq, Eq)]
pub struct ValueMapping {
    map: IndexMap<String, ScalarValue>,
}

impl View for ValueMapping {
    type V = Seq<(Seq<char>, ScalarView)>;

    closed spec fn view(&self) -> Self::V {
        value_entries(self.map)
    }
}

impl ValueMapping {
    /// Field names are pairwise different. Every table built through this
    /// type's functions is well formed.
    pub open spec fn wf(&self) -> bool {
        distinct_keys(self@)
    }

    /// The empty table.
    pub fn new() -> (r: Self)
        ensures
            r@ == Seq::<(Seq<char>, ScalarView)>::empty(),
            r.wf(),
    {
        ValueMapping { map: value_map_new() }
    }

    /// Number of fields.
    pub fn len(&self) -> (n: usize)
        ensures
            n == self@.len(),
    {
        value_map_len(&self.map)
    }

    /// Binds `name` to `value`. A name that is already bound keeps its
    /// position and the value it had is returned.
    pub fn insert(&mut self, name: String, value: ScalarValue) -> (previous: Option<ScalarValue>)
        ensures
            final(self)@ == bind(old(self)@, name@, value@),
            old(self).wf() ==> final(self).wf(),
            match previous {
                Some(p) => lookup(old(self)@, name@) == Some(p@),
                None => !has_key(old(self)@, name@),
            },
    {
        proof {
            if self.wf() {
                lemma_bind_distinct(self@, name@, value@);
            }
        }
        value_map_insert(&mut self.map, name, value)
    }

    /// The value bound to `name`, if any.
    pub fn get(&self, name: &str) -> (value: Option<&ScalarValue>)
        ensures
            match value {
                Some(v) => lookup(self@, name@) == Some(v@),
                None => lookup(self@, name@) is None,
            },
    {
        value_map_get(&self.map, name)
    }

    /// The field at position `index`.
    pub fn get_index(&self, index: usize) -> (pair: Option<(&String, &ScalarValue)>)
        ensures
            match pair {
                Some((n, v)) => index < self@.len() && self@[index as int] == (n@, v@),
                None => index >= self@.len(),
            },
    {
        value_map_get_index(&self.map, index)
    }
}

/// Why a field could not be taken out of a table.
#[derive(Clone, Copy, Debug, PartialEq, Eq, Structural)]
pub enum ExtractErrorKind {
    /// The table has no field of the name.
    FieldMissing,
    /// The field holds a value of another type than asked for.
    TypeMismatch,
}

impl ExtractErrorKind {
    /// The fault in words.
    pub fn message(&self) -> (r: &'static str)
        ensures
            r@ == match self {
                ExtractErrorKind::FieldMissing => "field missing"@,
                ExtractErrorKind::TypeMismatch => "type mismatch"@,
            },
    {
        match self {
            ExtractErrorKind::FieldMissing => "field missing",
            ExtractErrorKind::TypeMismatch => "type mismatch",
        }
    }
}

/// A field that could not be taken out of a table.
#[derive(Debug, PartialEq, Eq)]
pub struct ExtractError {
    /// What is wrong.
    pub kind: ExtractErrorKind,
    /// Name of the field asked for.
    pub field: String,
}

/// A type that a [`ScalarValue`] can be taken as.
pub trait ExtractValue: Sized {
    /// Whether `value` can be taken as this type.
    spec fn accepts(value: ScalarView) -> bool;

    /// Whether `self` is what `value` holds.
    spec fn holds(&self, value: ScalarView) -> bool;

    /// Takes `value` as this type, where it has the matching tag.
    fn from_value(value: &ScalarValue) -> (r: Option<Self>)
        ensures
            match r {
                Some(x) => Self::accepts(value@) && x.holds(value@),
                None => !Self::accepts(value@),
            },
    ;
}

impl ExtractValue for String {
    open spec fn accepts(value: ScalarView) -> bool {
        value is String
    }

    open spec fn holds(&self, value: ScalarView) -> bool {
        value == ScalarView::String(self@)
    }

    fn from_value(value: &ScalarValue) -> (r: Option<Self>) {
        match value {
            ScalarValue::String(s) => Some(s.clone()),
            _ => None,
        }
    }
}

impl ExtractValue for i64 {
    open spec fn accepts(value: ScalarView) -> bool {
        value is Number
    }

    open spec fn holds(&self, value: ScalarView) -> bool {
        value == ScalarView::Number(*self as int)
    }

    fn from_value(value: &ScalarValue) -> (r: Option<Self>) {
        match value {
            ScalarValue::Number(n) => Some(*n),
            _ => None,
        }
    }
}

impl ExtractValue for bool {
    open spec fn accepts(value: ScalarView) -> bool {
        value is Boolean
    }

    open spec fn holds(&self, value: ScalarView) -> bool {
        value == ScalarView::Boolean(*self)
    }

    fn from_value(value: &ScalarValue) -> (r: Option<Self>) {
        match value {
            ScalarValue::Boolean(b) => Some(*b),
            _ => None,
        }
    }
}

/// Whether the field `name` of `values` can be taken as a `T`, and why not.
pub open spec fn extract_fault<T: ExtractValue>(
    values: Seq<(Seq<char>, ScalarView)>,
    name: Seq<char>,
) -> Option<ExtractErrorKind> {
    match lookup(values, name) {
        None => Some(ExtractErrorKind::FieldMissing),
        Some(v) => if T::accepts(v) {
            None
        } else {
            Some(ExtractErrorKind::TypeMismatch)
        },
    }
}

/// Takes the field `name` out of `values` as a `T`.
///
/// Fails with `FieldMissing` where the table has no such field, and with
/// `TypeMismatch` where the field holds a value of another type; either error
/// names the field.
pub fn extract<T: ExtractValue>(values: &ValueMapping, name: &str) -> (r: Result<T, ExtractError>)
    ensures
        match r {
            Ok(x) => extract_fault::<T>(values@, name@) is None && x.holds(
                lookup(values@, name@)->0,
            ),
            Err(e) => extract_fault::<T>(values@, name@) == Some(e.kind) && e.field@ == name@,
        },
{
    match values.get(name) {
        None => Err(ExtractError { kind: ExtractErrorKind::FieldMissing, field: name.to_owned() }),
        Some(value) => match T::from_value(value) {
            Some(x) => Ok(x),
            None => Err(
                ExtractError { kind: ExtractErrorKind::TypeMismatch, field: name.to_owned() },
            ),
        },
    }
}

} // verus!
