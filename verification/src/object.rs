//! What every queryable type says of itself.
//!
//! The set of types is only known at run time, so each type describes itself
//! through one uniform contract: its names, its fields, the unions it brings
//! along, the fields that need a second fetch, and its entry points at the
//! root of the schema. The descriptions are plain data; the caller turns them
//! into the schema objects of its query engine.

use crate::type_mapping::TypeMapping;
use vstd::prelude::*;

verus! {

/// A reference to a schema type by name, nullable or not.
#[derive(Debug, PartialEq, Eq)]
pub struct TypeRef {
    pub name: String,
    pub non_null: bool,
}

/// What a [`TypeRef`] holds, as mathematics.
pub struct TypeRefView {
    pub name: Seq<char>,
    pub non_null: bool,
}

impl DeepView for TypeRef {
    type V = TypeRefView;

    open spec fn deep_view(&self) -> TypeRefView {
        TypeRefView { name: self.name@, non_null: self.non_null }
    }
}

impl TypeRef {
    /// A nullable reference to the type `name`.
    pub fn named(name: &str) -> (r: TypeRef)
        ensures
            r.deep_view() == (TypeRefView { name: name@, non_null: false }),
    {
        TypeRef { name: name.to_owned(), non_null: false }
    }

    /// A non-null reference to the type `name`.
    pub fn named_nn(name: &str) -> (r: TypeRef)
        ensures
            r.deep_view() == (TypeRefView { name: name@, non_null: true }),
    {
        TypeRef { name: name.to_owned(), non_null: true }
    }

    /// The reference as the schema language writes it: the name, followed by
    /// `!` where the reference is non-null.
    pub fn to_text(&self) -> (r: String)
        ensures
            r@ == if self.non_null {
                self.name@ + seq!['!']
            } else {
                self.name@
            },
    {
        let mut r = self.name.clone();
        if self.non_null {
            proof {
                reveal_strlit("!");
            }
            r.append("!");
            assert("!"@ == seq!['!']);
        }
        r
    }
}

/// An argument of a field.
#[derive(Debug, PartialEq, Eq)]
pub struct InputValue {
    pub name: String,
    pub ty: TypeRef,
}

/// What an [`InputValue`] holds, as mathematics.
pub struct InputValueView {
    pub name: Seq<char>,
    pub ty: TypeRefView,
}

impl DeepView for InputValue {
    type V = InputValueView;

    open spec fn deep_view(&self) -> InputValueView {
        InputValueView { name: self.name@, ty: self.ty.deep_view() }
    }
}

/// Which resolution the caller runs for a field.
#[derive(Clone, Copy, Debug, PartialEq, Eq, Structural)]
pub enum Resolver {
    /// Fetch the component with the identity given as argument `id`.
    ComponentById,
    /// Fetch the storage record that belongs to the parent component.
    ComponentStorage,
    /// Fetch the storage record with the identity given as argument `id`.
    StorageById,
}

/// A field with a resolver behind it.
#[derive(Debug, PartialEq, Eq)]
pub struct Field {
    pub name: String,
    pub ty: TypeRef,
    pub arguments: Vec<InputValue>,
    pub resolver: Resolver,
}

/// What a [`Field`] holds, as mathematics.
pub struct FieldView {
    pub name: Seq<char>,
    pub ty: TypeRefView,
    pub arguments: Seq<InputValueView>,
    pub resolver: Resolver,
}

impl DeepView for Field {
    type V = FieldView;

    open spec fn deep_view(&self) -> FieldView {
        FieldView {
            name: self.name@,
            ty: self.ty.deep_view(),
            arguments: self.arguments.deep_view(),
            resolver: self.resolver,
        }
    }
}

/// A closed union of object types.
#[derive(Debug, PartialEq, Eq)]
pub struct Union {
    pub name: String,
    pub possible_types: Vec<String>,
}

/// What a [`Union`] holds, as mathematics.
pub struct UnionView {
    pub name: Seq<char>,
    pub possible_types: Seq<Seq<char>>,
}

impl DeepView for Union {
    type V = UnionView;

    open spec fn deep_view(&self) -> UnionView {
        UnionView { name: self.name@, possible_types: self.possible_types.deep_view() }
    }
}

/// The contract through which a queryable type describes itself.
pub trait ObjectTrait {
    /// The internal identifier.
    spec fn spec_name(&self) -> Seq<char>;

    /// The schema-facing identifier.
    spec fn spec_typename(&self) -> Seq<char>;

    /// The type's own fields.
    spec fn spec_fields(&self) -> Seq<(Seq<char>, Seq<char>)>;

    /// The unions that come with the type.
    spec fn spec_unions(&self) -> Option<Seq<UnionView>>;

    /// The fields that need a second fetch.
    spec fn spec_nested_fields(&self) -> Option<Seq<FieldView>>;

    /// The entry points at the root of the schema.
    spec fn spec_resolvers(&self) -> Seq<FieldView>;

    /// The internal identifier.
    fn name(&self) -> (r: &str)
        ensures
            r@ == self.spec_name(),
    ;

    /// The schema-facing identifier; no two types of one schema share it.
    fn typename(&self) -> (r: &str)
        ensures
            r@ == self.spec_typename(),
    ;

    /// The type's own fields with their types, in declaration order.
    fn field_type_mapping(&self) -> (r: &TypeMapping)
        ensures
            r@ == self.spec_fields(),
    ;

    /// The unions that come with the type, if any.
    fn unions(&self) -> (r: Option<Vec<Union>>)
        ensures
            r.deep_view() == self.spec_unions(),
    ;

    /// The fields whose resolution needs a second fetch, if any.
    fn nested_fields(&self) -> (r: Option<Vec<Field>>)
        ensures
            r.deep_view() == self.spec_nested_fields(),
    ;

    /// The entry points that the type exposes at the root of the schema.
    fn resolvers(&self) -> (r: Vec<Field>)
        ensures
            r.deep_view() == self.spec_resolvers(),
    ;
}

} // verus!
