//! Assembling one schema from the objects discovered at run time.
//!
//! A schema is the list of its type definitions, in the order in which they
//! were registered, and the fields at its root. Type names are unique: an
//! object that brings a name already taken is refused as a whole.

use crate::component::{component_field, component_fields, storage_field, storage_union,
    Component, ComponentObject};
use crate::definition::{parse_definition, type_mapping_from_definition, ParseError,
    ParseErrorKind};
use crate::object::{Field, FieldView, ObjectTrait, Union, UnionView};
use crate::scalar::{all_scalars, ScalarType};
use crate::storage::{StorageObject, StorageObjectView};
use crate::text::{format_name, lowercase_of, same_text};
use crate::type_mapping::pairs_view;
use vstd::prelude::*;

verus! {

/// An object type of a schema.
#[derive(Debug, PartialEq, Eq)]
pub struct ObjectType {
    /// The internal identifier.
    pub name: String,
    /// The schema-facing identifier.
    pub typename: String,
    /// The type's own fields with their types, in declaration order.
    pub fields: Vec<(String, String)>,
    /// The fields that need a second fetch.
    pub nested_fields: Vec<Field>,
}

/// What an [`ObjectType`] holds, as mathematics.
pub struct ObjectTypeView {
    pub name: Seq<char>,
    pub typename: Seq<char>,
    pub fields: Seq<(Seq<char>, Seq<char>)>,
    pub nested_fields: Seq<FieldView>,
}

impl DeepView for ObjectType {
    type V = ObjectTypeView;

    open spec fn deep_view(&self) -> ObjectTypeView {
        ObjectTypeView {
            name: self.name@,
            typename: self.typename@,
            fields: pairs_view(self.fields@),
            nested_fields: self.nested_fields.deep_view(),
        }
    }
}

/// A type definition of a schema.
#[derive(Debug, PartialEq, Eq)]
pub enum TypeDefinition {
    Scalar(ScalarType),
    Object(ObjectType),
    Union(Union),
}

/// What a [`TypeDefinition`] holds, as mathematics.
pub enum TypeDefinitionView {
    Scalar(ScalarType),
    Object(ObjectTypeView),
    Union(UnionView),
}

impl DeepView for TypeDefinition {
    type V = TypeDefinitionView;

    open spec fn deep_view(&self) -> TypeDefinitionView {
        match self {
            TypeDefinition::Scalar(kind) => TypeDefinitionView::Scalar(*kind),
            TypeDefinition::Object(object) => TypeDefinitionView::Object(object.deep_view()),
            TypeDefinition::Union(union) => TypeDefinitionView::Union(union.deep_view()),
        }
    }
}

impl TypeDefinitionView {
    /// The name under which the schema knows the type.
    pub open spec fn name(self) -> Seq<char> {
        match self {
            TypeDefinitionView::Scalar(kind) => kind.spec_name(),
            TypeDefinitionView::Object(object) => object.typename,
            TypeDefinitionView::Union(union) => union.name,
        }
    }
}

impl TypeDefinition {
    /// The name under which the schema knows the type.
    pub fn name(&self) -> (r: &str)
        ensures
            r@ == self.deep_view().name(),
    {
        match self {
            TypeDefinition::Scalar(kind) => kind.name(),
            TypeDefinition::Object(object) => object.typename.as_str(),
            TypeDefinition::Union(union) => union.name.as_str(),
        }
    }
}

/// What an object brings to a schema.
pub struct Description {
    /// The object type itself.
    pub object: ObjectTypeView,
    /// The unions that come with it.
    pub unions: Seq<UnionView>,
    /// Its entry points at the root.
    pub resolvers: Seq<FieldView>,
}

/// What `object` brings to a schema, by its own account.
pub open spec fn describe<O: ObjectTrait>(object: &O) -> Description {
    Description {
        object: ObjectTypeView {
            name: object.spec_name(),
            typename: object.spec_typename(),
            fields: object.spec_fields(),
            nested_fields: match object.spec_nested_fields() {
                Some(fields) => fields,
                None => Seq::empty(),
            },
        },
        unions: match object.spec_unions() {
            Some(unions) => unions,
            None => Seq::empty(),
        },
        resolvers: object.spec_resolvers(),
    }
}

impl Description {
    /// The type definitions that the object brings: itself, then its unions.
    pub open spec fn definitions(self) -> Seq<TypeDefinitionView> {
        seq![TypeDefinitionView::Object(self.object)] + Seq::new(
            self.unions.len(),
            |i: int| TypeDefinitionView::Union(self.unions[i]),
        )
    }
}

/// The names of the definitions, in order.
pub open spec fn names_of(types: Seq<TypeDefinitionView>) -> Seq<Seq<char>> {
    Seq::new(types.len(), |i: int| types[i].name())
}

/// Whether the name at position `k` of `new` is among `taken` or among the
/// names before it in `new`.
pub open spec fn clashes_at(taken: Seq<Seq<char>>, new: Seq<Seq<char>>, k: int) -> bool {
    (taken + new.take(k)).contains(new[k])
}

/// Position from `k` on of the first name of `new` that clashes, or the
/// length of `new` where none does.
pub open spec fn first_clash_from(taken: Seq<Seq<char>>, new: Seq<Seq<char>>, k: int) -> int
    decreases new.len() - k,
{
    if k < 0 || k >= new.len() {
        new.len() as int
    } else if clashes_at(taken, new, k) {
        k
    } else {
        first_clash_from(taken, new, k + 1)
    }
}

/// Position of the first name of `new` that is already taken, by `taken` or
/// by an earlier name of `new`; the length of `new` where none is.
pub open spec fn first_clash(taken: Seq<Seq<char>>, new: Seq<Seq<char>>) -> int {
    first_clash_from(taken, new, 0)
}

/// What a schema holds, as mathematics.
pub struct SchemaView {
    /// The type definitions, in the order of registration.
    pub types: Seq<TypeDefinitionView>,
    /// The fields at the root.
    pub query: Seq<FieldView>,
}

/// The schema before any object is registered: the scalar kinds.
pub open spec fn initial_schema() -> SchemaView {
    SchemaView {
        types: Seq::new(all_scalars().len(), |i: int| TypeDefinitionView::Scalar(all_scalars()[i])),
        query: Seq::empty(),
    }
}

/// The schema after an object is registered: the name that clashes, where
/// one does; else the schema with the object's definitions and entry points
/// added at the end.
pub open spec fn register_spec(schema: SchemaView, object: Description) -> Result<
    SchemaView,
    Seq<char>,
> {
    let new = names_of(object.definitions());
    let clash = first_clash(names_of(schema.types), new);
    if clash < new.len() {
        Err(new[clash])
    } else {
        Ok(
            SchemaView {
                types: schema.types + object.definitions(),
                query: schema.query + object.resolvers,
            },
        )
    }
}

/// The schema after the objects are registered one after the other; the
/// first clash ends it.
pub open spec fn register_all(schema: SchemaView, objects: Seq<Description>) -> Result<
    SchemaView,
    Seq<char>,
>
    decreases objects.len(),
{
    if objects.len() == 0 {
        Ok(schema)
    } else {
        match register_all(schema, objects.drop_last()) {
            Err(name) => Err(name),
            Ok(before) => register_spec(before, objects.last()),
        }
    }
}

/// `first_clash_from` is the least position from `k` on that clashes.
pub proof fn lemma_first_clash_from(taken: Seq<Seq<char>>, new: Seq<Seq<char>>, k: int)
    requires
        0 <= k <= new.len(),
    ensures
        k <= first_clash_from(taken, new, k) <= new.len(),
        first_clash_from(taken, new, k) < new.len() ==> clashes_at(
            taken,
            new,
            first_clash_from(taken, new, k),
        ),
        forall|j: int| k <= j < first_clash_from(taken, new, k) ==> !clashes_at(taken, new, j),
    decreases new.len() - k,
{
    if k < new.len() && !clashes_at(taken, new, k) {
        lemma_first_clash_from(taken, new, k + 1);
    }
}

/// A position that clashes, with no earlier one from `k` on, is
/// `first_clash_from`.
pub proof fn lemma_first_clash_is(taken: Seq<Seq<char>>, new: Seq<Seq<char>>, k: int, at: int)
    requires
        0 <= k <= at <= new.len(),
        at < new.len() ==> clashes_at(taken, new, at),
        forall|j: int| k <= j < at ==> !clashes_at(taken, new, j),
    ensures
        first_clash_from(taken, new, k) == at,
    decreases at - k,
{
    if k < at {
        lemma_first_clash_is(taken, new, k + 1, at);
    }
}

/// Names that do not clash keep a list of names free of duplicates.
pub proof fn lemma_no_clash_no_duplicates(taken: Seq<Seq<char>>, new: Seq<Seq<char>>)
    requires
        taken.no_duplicates(),
        first_clash(taken, new) == new.len(),
    ensures
        (taken + new).no_duplicates(),
{
    lemma_first_clash_from(taken, new, 0);
    let all = taken + new;
    assert forall|i: int, j: int| 0 <= i < all.len() && 0 <= j < all.len() && i != j implies all[i]
        != all[j] by {
        let (a, b) = if i < j {
            (i, j)
        } else {
            (j, i)
        };
        if b >= taken.len() {
            let k = b - taken.len();
            assert(!clashes_at(taken, new, k));
            let before = taken + new.take(k);
            assert(before[a] == all[a]);
            assert(before.contains(all[a]));
        }
    }
}

/// The set of type definitions and root fields that make up one schema.
#[derive(Debug, PartialEq, Eq)]
pub struct Schema {
    types: Vec<TypeDefinition>,
    query: Vec<Field>,
}

impl DeepView for Schema {
    type V = SchemaView;

    closed spec fn deep_view(&self) -> SchemaView {
        SchemaView { types: self.types.deep_view(), query: self.query.deep_view() }
    }
}

/// Why a schema could not be assembled.
#[derive(Debug, PartialEq, Eq)]
pub enum SchemaError {
    /// Two types would have this name.
    DuplicateType(String),
}

fn holds_text(list: &Vec<String>, text: &str) -> (r: bool)
    ensures
        r == list.deep_view().contains(text@),
{
    let mut i: usize = 0;
    while i < list.len()
        invariant
            i <= list.len(),
            forall|j: int| 0 <= j < i ==> (#[trigger] list.deep_view()[j]) != text@,
        decreases list.len() - i,
    {
        if same_text(list[i].as_str(), text) {
            assert(list.deep_view()[i as int] == text@);
            return true;
        }
        i = i + 1;
    }
    false
}

impl Schema {
    /// No two type definitions share a name.
    pub open spec fn wf(&self) -> bool {
        names_of(self.deep_view().types).no_duplicates()
    }

    /// The schema that holds the scalar kinds and nothing else.
    pub fn new() -> (r: Schema)
        ensures
            r.deep_view() == initial_schema(),
            r.wf(),
    {
        let kinds = ScalarType::types();
        let mut types: Vec<TypeDefinition> = Vec::new();
        let mut i: usize = 0;
        while i < kinds.len()
            invariant
                i <= kinds.len(),
                kinds@ == all_scalars(),
                types@.len() == i,
                forall|j: int|
                    0 <= j < i ==> (#[trigger] types@[j]).deep_view() == TypeDefinitionView::Scalar(
                        kinds@[j],
                    ),
            decreases kinds.len() - i,
        {
            types.push(TypeDefinition::Scalar(kinds[i]));
            i = i + 1;
        }
        let r = Schema { types, query: Vec::new() };
        proof {
            assert(r.deep_view().types =~= initial_schema().types);
            assert(r.deep_view().query =~= initial_schema().query);
            lemma_initial_names();
        }
        r
    }

    /// The type definitions, in the order of registration.
    pub fn types(&self) -> (r: &Vec<TypeDefinition>)
        ensures
            r.deep_view() == self.deep_view().types,
    {
        &self.types
    }

    /// The fields at the root.
    pub fn query(&self) -> (r: &Vec<Field>)
        ensures
            r.deep_view() == self.deep_view().query,
    {
        &self.query
    }

    /// Registers `object`: its object type, the unions that come with it and
    /// its entry points at the root.
    ///
    /// The names that the object brings, its own first and then those of its
    /// unions, must be new to the schema and differ from each other. The
    /// first name that is not is reported, and the schema is left as it was.
    pub fn register<O: ObjectTrait>(&mut self, object: &O) -> (r: Result<(), SchemaError>)
        ensures
            match r {
                Ok(()) => register_spec(old(self).deep_view(), describe(object)) == Ok::<
                    _,
                    Seq<char>,
                >(final(self).deep_view()),
                Err(SchemaError::DuplicateType(name)) => register_spec(
                    old(self).deep_view(),
                    describe(object),
                ) == Err::<SchemaView, _>(name@) && final(self).deep_view() == old(
                    self,
                ).deep_view(),
            },
            old(self).wf() ==> final(self).wf(),
    {
        let ghost before = self.deep_view();
        let ghost d = describe(object);
        let ghost taken = names_of(before.types);
        let ghost new = names_of(d.definitions());
        let typename = object.typename();
        let unions: Vec<Union> = match object.unions() {
            Some(unions) => unions,
            None => Vec::new(),
        };
        assert(unions.deep_view() == d.unions);
        assert(new.len() == 1 + unions@.len());
        assert(new[0] == typename@);
        assert(taken + new.take(0) =~= taken);
        if self.has_type(typename) {
            proof {
                lemma_first_clash_is(taken, new, 0, 0);
            }
            return Err(SchemaError::DuplicateType(typename.to_owned()));
        }
        let mut fresh: Vec<String> = Vec::new();
        fresh.push(typename.to_owned());
        assert(fresh.deep_view() =~= new.take(1));
        let mut k: usize = 0;
        while k < unions.len()
            invariant
                k <= unions.len(),
                before == self.deep_view(),
                before == old(self).deep_view(),
                d == describe(object),
                taken == names_of(before.types),
                new == names_of(d.definitions()),
                unions.deep_view() == d.unions,
                new.len() == 1 + unions@.len(),
                fresh.deep_view() == new.take(k + 1),
                forall|j: int| 0 <= j < k + 1 ==> !clashes_at(taken, new, j),
            decreases unions.len() - k,
        {
            let name = unions[k].name.as_str();
            assert(name@ == unions.deep_view()[k as int].name);
            assert(name@ == new[k + 1]);
            let known = self.has_type(name);
            let staged = holds_text(&fresh, name);
            proof {
                let staged_names = new.take(k + 1);
                let seen = taken + staged_names;
                if known {
                    let i = choose|i: int| 0 <= i < taken.len() && taken[i] == name@;
                    assert(seen[i] == name@);
                }
                if staged {
                    let i = choose|i: int|
                        0 <= i < staged_names.len() && staged_names[i] == name@;
                    assert(seen[taken.len() + i] == name@);
                }
                if seen.contains(name@) {
                    let i = choose|i: int| 0 <= i < seen.len() && seen[i] == name@;
                    if i < taken.len() {
                        assert(taken[i] == name@);
                    } else {
                        assert(staged_names[i - taken.len()] == name@);
                    }
                }
                assert(clashes_at(taken, new, k + 1) == (known || staged));
            }
            if known || staged {
                proof {
                    lemma_first_clash_is(taken, new, 0, k + 1);
                }
                return Err(SchemaError::DuplicateType(name.to_owned()));
            }
            fresh.push(name.to_owned());
            assert(fresh.deep_view() =~= new.take(k + 2));
            k = k + 1;
        }
        proof {
            lemma_first_clash_is(taken, new, 0, new.len() as int);
        }
        let nested_fields: Vec<Field> = match object.nested_fields() {
            Some(fields) => fields,
            None => Vec::new(),
        };
        assert(nested_fields.deep_view() =~= d.object.nested_fields);
        let object_type = ObjectType {
            name: object.name().to_owned(),
            typename: typename.to_owned(),
            fields: object.field_type_mapping().to_vec(),
            nested_fields,
        };
        assert(object_type.deep_view() == d.object);
        self.types.push(TypeDefinition::Object(object_type));
        assert(self.types.deep_view() =~= before.types + d.definitions().take(1));
        let ghost all = unions.deep_view();
        let ghost items = unions@;
        for union in it: unions
            invariant
                it.seq() == items,
                all == d.unions,
                all.len() == items.len(),
                forall|j: int| 0 <= j < items.len() ==> (#[trigger] items[j]).deep_view() == all[j],
                self.types.deep_view() == before.types + d.definitions().take(1 + it.index()),
                self.query.deep_view() == before.query,
        {
            let ghost types_before = self.types.deep_view();
            let ghost moved = it.index() as int;
            self.types.push(TypeDefinition::Union(union));
            assert(self.types.deep_view() =~= types_before.push(
                TypeDefinitionView::Union(all[moved]),
            ));
            assert(types_before.push(TypeDefinitionView::Union(all[moved])) =~= before.types
                + d.definitions().take(2 + moved));
        }
        let ghost moved = items.len() as int;
        assert(d.definitions().take(1 + moved) =~= d.definitions());
        let mut resolvers = object.resolvers();
        let ghost query_before = self.query.deep_view();
        let ghost added = resolvers.deep_view();
        self.query.append(&mut resolvers);
        assert(self.query.deep_view() =~= query_before + added);
        proof {
            assert(names_of(before.types + d.definitions()) =~= taken + new);
            if taken.no_duplicates() {
                lemma_no_clash_no_duplicates(taken, new);
            }
        }
        Ok(())
    }

    /// Whether a type of this name is defined.
    pub fn has_type(&self, name: &str) -> (r: bool)
        ensures
            r == names_of(self.deep_view().types).contains(name@),
    {
        let ghost names = names_of(self.deep_view().types);
        let mut i: usize = 0;
        while i < self.types.len()
            invariant
                i <= self.types.len(),
                names == names_of(self.deep_view().types),
                forall|j: int| 0 <= j < i ==> (#[trigger] names[j]) != name@,
            decreases self.types.len() - i,
        {
            if same_text(self.types[i].name(), name) {
                assert(names[i as int] == name@);
                return true;
            }
            i = i + 1;
        }
        false
    }
}

/// The names of the scalar kinds are pairwise different.
pub proof fn lemma_initial_names()
    ensures
        names_of(initial_schema().types).no_duplicates(),
{
    let names = names_of(initial_schema().types);
    assert forall|i: int, j: int| 0 <= i < names.len() && 0 <= j < names.len() && i != j implies names[i]
        != names[j] by {
        crate::scalar::lemma_name_round_trip(all_scalars()[i]);
        crate::scalar::lemma_name_round_trip(all_scalars()[j]);
        crate::scalar::lemma_all_scalars(all_scalars()[i]);
    }
}

/// What the component object brings to a schema whose storage types have the
/// names `typenames`.
pub open spec fn component_description(typenames: Seq<Seq<char>>) -> Description {
    Description {
        object: ObjectTypeView {
            name: "component"@,
            typename: "Component"@,
            fields: component_fields(),
            nested_fields: seq![storage_field()],
        },
        unions: seq![storage_union(typenames)],
        resolvers: seq![component_field()],
    }
}

/// The schema-facing names of the storage types, in order.
pub open spec fn typenames_of(storages: Seq<StorageObject>) -> Seq<Seq<char>> {
    Seq::new(storages.len(), |i: int| storages[i].typename@)
}

/// What the storage types bring to a schema, in order.
pub open spec fn storage_descriptions(storages: Seq<StorageObject>) -> Seq<Description> {
    Seq::new(storages.len(), |i: int| describe(&storages[i]))
}

/// The schema for a store that holds the storage types `storages`: the
/// scalar kinds, the component object with the union of all storage types,
/// and the storage types, registered in this order.
pub open spec fn assemble(storages: Seq<StorageObject>) -> Result<SchemaView, Seq<char>> {
    register_all(
        initial_schema(),
        seq![component_description(typenames_of(storages))] + storage_descriptions(storages),
    )
}

/// A clash among the first objects is the clash of the whole.
pub proof fn lemma_clash_persists(schema: SchemaView, objects: Seq<Description>, n: int)
    requires
        0 <= n <= objects.len(),
        register_all(schema, objects.take(n)) is Err,
    ensures
        register_all(schema, objects) == register_all(schema, objects.take(n)),
    decreases objects.len() - n,
{
    if n == objects.len() {
        assert(objects.take(n) == objects);
    } else {
        assert(objects.drop_last().take(n) == objects.take(n));
        lemma_clash_persists(schema, objects.drop_last(), n);
    }
}

/// Assembles the schema for a store that holds the storage types `storages`.
///
/// The members of the storage union are the schema-facing names of
/// `storages`, in order. A storage type whose name is already taken, by a
/// scalar kind, by `Component`, by `Storage` or by an earlier storage type,
/// makes the assembly fail with that name.
pub fn build_schema(storages: &Vec<StorageObject>) -> (r: Result<Schema, SchemaError>)
    ensures
        match r {
            Ok(schema) => assemble(storages@) == Ok::<_, Seq<char>>(schema.deep_view())
                && schema.wf(),
            Err(SchemaError::DuplicateType(name)) => assemble(storages@) == Err::<SchemaView, _>(
                name@,
            ),
        },
{
    let mut names: Vec<String> = Vec::new();
    let mut i: usize = 0;
    while i < storages.len()
        invariant
            i <= storages.len(),
            names@.len() == i,
            forall|j: int| 0 <= j < i ==> (#[trigger] names@[j])@ == storages@[j].typename@,
        decreases storages.len() - i,
    {
        names.push(storages[i].typename.clone());
        i = i + 1;
    }
    assert(names.deep_view() =~= typenames_of(storages@));
    let component = ComponentObject::new(names);
    let ghost all = seq![component_description(typenames_of(storages@))] + storage_descriptions(
        storages@,
    );
    assert(describe(&component) == all[0]);
    let mut schema = Schema::new();
    proof {
        assert(all.take(1).drop_last() =~= Seq::<Description>::empty());
        assert(all.take(1).last() == all[0]);
        assert(register_all(initial_schema(), all.take(1).drop_last()) == Ok::<_, Seq<char>>(
            initial_schema(),
        ));
    }
    match schema.register(&component) {
        Err(e) => {
            proof {
                lemma_clash_persists(initial_schema(), all, 1);
            }
            return Err(e);
        },
        Ok(()) => {},
    }
    let mut i: usize = 0;
    while i < storages.len()
        invariant
            i <= storages.len(),
            all == seq![component_description(typenames_of(storages@))] + storage_descriptions(
                storages@,
            ),
            register_all(initial_schema(), all.take(1 + i)) == Ok::<_, Seq<char>>(
                schema.deep_view(),
            ),
            schema.wf(),
        decreases storages.len() - i,
    {
        proof {
            assert(all.take(2 + i).drop_last() =~= all.take(1 + i));
            assert(all.take(2 + i).last() == describe(&storages@[i as int]));
        }
        match schema.register(&storages[i]) {
            Err(e) => {
                proof {
                    lemma_clash_persists(initial_schema(), all, 2 + i);
                }
                return Err(e);
            },
            Ok(()) => {},
        }
        i = i + 1;
    }
    assert(all.take(1 + i) =~= all);
    Ok(schema)
}

/// The names that are taken before any storage type is registered: the
/// scalar kinds, `Component` and `Storage`.
pub open spec fn reserved_names() -> Seq<Seq<char>> {
    names_of(initial_schema().types) + seq!["Component"@, "Storage"@]
}

/// The type definitions of an assembled schema: the scalar kinds, the
/// component object, the storage union, and one object per storage type.
pub open spec fn assembled_types(storages: Seq<StorageObject>) -> Seq<TypeDefinitionView> {
    initial_schema().types + seq![
        TypeDefinitionView::Object(component_description(typenames_of(storages)).object),
        TypeDefinitionView::Union(storage_union(typenames_of(storages))),
    ] + Seq::new(
        storages.len(),
        |i: int| TypeDefinitionView::Object(describe(&storages[i]).object),
    )
}

/// The root fields of an assembled schema: `component`, then one entry point
/// per storage type.
pub open spec fn assembled_query(storages: Seq<StorageObject>) -> Seq<FieldView> {
    seq![component_field()] + Seq::new(
        storages.len(),
        |i: int| describe(&storages[i]).resolvers[0],
    )
}

/// A list with one more item is free of duplicates exactly when the list is
/// and does not hold the item.
pub proof fn lemma_push_no_duplicates(names: Seq<Seq<char>>, name: Seq<char>)
    ensures
        names.push(name).no_duplicates() <==> names.no_duplicates() && !names.contains(name),
{
    let more = names.push(name);
    if more.no_duplicates() {
        assert forall|i: int, j: int| 0 <= i < names.len() && 0 <= j < names.len() && i
            != j implies names[i] != names[j] by {
            assert(more[i] == names[i]);
            assert(more[j] == names[j]);
        }
        if names.contains(name) {
            let i = choose|i: int| 0 <= i < names.len() && names[i] == name;
            assert(more[i] == more[names.len() as int]);
        }
    }
    if names.no_duplicates() && !names.contains(name) {
        assert forall|i: int, j: int| 0 <= i < more.len() && 0 <= j < more.len() && i
            != j implies more[i] != more[j] by {
            if i < names.len() {
                assert(names.contains(more[i]));
            }
            if j < names.len() {
                assert(names.contains(more[j]));
            }
        }
    }
}

/// The reserved names are pairwise different.
pub proof fn lemma_reserved_names()
    ensures
        reserved_names().no_duplicates(),
        first_clash(names_of(initial_schema().types), seq!["Component"@, "Storage"@]) == 2,
{
    lemma_initial_names();
    let scalars = names_of(initial_schema().types);
    let new = seq!["Component"@, "Storage"@];
    reveal_strlit("Component");
    reveal_strlit("Storage");
    reveal_strlit("ID");
    reveal_strlit("String");
    reveal_strlit("Address");
    reveal_strlit("Felt");
    reveal_strlit("DateTime");
    assert(new[0].len() == 9);
    assert(new[1].len() == 7);
    assert(new[1][0] == 'S');
    assert(scalars[0] == "ID"@);
    assert(scalars[1] == "String"@);
    assert(scalars[2] == "Address"@);
    assert(scalars[3] == "Felt"@);
    assert(scalars[4] == "DateTime"@);
    assert(scalars[2][0] == 'A');
    assert(!scalars.contains(new[0]));
    assert(!scalars.contains(new[1]));
    assert(scalars + new.take(0) =~= scalars);
    assert(!clashes_at(scalars, new, 0));
    assert(scalars + new.take(1) =~= scalars.push(new[0]));
    assert(!clashes_at(scalars, new, 1)) by {
        let seen = scalars.push(new[0]);
        if seen.contains(new[1]) {
            let i = choose|i: int| 0 <= i < seen.len() && seen[i] == new[1];
            if i < scalars.len() {
                assert(scalars[i] == new[1]);
            }
        }
    }
    lemma_first_clash_is(scalars, new, 0, 2);
    lemma_no_clash_no_duplicates(scalars, new);
}

/// The schema after the component object and the first `k` storage types:
/// it exists exactly when the names so far differ, and then holds the
/// definitions and root fields in the order of registration.
pub proof fn lemma_assembled_prefix(storages: Seq<StorageObject>, k: int)
    requires
        0 <= k <= storages.len(),
    ensures
        ({
            let all = seq![component_description(typenames_of(storages))] + storage_descriptions(
                storages,
            );
            let r = register_all(initial_schema(), all.take(1 + k));
            let names = reserved_names() + typenames_of(storages).take(k);
            &&& r is Ok <==> names.no_duplicates()
            &&& r matches Ok(s) ==> {
                &&& s.types == assembled_types(storages).take(7 + k)
                &&& s.query == assembled_query(storages).take(1 + k)
                &&& names_of(s.types) == names
            }
        }),
    decreases k,
{
    let typenames = typenames_of(storages);
    let component = component_description(typenames);
    let all = seq![component] + storage_descriptions(storages);
    let r = register_all(initial_schema(), all.take(1 + k));
    let names = reserved_names() + typenames.take(k);
    if k == 0 {
        lemma_reserved_names();
        assert(all.take(1).drop_last() =~= Seq::<Description>::empty());
        assert(all.take(1).last() == component);
        let new = names_of(component.definitions());
        assert(new =~= seq!["Component"@, "Storage"@]);
        assert(names =~= reserved_names());
        assert(register_all(initial_schema(), all.take(1).drop_last()) == Ok::<_, Seq<char>>(
            initial_schema(),
        ));
        assert(r == register_spec(initial_schema(), component));
        assert(component.definitions() =~= seq![
            TypeDefinitionView::Object(component.object),
            TypeDefinitionView::Union(storage_union(typenames)),
        ]);
        assert(initial_schema().types.len() == 5);
        let s = r->Ok_0;
        assert(s.types =~= assembled_types(storages).take(7));
        assert(s.query =~= assembled_query(storages).take(1));
        assert(names_of(s.types) =~= names);
    } else {
        lemma_assembled_prefix(storages, k - 1);
        let before = register_all(initial_schema(), all.take(k));
        let taken = reserved_names() + typenames.take(k - 1);
        let storage = describe(&storages[k - 1]);
        let name = typenames[k - 1];
        assert(all.take(1 + k).drop_last() =~= all.take(k));
        assert(all.take(1 + k).last() == storage);
        assert(names =~= taken.push(name));
        lemma_push_no_duplicates(taken, name);
        if before is Ok {
            let s0 = before->Ok_0;
            let new = names_of(storage.definitions());
            assert(new =~= seq![name]);
            assert(taken + new.take(0) =~= taken);
            assert(clashes_at(taken, new, 0) == taken.contains(name));
            if taken.contains(name) {
                lemma_first_clash_is(taken, new, 0, 0);
            } else {
                lemma_first_clash_is(taken, new, 0, 1);
                let s = r->Ok_0;
                assert(s.types =~= assembled_types(storages).take(7 + k));
                assert(s.query =~= assembled_query(storages).take(1 + k));
                assert(names_of(s.types) =~= names);
            }
        }
    }
}

/// An assembled schema holds the scalar kinds, the component object, the
/// storage union and one object per storage type, in this order; the members
/// of the union are exactly the names of the storage types; the root holds
/// `component` and one entry point per storage type; no two types share a
/// name.
pub proof fn law_assembled_schema(storages: Seq<StorageObject>)
    requires
        assemble(storages) is Ok,
    ensures
        assemble(storages)->Ok_0.types == assembled_types(storages),
        assemble(storages)->Ok_0.query == assembled_query(storages),
        names_of(assemble(storages)->Ok_0.types).no_duplicates(),
{
    let n = storages.len() as int;
    lemma_assembled_prefix(storages, n);
    let all = seq![component_description(typenames_of(storages))] + storage_descriptions(storages);
    assert(all.take(1 + n) =~= all);
    assert(assembled_types(storages).take(7 + n) =~= assembled_types(storages));
    assert(assembled_query(storages).take(1 + n) =~= assembled_query(storages));
}

/// Assembly succeeds exactly when the names of the storage types differ from
/// each other and from the reserved names.
pub proof fn law_assembly_needs_unique_names(storages: Seq<StorageObject>)
    ensures
        assemble(storages) is Ok <==> (reserved_names() + typenames_of(storages)).no_duplicates(),
{
    let n = storages.len() as int;
    lemma_assembled_prefix(storages, n);
    let all = seq![component_description(typenames_of(storages))] + storage_descriptions(storages);
    assert(all.take(1 + n) =~= all);
    assert(typenames_of(storages).take(storages.len() as int) =~= typenames_of(storages));
}

/// Whether one of the storage types has the schema-facing name `typename`.
pub open spec fn has_typename(storages: Seq<StorageObjectView>, typename: Seq<char>) -> bool {
    exists|i: int| 0 <= i < storages.len() && (#[trigger] storages[i]).typename == typename
}

/// The storage types that the components give rise to: one per component
/// name, in the order in which the names first appear, with the fields that
/// the first component of the name describes. A layout that cannot be read
/// ends the discovery with its fault, the position of the faulty field and
/// the name of the component.
pub open spec fn discovered(components: Seq<Component>) -> Result<
    Seq<StorageObjectView>,
    (ParseErrorKind, int, Seq<char>),
>
    decreases components.len(),
{
    if components.len() == 0 {
        Ok(Seq::empty())
    } else {
        match discovered(components.drop_last()) {
            Err(fault) => Err(fault),
            Ok(before) => {
                let component = components.last();
                if has_typename(before, component.name@) {
                    Ok(before)
                } else {
                    match parse_definition(component.storage_definition@) {
                        Err((kind, field)) => Err((kind, field, component.name@)),
                        Ok(fields) => Ok(
                            before.push(
                                StorageObjectView {
                                    name: lowercase_of(component.name@),
                                    typename: component.name@,
                                    fields,
                                },
                            ),
                        ),
                    }
                }
            },
        }
    }
}

/// A fault among the first components is the fault of the whole.
pub proof fn lemma_discovery_fault_persists(components: Seq<Component>, n: int)
    requires
        0 <= n <= components.len(),
        discovered(components.take(n)) is Err,
    ensures
        discovered(components) == discovered(components.take(n)),
    decreases components.len() - n,
{
    if n == components.len() {
        assert(components.take(n) == components);
    } else {
        assert(components.drop_last().take(n) == components.take(n));
        lemma_discovery_fault_persists(components.drop_last(), n);
    }
}

/// No two discovered storage types share a name.
pub proof fn law_discovered_names_differ(components: Seq<Component>)
    requires
        discovered(components) is Ok,
    ensures
        forall|i: int, j: int|
            0 <= i < j < discovered(components)->Ok_0.len() ==> (#[trigger] discovered(
                components,
            )->Ok_0[i]).typename != (#[trigger] discovered(components)->Ok_0[j]).typename,
    decreases components.len(),
{
    if components.len() > 0 {
        law_discovered_names_differ(components.drop_last());
        let before = discovered(components.drop_last())->Ok_0;
        let all = discovered(components)->Ok_0;
        assert forall|i: int, j: int| 0 <= i < j < all.len() implies (#[trigger] all[i]).typename
            != (#[trigger] all[j]).typename by {
            if all.len() > before.len() {
                assert(all[i] == before[i]);
                if j < before.len() {
                    assert(all[j] == before[j]);
                }
            }
        }
    }
}

fn holds_typename(storages: &Vec<StorageObject>, typename: &str) -> (r: bool)
    ensures
        r == has_typename(storages.deep_view(), typename@),
{
    let mut k: usize = 0;
    while k < storages.len()
        invariant
            k <= storages.len(),
            forall|j: int| 0 <= j < k ==> (#[trigger] storages.deep_view()[j]).typename != typename@,
        decreases storages.len() - k,
    {
        if same_text(storages[k].typename.as_str(), typename) {
            assert(storages.deep_view()[k as int].typename == typename@);
            return true;
        }
        k = k + 1;
    }
    false
}

/// The storage types that `components` give rise to, one per component name.
///
/// The first component of a name decides the fields; later components of the
/// same name are passed over. The first layout that cannot be read ends the
/// discovery with its error.
pub fn storage_objects(components: &Vec<Component>) -> (r: Result<Vec<StorageObject>, ParseError>)
    ensures
        match r {
            Ok(storages) => discovered(components@) == Ok::<_, (ParseErrorKind, int, Seq<char>)>(
                storages.deep_view(),
            ),
            Err(e) => discovered(components@) == Err::<Seq<StorageObjectView>, _>(
                (e.kind, e.field as int, e.owner@),
            ),
        },
{
    let mut storages: Vec<StorageObject> = Vec::new();
    let mut i: usize = 0;
    assert(components@.take(0) =~= Seq::<Component>::empty());
    assert(storages.deep_view() =~= Seq::<StorageObjectView>::empty());
    while i < components.len()
        invariant
            i <= components.len(),
            discovered(components@.take(i as int)) == Ok::<_, (ParseErrorKind, int, Seq<char>)>(
                storages.deep_view(),
            ),
        decreases components.len() - i,
    {
        let component = &components[i];
        proof {
            assert(components@.take(i + 1).drop_last() =~= components@.take(i as int));
            assert(components@.take(i + 1).last() == components@[i as int]);
        }
        let ghost before = storages.deep_view();
        let known = holds_typename(&storages, component.name.as_str());
        if !known {
            match type_mapping_from_definition(
                component.storage_definition.as_str(),
                component.name.as_str(),
            ) {
                Err(e) => {
                    proof {
                        lemma_discovery_fault_persists(components@, i + 1);
                    }
                    return Err(e);
                },
                Ok(fields) => {
                    let (name, typename) = format_name(component.name.as_str());
                    let ghost items = storages@;
                    storages.push(StorageObject::new(name, typename, fields));
                    proof {
                        let view = StorageObjectView {
                            name: lowercase_of(component.name@),
                            typename: component.name@,
                            fields: parse_definition(component.storage_definition@)->Ok_0,
                        };
                        assert forall|j: int| 0 <= j < storages@.len() implies storages.deep_view()[j]
                            == before.push(view)[j] by {
                            if j < items.len() {
                                assert(storages@[j] == items[j]);
                                assert(before[j] == items[j].deep_view());
                            }
                        }
                        assert(storages.deep_view() =~= before.push(view));
                    }
                },
            }
        }
        i = i + 1;
    }
    assert(components@.take(i as int) =~= components@);
    Ok(storages)
}

/// The storage types discovered from components assemble into a schema
/// exactly when none of them has a reserved name: among themselves their
/// names differ already.
pub proof fn law_discovered_types_assemble(
    components: Seq<Component>,
    storages: Seq<StorageObject>,
)
    requires
        discovered(components) == Ok::<_, (ParseErrorKind, int, Seq<char>)>(
            Seq::new(storages.len(), |i: int| storages[i].deep_view()),
        ),
    ensures
        assemble(storages) is Ok <==> forall|i: int|
            0 <= i < storages.len() ==> !reserved_names().contains(
                (#[trigger] storages[i]).typename@,
            ),
{
    law_assembly_needs_unique_names(storages);
    law_discovered_names_differ(components);
    lemma_reserved_names();
    let found = discovered(components)->Ok_0;
    let reserved = reserved_names();
    let typenames = typenames_of(storages);
    let all = reserved + typenames;
    assert forall|i: int, j: int| 0 <= i < j < storages.len() implies typenames[i]
        != typenames[j] by {
        assert(found[i].typename == storages[i].typename@);
        assert(found[j].typename == storages[j].typename@);
    }
    if all.no_duplicates() {
        assert forall|i: int| 0 <= i < storages.len() implies !reserved.contains(
            (#[trigger] storages[i]).typename@,
        ) by {
            if reserved.contains(storages[i].typename@) {
                let k = choose|k: int| 0 <= k < reserved.len() && reserved[k] == storages[i].typename@;
                assert(all[k] == all[reserved.len() + i]);
            }
        }
    }
    if forall|i: int|
        0 <= i < storages.len() ==> !reserved.contains((#[trigger] storages[i]).typename@) {
        assert forall|a: int, b: int| 0 <= a < all.len() && 0 <= b < all.len() && a
            != b implies all[a] != all[b] by {
            let (lo, hi) = if a < b {
                (a, b)
            } else {
                (b, a)
            };
            if hi >= reserved.len() {
                let i = hi - reserved.len();
                assert(all[hi] == storages[i].typename@);
                if lo < reserved.len() {
                    assert(reserved.contains(all[lo]));
                } else {
                    assert(all[lo] == typenames[lo - reserved.len()]);
                    assert(all[hi] == typenames[i]);
                }
            }
        }
    }
}

} // verus!
