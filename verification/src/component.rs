//! Components: the identity records of a world, their value tables, and the
//! object through which they are queried.

use crate::definition::{parse_definition, type_mapping_from_definition, ParseError,
    ParseErrorKind};
use crate::entries::{first_where, lemma_bind_fresh, lemma_first_where_is, lookup};
use crate::object::{Field, FieldView, InputValue, ObjectTrait, Resolver, TypeRef, TypeRefView,
    Union, UnionView};
use crate::scalar::ScalarType;
use crate::storage::{decode_row, id_argument, id_input, matching_row, rows_view,
    storage_by_column, storage_query, storage_query_text, ColumnName, Row, Storage, StorageError,
    StorageErrorKind, StoreError};
use crate::text::{format_name, remove_quotes, same_text, without_quotes};
use crate::timestamp::Timestamp;
use crate::type_mapping::TypeMapping;
use crate::value::{extract, extract_fault, ExtractError, ExtractErrorKind, ScalarValue,
    ScalarView, ValueMapping};
use vstd::prelude::*;

verus! {

/// One row of the `components` table.
#[derive(Debug, PartialEq, Eq)]
pub struct Component {
    /// The component's identity.
    pub id: String,
    /// Name of the component's storage type.
    pub name: String,
    /// Address of the contract, in hexadecimal.
    pub address: String,
    /// Hash of the contract's class, in hexadecimal.
    pub class_hash: String,
    /// Hash of the transaction that registered the component, in hexadecimal.
    pub transaction_hash: String,
    /// Layout description of the component's storage.
    pub storage_definition: String,
    /// When the row was written.
    pub created_at: Timestamp,
}

/// The field names of a component, in schema order.
pub open spec fn component_field_names() -> Seq<Seq<char>> {
    seq![
        "id"@,
        "name"@,
        "address"@,
        "classHash"@,
        "transactionHash"@,
        "storageDefinition"@,
        "createdAt"@,
    ]
}

/// The fields of a component with their types, in schema order.
pub open spec fn component_fields() -> Seq<(Seq<char>, Seq<char>)> {
    seq![
        ("id"@, "ID"@),
        ("name"@, "String"@),
        ("address"@, "Address"@),
        ("classHash"@, "Felt"@),
        ("transactionHash"@, "Felt"@),
        ("storageDefinition"@, "String"@),
        ("createdAt"@, "DateTime"@),
    ]
}

/// The value table of a component: every column as text under its schema
/// name, the time of creation in RFC 3339.
pub open spec fn component_values(c: Component) -> Seq<(Seq<char>, ScalarView)> {
    seq![
        ("id"@, ScalarView::String(c.id@)),
        ("name"@, ScalarView::String(c.name@)),
        ("address"@, ScalarView::String(c.address@)),
        ("classHash"@, ScalarView::String(c.class_hash@)),
        ("transactionHash"@, ScalarView::String(c.transaction_hash@)),
        ("storageDefinition"@, ScalarView::String(c.storage_definition@)),
        ("createdAt"@, ScalarView::String(c.created_at.spec_text())),
    ]
}

/// The field names of a component are pairwise different.
pub proof fn lemma_component_field_names()
    ensures
        component_field_names().no_duplicates(),
{
    reveal_strlit("id");
    reveal_strlit("name");
    reveal_strlit("address");
    reveal_strlit("classHash");
    reveal_strlit("transactionHash");
    reveal_strlit("storageDefinition");
    reveal_strlit("createdAt");
    let names = component_field_names();
    assert(names[0].len() == 2);
    assert(names[1].len() == 4);
    assert(names[2].len() == 7);
    assert(names[3].len() == 9);
    assert(names[4].len() == 15);
    assert(names[5].len() == 17);
    assert(names[6].len() == 9);
    assert(names[3][1] == 'l');
    assert(names[6][1] == 'r');
}

fn put_text(values: &mut ValueMapping, name: &str, text: String)
    requires
        old(values).wf(),
        forall|j: int| 0 <= j < old(values)@.len() ==> (#[trigger] old(values)@[j]).0 != name@,
    ensures
        final(values)@ == old(values)@.push((name@, ScalarView::String(text@))),
        final(values).wf(),
{
    proof {
        lemma_bind_fresh(values@, name@, ScalarView::String(text@));
    }
    values.insert(name.to_owned(), ScalarValue::String(text));
}

fn put_type(fields: &mut TypeMapping, name: &str, ty: &str)
    requires
        old(fields).wf(),
        forall|j: int| 0 <= j < old(fields)@.len() ==> (#[trigger] old(fields)@[j]).0 != name@,
    ensures
        final(fields)@ == old(fields)@.push((name@, ty@)),
        final(fields).wf(),
{
    proof {
        lemma_bind_fresh(fields@, name@, ty@);
    }
    fields.insert(name.to_owned(), ty.to_owned());
}

/// The value table of a component.
pub fn value_mapping(component: Component) -> (r: ValueMapping)
    ensures
        r@ == component_values(component),
        r.wf(),
{
    proof {
        lemma_component_field_names();
    }
    let ghost names = component_field_names();
    let created_at = component.created_at.to_rfc3339();
    let mut r = ValueMapping::new();
    put_text(&mut r, "id", component.id);
    assert(r@[0].0 == names[0]);
    put_text(&mut r, "name", component.name);
    assert(r@[1].0 == names[1]);
    put_text(&mut r, "address", component.address);
    assert(r@[2].0 == names[2]);
    put_text(&mut r, "classHash", component.class_hash);
    assert(r@[3].0 == names[3]);
    put_text(&mut r, "transactionHash", component.transaction_hash);
    assert(r@[4].0 == names[4]);
    put_text(&mut r, "storageDefinition", component.storage_definition);
    assert(r@[5].0 == names[5]);
    put_text(&mut r, "createdAt", created_at);
    assert(r@ =~= component_values(component));
    r
}

/// Whether a component has the identity `id`.
pub open spec fn has_id(id: Seq<char>) -> spec_fn(Component) -> bool {
    |c: Component| c.id@ == id
}

/// The value table of the component among `rows` that has the identity `id`.
///
/// `rows` are rows fetched from the `components` table. Where no row has the
/// identity there is no component, which is no error.
pub fn component_by_id(rows: Vec<Component>, id: &str) -> (r: Option<ValueMapping>)
    ensures
        ({
            let at = first_where(rows@, has_id(id@));
            match r {
                Some(values) => at < rows@.len() && values@ == component_values(rows@[at])
                    && values.wf(),
                None => at >= rows@.len(),
            }
        }),
{
    let ghost all = rows@;
    for component in it: rows
        invariant
            it.seq() == all,
            all == rows@,
            forall|j: int| 0 <= j < it.index() ==> !has_id(id@)(#[trigger] all[j]),
    {
        if same_text(component.id.as_str(), id) {
            proof {
                assert(has_id(id@)(all[it.index() as int]));
                lemma_first_where_is(all, has_id(id@), it.index() as int);
            }
            return Some(value_mapping(component));
        }
        assert(!has_id(id@)(all[it.index() as int]));
    }
    proof {
        lemma_first_where_is(all, has_id(id@), all.len() as int);
    }
    None
}

/// The value tables of all `rows`, in order.
pub fn components(rows: Vec<Component>) -> (r: Vec<ValueMapping>)
    ensures
        r@.len() == rows@.len(),
        forall|i: int|
            0 <= i < rows@.len() ==> (#[trigger] r@[i])@ == component_values(rows@[i]) && r@[i].wf(),
{
    let ghost all = rows@;
    let mut out: Vec<ValueMapping> = Vec::new();
    for component in it: rows
        invariant
            it.seq() == all,
            out@.len() == it.index(),
            forall|i: int|
                0 <= i < out@.len() ==> (#[trigger] out@[i])@ == component_values(all[i])
                    && out@[i].wf(),
    {
        out.push(value_mapping(component));
    }
    out
}

/// What to fetch for a component asked for by identity.
#[derive(Debug, PartialEq, Eq)]
pub struct ComponentLookup {
    /// The query to run; its one parameter is `id`.
    pub query: String,
    /// The identity to bind.
    pub id: String,
}

/// The text of the query that fetches a component by identity.
pub open spec fn component_query_text() -> Seq<char> {
    "SELECT * FROM components WHERE id = $1"@
}

/// What to fetch for the component asked for by `id_argument`.
///
/// The argument may be written as a string literal, quotes included; the
/// identity to look up is the argument without quote characters.
pub fn component_lookup(id_argument: &str) -> (r: ComponentLookup)
    ensures
        r.query@ == component_query_text(),
        r.id@ == without_quotes(id_argument@),
{
    ComponentLookup {
        query: "SELECT * FROM components WHERE id = $1".to_owned(),
        id: remove_quotes(id_argument),
    }
}

impl ComponentLookup {
    /// The component asked for, given what the query fetched.
    ///
    /// A failure of the store is handed on as it is. Rows without the
    /// identity asked for mean that there is no such component, which is no
    /// error.
    pub fn resolve(&self, fetched: Result<Vec<Component>, StoreError>) -> (r: Result<
        Option<ValueMapping>,
        StoreError,
    >)
        ensures
            match fetched {
                Err(failure) => r matches Err(e) && e.message@ == failure.message@,
                Ok(rows) => {
                    let at = first_where(rows@, has_id(self.id@));
                    match r {
                        Ok(Some(values)) => at < rows@.len() && values@ == component_values(
                            rows@[at],
                        ) && values.wf(),
                        Ok(None) => at >= rows@.len(),
                        Err(_) => false,
                    }
                },
            },
    {
        match fetched {
            Err(failure) => Err(failure),
            Ok(rows) => Ok(component_by_id(rows, self.id.as_str())),
        }
    }
}

/// Why the storage of a component could not be resolved.
#[derive(Debug, PartialEq, Eq)]
pub enum ResolveError {
    /// The component's value table lacks a field, or holds it in another type.
    Extract(ExtractError),
    /// The component's layout description is malformed.
    Parse(ParseError),
    /// The storage row does not fit the layout.
    Storage(StorageError),
    /// The store itself failed.
    Store(StoreError),
}

/// What to fetch for the storage record of a component.
#[derive(Debug, PartialEq, Eq)]
pub struct StorageLookup {
    /// The query to run; its one parameter is `id`.
    pub query: String,
    /// Identity of the owning component, to bind.
    pub id: String,
    /// Name of the storage type; also the name of its table.
    pub typename: String,
    /// The fields of the storage type.
    pub fields: TypeMapping,
}

/// The text that `values` holds under `name`, if it holds a text there.
pub open spec fn text_field(values: Seq<(Seq<char>, ScalarView)>, name: Seq<char>) -> Option<
    Seq<char>,
> {
    match lookup(values, name) {
        Some(ScalarView::String(t)) => Some(t),
        _ => None,
    }
}

/// The first of the fields `id`, `storageDefinition` and `name`, in this
/// order, that cannot be taken out of `values` as text, and why.
pub open spec fn lookup_fault(values: Seq<(Seq<char>, ScalarView)>) -> Option<
    (ExtractErrorKind, Seq<char>),
> {
    if extract_fault::<String>(values, "id"@) is Some {
        Some((extract_fault::<String>(values, "id"@)->0, "id"@))
    } else if extract_fault::<String>(values, "storageDefinition"@) is Some {
        Some((extract_fault::<String>(values, "storageDefinition"@)->0, "storageDefinition"@))
    } else if extract_fault::<String>(values, "name"@) is Some {
        Some((extract_fault::<String>(values, "name"@)->0, "name"@))
    } else {
        None
    }
}

/// What to fetch for the storage record of the component whose value table
/// is `component_values`.
///
/// The component's identity, layout description and type name are taken out
/// of the table, in this order, and the layout is read. The first step that
/// fails decides the error.
pub fn storage_lookup(component_values: &ValueMapping) -> (r: Result<StorageLookup, ResolveError>)
    ensures
        match r {
            Ok(l) => {
                &&& lookup_fault(component_values@) is None
                &&& text_field(component_values@, "id"@) == Some(l.id@)
                &&& text_field(component_values@, "name"@) == Some(l.typename@)
                &&& parse_definition(text_field(component_values@, "storageDefinition"@)->0)
                    == Ok::<_, (ParseErrorKind, int)>(l.fields@)
                &&& l.fields.wf()
                &&& l.query@ == storage_query_text(l.typename@, ColumnName::ComponentId)
            },
            Err(ResolveError::Extract(e)) => lookup_fault(component_values@) == Some(
                (e.kind, e.field@),
            ),
            Err(ResolveError::Parse(e)) => {
                &&& lookup_fault(component_values@) is None
                &&& parse_definition(text_field(component_values@, "storageDefinition"@)->0)
                    == Err::<Seq<(Seq<char>, Seq<char>)>, _>((e.kind, e.field as int))
                &&& text_field(component_values@, "name"@) == Some(e.owner@)
            },
            Err(ResolveError::Storage(_)) => false,
            Err(ResolveError::Store(_)) => false,
        },
{
    let id = match extract::<String>(component_values, "id") {
        Ok(id) => id,
        Err(e) => {
            return Err(ResolveError::Extract(e));
        },
    };
    let definition = match extract::<String>(component_values, "storageDefinition") {
        Ok(definition) => definition,
        Err(e) => {
            return Err(ResolveError::Extract(e));
        },
    };
    let typename = match extract::<String>(component_values, "name") {
        Ok(typename) => typename,
        Err(e) => {
            return Err(ResolveError::Extract(e));
        },
    };
    match type_mapping_from_definition(definition.as_str(), typename.as_str()) {
        Err(e) => Err(ResolveError::Parse(e)),
        Ok(fields) => {
            let query = storage_query(typename.as_str(), ColumnName::ComponentId);
            Ok(StorageLookup { query, id, typename, fields })
        },
    }
}

impl StorageLookup {
    /// The storage record asked for, given what the query fetched: the first
    /// row that belongs to the component, decoded by the fields and tagged
    /// with the type name; none where no row belongs to it.
    ///
    /// A failure of the store is handed on as it is; a row that does not fit
    /// the fields is an error that names the field.
    pub fn resolve(&self, fetched: Result<Vec<Row>, StoreError>) -> (r: Result<
        Option<Storage>,
        ResolveError,
    >)
        ensures
            match fetched {
                Err(failure) => r matches Err(ResolveError::Store(e)) && e.message@
                    == failure.message@,
                Ok(rows) => {
                    let all = rows_view(rows@);
                    let at = matching_row(all, ColumnName::ComponentId.spec_name(), self.id@);
                    if at >= all.len() {
                        r matches Ok(None)
                    } else {
                        match r {
                            Ok(Some(storage)) => decode_row(all[at], self.fields@) == Ok::<
                                _,
                                (StorageErrorKind, int),
                            >(storage.values@) && storage.typename@ == self.typename@
                                && storage.values.wf(),
                            Err(ResolveError::Storage(e)) => decode_row(
                                all[at],
                                self.fields@,
                            ) matches Err((kind, field)) && e.kind == kind && 0 <= field
                                < self.fields@.len() && e.field@ == self.fields@[field].0,
                            _ => false,
                        }
                    }
                },
            },
    {
        match fetched {
            Err(failure) => Err(ResolveError::Store(failure)),
            Ok(rows) => match storage_by_column(
                &rows,
                ColumnName::ComponentId,
                self.id.as_str(),
                self.typename.as_str(),
                &self.fields,
            ) {
                Ok(found) => Ok(found),
                Err(e) => Err(ResolveError::Storage(e)),
            },
        }
    }
}

/// The object through which components are queried.
#[derive(Debug, PartialEq, Eq)]
pub struct ComponentObject {
    /// The fields of a component with their types.
    pub field_type_mapping: TypeMapping,
    /// The names of the storage types known when the object was made.
    pub storage_names: Vec<String>,
}

impl ComponentObject {
    /// The component object for a store that holds the storage types
    /// `storage_names`: the names decide the members of the storage union.
    pub fn new(storage_names: Vec<String>) -> (r: Self)
        ensures
            r.field_type_mapping@ == component_fields(),
            r.field_type_mapping.wf(),
            r.storage_names == storage_names,
    {
        proof {
            lemma_component_field_names();
        }
        let ghost names = component_field_names();
        let mut fields = TypeMapping::new();
        put_type(&mut fields, "id", ScalarType::Id.name());
        assert(fields@[0].0 == names[0]);
        put_type(&mut fields, "name", ScalarType::String.name());
        assert(fields@[1].0 == names[1]);
        put_type(&mut fields, "address", ScalarType::Address.name());
        assert(fields@[2].0 == names[2]);
        put_type(&mut fields, "classHash", ScalarType::Felt.name());
        assert(fields@[3].0 == names[3]);
        put_type(&mut fields, "transactionHash", ScalarType::Felt.name());
        assert(fields@[4].0 == names[4]);
        put_type(&mut fields, "storageDefinition", ScalarType::String.name());
        assert(fields@[5].0 == names[5]);
        put_type(&mut fields, "createdAt", ScalarType::DateTime.name());
        assert(fields@ =~= component_fields());
        ComponentObject { field_type_mapping: fields, storage_names }
    }
}

/// The union of all storage types: its name and its members.
pub open spec fn storage_union(storage_names: Seq<Seq<char>>) -> UnionView {
    UnionView { name: "Storage"@, possible_types: storage_names }
}

/// The field of a component that holds its storage record.
pub open spec fn storage_field() -> FieldView {
    FieldView {
        name: "storage"@,
        ty: TypeRefView { name: "Storage"@, non_null: false },
        arguments: Seq::empty(),
        resolver: Resolver::ComponentStorage,
    }
}

/// The entry point that finds a component by identity.
pub open spec fn component_field() -> FieldView {
    FieldView {
        name: "component"@,
        ty: TypeRefView { name: "Component"@, non_null: true },
        arguments: seq![id_argument()],
        resolver: Resolver::ComponentById,
    }
}

impl ObjectTrait for ComponentObject {
    open spec fn spec_name(&self) -> Seq<char> {
        "component"@
    }

    open spec fn spec_typename(&self) -> Seq<char> {
        "Component"@
    }

    open spec fn spec_fields(&self) -> Seq<(Seq<char>, Seq<char>)> {
        self.field_type_mapping@
    }

    open spec fn spec_unions(&self) -> Option<Seq<UnionView>> {
        Some(seq![storage_union(self.storage_names.deep_view())])
    }

    open spec fn spec_nested_fields(&self) -> Option<Seq<FieldView>> {
        Some(seq![storage_field()])
    }

    open spec fn spec_resolvers(&self) -> Seq<FieldView> {
        seq![component_field()]
    }

    fn name(&self) -> (r: &str) {
        "component"
    }

    fn typename(&self) -> (r: &str) {
        "Component"
    }

    fn field_type_mapping(&self) -> (r: &TypeMapping) {
        &self.field_type_mapping
    }

    /// The storage union, with one member per storage name, in order.
    fn unions(&self) -> (r: Option<Vec<Union>>) {
        let mut possible_types: Vec<String> = Vec::new();
        let mut i: usize = 0;
        while i < self.storage_names.len()
            invariant
                i <= self.storage_names.len(),
                possible_types@.len() == i,
                possible_types.deep_view() == self.storage_names.deep_view().take(i as int),
            decreases self.storage_names.len() - i,
        {
            let (_, typename) = format_name(self.storage_names[i].as_str());
            let ghost before = possible_types@;
            possible_types.push(typename);
            proof {
                let after = possible_types.deep_view();
                let wanted = self.storage_names.deep_view().take(i + 1);
                assert forall|j: int| 0 <= j < after.len() implies after[j] == wanted[j] by {
                    if j < i {
                        assert(possible_types@[j] == before[j]);
                        assert(before.len() == i);
                        assert(self.storage_names.deep_view().take(i as int)[j] == wanted[j]);
                    } else {
                        assert(possible_types@[j] == typename);
                    }
                }
                assert(after =~= wanted);
            }
            i = i + 1;
        }
        assert(self.storage_names.deep_view().take(i as int) == self.storage_names.deep_view());
        let union = Union { name: "Storage".to_owned(), possible_types };
        let mut unions: Vec<Union> = Vec::new();
        unions.push(union);
        assert(unions.deep_view() =~= seq![storage_union(self.storage_names.deep_view())]);
        Some(unions)
    }

    /// The one nested field, `storage`: the storage record of the component,
    /// a member of the storage union.
    fn nested_fields(&self) -> (r: Option<Vec<Field>>) {
        let field = Field {
            name: "storage".to_owned(),
            ty: TypeRef::named("Storage"),
            arguments: Vec::new(),
            resolver: Resolver::ComponentStorage,
        };
        assert(field.arguments.deep_view() =~= Seq::empty());
        let mut fields: Vec<Field> = Vec::new();
        fields.push(field);
        assert(fields.deep_view() =~= seq![storage_field()]);
        Some(fields)
    }

    /// The one entry point, `component(id: ID!): Component!`.
    fn resolvers(&self) -> (r: Vec<Field>) {
        let mut arguments: Vec<InputValue> = Vec::new();
        arguments.push(id_input());
        let field = Field {
            name: self.name().to_owned(),
            ty: TypeRef::named_nn(self.typename()),
            arguments,
            resolver: Resolver::ComponentById,
        };
        assert(field.arguments.deep_view() =~= seq![id_argument()]);
        let mut r: Vec<Field> = Vec::new();
        r.push(field);
        assert(r.deep_view() =~= seq![component_field()]);
        r
    }
}

} // verus!
