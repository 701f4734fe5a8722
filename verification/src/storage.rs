//! Storage records: fetched rows decoded by a field table.
//!
//! A storage table has one column per field of its type's layout, besides the
//! columns that identify the row and its owner. Decoding goes by the field
//! table alone: its fields, in its order, each looked up in the row by name.

use crate::entries::{bind, distinct_keys, first_where, keys_of, lemma_bind_fresh,
    lemma_first_where_is, lemma_key_index_is, lookup};
use crate::object::{Field, FieldView, InputValue, InputValueView, ObjectTrait, Resolver, TypeRef,
    TypeRefView, Union, UnionView};
use crate::scalar::ScalarType;
use crate::text::same_text;
use crate::type_mapping::TypeMapping;
use crate::value::{ScalarValue, ScalarView, ValueMapping};
use vstd::prelude::*;

verus! {

/// The columns by which a storage row is found.
#[derive(Clone, Copy, Debug, PartialEq, Eq, Structural)]
pub enum ColumnName {
    /// The row's own identity.
    Id,
    /// The identity of the component that owns the row.
    ComponentId,
}

impl ColumnName {
    /// The column's name in the store.
    pub open spec fn spec_name(self) -> Seq<char> {
        match self {
            ColumnName::Id => "id"@,
            ColumnName::ComponentId => "component_id"@,
        }
    }

    /// The column's name in the store.
    pub fn as_str(&self) -> (r: &'static str)
        ensures
            r@ == self.spec_name(),
    {
        match self {
            ColumnName::Id => "id",
            ColumnName::ComponentId => "component_id",
        }
    }
}

/// What a column of a fetched row holds.
#[derive(Debug, PartialEq, Eq)]
pub enum ColumnValue {
    /// Nothing.
    Null,
    /// A whole number.
    Integer(i64),
    /// A text.
    Text(String),
}

/// What a [`ColumnValue`] holds, as mathematics.
pub enum ColumnView {
    Null,
    Integer(int),
    Text(Seq<char>),
}

impl View for ColumnValue {
    type V = ColumnView;

    open spec fn view(&self) -> ColumnView {
        match self {
            ColumnValue::Null => ColumnView::Null,
            ColumnValue::Integer(n) => ColumnView::Integer(*n as int),
            ColumnValue::Text(t) => ColumnView::Text(t@),
        }
    }
}

/// A fetched row: its columns by name, in the store's physical order.
#[derive(Debug, PartialEq, Eq)]
pub struct Row {
    pub columns: Vec<(String, ColumnValue)>,
}

impl View for Row {
    type V = Seq<(Seq<char>, ColumnView)>;

    open spec fn view(&self) -> Self::V {
        Seq::new(self.columns@.len(), |i: int| (self.columns@[i].0@, self.columns@[i].1@))
    }
}

impl Row {
    /// What the column `name` holds; the first such column where the row has
    /// several.
    pub fn get(&self, name: &str) -> (r: Option<&ColumnValue>)
        ensures
            match r {
                Some(v) => lookup(self@, name@) == Some(v@),
                None => lookup(self@, name@) is None,
            },
    {
        let mut i: usize = 0;
        while i < self.columns.len()
            invariant
                i <= self.columns.len(),
                forall|j: int| 0 <= j < i ==> (#[trigger] self@[j]).0 != name@,
            decreases self.columns.len() - i,
        {
            if same_text(self.columns[i].0.as_str(), name) {
                proof {
                    assert(self@[i as int].0 == name@);
                    lemma_key_index_is(self@, name@, i as int);
                }
                return Some(&self.columns[i].1);
            }
            i = i + 1;
        }
        proof {
            lemma_key_index_is(self@, name@, self@.len() as int);
        }
        None
    }
}

/// Why a row could not be decoded.
#[derive(Clone, Copy, Debug, PartialEq, Eq, Structural)]
pub enum StorageErrorKind {
    /// The field's type names no scalar kind.
    UnknownType,
    /// The row has no column of the field's name.
    MissingColumn,
    /// The column holds a value that the field's type does not admit.
    TypeMismatch,
}

impl StorageErrorKind {
    /// The fault in words.
    pub fn message(&self) -> (r: &'static str)
        ensures
            r@ == match self {
                StorageErrorKind::UnknownType => "unknown type"@,
                StorageErrorKind::MissingColumn => "column missing"@,
                StorageErrorKind::TypeMismatch => "type mismatch"@,
            },
    {
        match self {
            StorageErrorKind::UnknownType => "unknown type",
            StorageErrorKind::MissingColumn => "column missing",
            StorageErrorKind::TypeMismatch => "type mismatch",
        }
    }
}

/// A row that could not be decoded.
#[derive(Debug, PartialEq, Eq)]
pub struct StorageError {
    /// What is wrong.
    pub kind: StorageErrorKind,
    /// Name of the offending field.
    pub field: String,
}

/// A failure of the store itself: no connection, a query that did not run.
/// The message is the store's own.
#[derive(Debug, PartialEq, Eq)]
pub struct StoreError {
    pub message: String,
}

/// A decoded storage record, tagged with the name of its type.
#[derive(Debug, PartialEq, Eq)]
pub struct Storage {
    /// Name of the storage type; selects the member of the storage union.
    pub typename: String,
    /// The record's fields.
    pub values: ValueMapping,
}

/// The value of one field, decoded from the row's column of that name. Every
/// scalar kind is kept as text; an empty column gives the null value.
pub open spec fn decode_field(row: Seq<(Seq<char>, ColumnView)>, field: (Seq<char>, Seq<char>))
    -> Result<ScalarView, StorageErrorKind> {
    if ScalarType::spec_from_name(field.1) is None {
        Err(StorageErrorKind::UnknownType)
    } else {
        match lookup(row, field.0) {
            None => Err(StorageErrorKind::MissingColumn),
            Some(ColumnView::Null) => Ok(ScalarView::Null),
            Some(ColumnView::Text(t)) => Ok(ScalarView::String(t)),
            Some(ColumnView::Integer(_)) => Err(StorageErrorKind::TypeMismatch),
        }
    }
}

/// The row decoded by the field table: one value per field, in the table's
/// order; or the first fault, with the position of its field. Every value is
/// bound under its field's name, so a table that held a name twice would
/// give the later value in the earlier place.
pub open spec fn decode_row(
    row: Seq<(Seq<char>, ColumnView)>,
    fields: Seq<(Seq<char>, Seq<char>)>,
) -> Result<Seq<(Seq<char>, ScalarView)>, (StorageErrorKind, int)>
    decreases fields.len(),
{
    if fields.len() == 0 {
        Ok(Seq::empty())
    } else {
        match decode_row(row, fields.drop_last()) {
            Err(fault) => Err(fault),
            Ok(before) => match decode_field(row, fields.last()) {
                Err(kind) => Err((kind, fields.len() - 1)),
                Ok(value) => Ok(bind(before, fields.last().0, value)),
            },
        }
    }
}

/// A fault among the first fields is the fault of the whole.
pub proof fn lemma_decode_fault_persists(
    row: Seq<(Seq<char>, ColumnView)>,
    fields: Seq<(Seq<char>, Seq<char>)>,
    n: int,
)
    requires
        0 <= n <= fields.len(),
        decode_row(row, fields.take(n)) is Err,
    ensures
        decode_row(row, fields) == decode_row(row, fields.take(n)),
    decreases fields.len() - n,
{
    if n == fields.len() {
        assert(fields.take(n) == fields);
    } else {
        assert(fields.drop_last().take(n) == fields.take(n));
        lemma_decode_fault_persists(row, fields.drop_last(), n);
    }
}

/// A record decoded by a well-formed table has exactly the fields of the
/// table, in the table's order, each with the value decoded for it.
pub proof fn law_decoded_fields(
    row: Seq<(Seq<char>, ColumnView)>,
    fields: Seq<(Seq<char>, Seq<char>)>,
)
    requires
        distinct_keys(fields),
        decode_row(row, fields) is Ok,
    ensures
        keys_of(decode_row(row, fields)->Ok_0) == keys_of(fields),
        forall|i: int|
            0 <= i < fields.len() ==> decode_field(row, fields[i]) == Ok::<_, StorageErrorKind>(
                (#[trigger] decode_row(row, fields)->Ok_0[i]).1,
            ),
    decreases fields.len(),
{
    let values = decode_row(row, fields)->Ok_0;
    if fields.len() > 0 {
        let front = fields.drop_last();
        assert forall|i: int, j: int| 0 <= i < j < front.len() implies (#[trigger] front[i]).0 != (
        #[trigger] front[j]).0 by {
            assert(front[i] == fields[i]);
            assert(front[j] == fields[j]);
        }
        law_decoded_fields(row, front);
        let before = decode_row(row, front)->Ok_0;
        let last = fields.last();
        assert(keys_of(before).len() == front.len());
        assert forall|i: int| 0 <= i < before.len() implies (#[trigger] before[i]).0 != last.0 by {
            assert(keys_of(before)[i] == keys_of(front)[i]);
            assert(front[i] == fields[i]);
            assert(fields[i].0 != fields[fields.len() - 1].0);
        }
        lemma_bind_fresh(before, last.0, decode_field(row, last)->Ok_0);
        assert forall|i: int| 0 <= i < fields.len() implies values[i].0 == fields[i].0
            && decode_field(row, fields[i]) == Ok::<_, StorageErrorKind>(values[i].1) by {
            if i < fields.len() - 1 {
                assert(values[i] == before[i]);
                assert(keys_of(before)[i] == keys_of(front)[i]);
                assert(front[i] == fields[i]);
            }
        }
        assert(keys_of(values) =~= keys_of(fields));
    } else {
        assert(keys_of(values) =~= keys_of(fields));
    }
}

/// The text of the query that fetches the rows of `table` whose `column`
/// holds a given identity, the identity being bound to the `?`.
pub open spec fn storage_query_text(table: Seq<char>, column: ColumnName) -> Seq<char> {
    "SELECT * FROM "@ + table + " WHERE "@ + column.spec_name() + " = ?"@
}

/// The text of the query that fetches the rows of `table` whose `column`
/// holds a given identity, the identity being bound to the `?`.
pub fn storage_query(table: &str, column: ColumnName) -> (r: String)
    ensures
        r@ == storage_query_text(table@, column),
{
    let mut r = "SELECT * FROM ".to_owned();
    r.append(table);
    r.append(" WHERE ");
    r.append(column.as_str());
    r.append(" = ?");
    r
}

/// Decodes `row` by the field table `fields`.
///
/// The result holds one value per field of the table, under the field's name
/// and in the table's order, whatever the order of the row's columns and
/// whatever else the row holds. A field whose type names no scalar kind, whose
/// column is missing or whose column holds a number is an error that names
/// the field; the first such field from the left decides.
pub fn value_mapping_from_row(row: &Row, fields: &TypeMapping) -> (r: Result<
    ValueMapping,
    StorageError,
>)
    ensures
        match r {
            Ok(values) => decode_row(row@, fields@) == Ok::<_, (StorageErrorKind, int)>(values@)
                && values.wf(),
            Err(e) => decode_row(row@, fields@) matches Err((kind, at)) && e.kind == kind && 0 <= at
                < fields@.len() && e.field@ == fields@[at].0,
        },
{
    let n = fields.len();
    let mut values = ValueMapping::new();
    let mut i: usize = 0;
    assert(fields@.take(0) == Seq::<(Seq<char>, Seq<char>)>::empty());
    while i < n
        invariant
            n == fields@.len(),
            i <= n,
            decode_row(row@, fields@.take(i as int)) == Ok::<_, (StorageErrorKind, int)>(values@),
            values.wf(),
        decreases n - i,
    {
        let ghost next = fields@.take(i + 1);
        proof {
            assert(next.drop_last() == fields@.take(i as int));
            assert(next.last() == fields@[i as int]);
        }
        let pair = fields.get_index(i);
        let (name, ty) = pair.unwrap();
        let decoded = match ScalarType::from_name(ty.as_str()) {
            None => Err(StorageErrorKind::UnknownType),
            Some(_) => match row.get(name.as_str()) {
                None => Err(StorageErrorKind::MissingColumn),
                Some(ColumnValue::Null) => Ok(ScalarValue::Null),
                Some(ColumnValue::Text(t)) => Ok(ScalarValue::String(t.clone())),
                Some(ColumnValue::Integer(_)) => Err(StorageErrorKind::TypeMismatch),
            },
        };
        match decoded {
            Err(kind) => {
                proof {
                    lemma_decode_fault_persists(row@, fields@, i + 1);
                }
                return Err(StorageError { kind, field: name.clone() });
            },
            Ok(value) => {
                values.insert(name.clone(), value);
            },
        }
        i = i + 1;
    }
    assert(fields@.take(n as int) == fields@);
    Ok(values)
}

/// Whether the row's column `column` holds the text `id`.
pub open spec fn row_has_id(row: Seq<(Seq<char>, ColumnView)>, column: Seq<char>, id: Seq<char>)
    -> bool {
    lookup(row, column) == Some(ColumnView::Text(id))
}

/// The views of the rows, in order.
pub open spec fn rows_view(rows: Seq<Row>) -> Seq<Seq<(Seq<char>, ColumnView)>> {
    Seq::new(rows.len(), |i: int| rows[i]@)
}

/// Position of the first row whose `column` holds `id`, or the number of rows
/// where there is none.
pub open spec fn matching_row(
    rows: Seq<Seq<(Seq<char>, ColumnView)>>,
    column: Seq<char>,
    id: Seq<char>,
) -> int {
    first_where(rows, |row: Seq<(Seq<char>, ColumnView)>| row_has_id(row, column, id))
}

/// The storage record among `rows` that `column` ties to `id`, decoded by
/// `fields` and tagged with `typename`.
///
/// `rows` are rows fetched from the table of the storage type. The first row
/// whose `column` holds `id` is decoded; where no row does, there is no
/// record, which is no error.
pub fn storage_by_column(
    rows: &Vec<Row>,
    column: ColumnName,
    id: &str,
    typename: &str,
    fields: &TypeMapping,
) -> (r: Result<Option<Storage>, StorageError>)
    ensures
        ({
            let all = rows_view(rows@);
            let at = matching_row(all, column.spec_name(), id@);
            if at >= all.len() {
                r matches Ok(None)
            } else {
                match r {
                    Ok(Some(storage)) => decode_row(all[at], fields@) == Ok::<
                        _,
                        (StorageErrorKind, int),
                    >(storage.values@) && storage.typename@ == typename@ && storage.values.wf(),
                    Ok(None) => false,
                    Err(e) => decode_row(all[at], fields@) matches Err((kind, field)) && e.kind
                        == kind && 0 <= field < fields@.len() && e.field@ == fields@[field].0,
                }
            }
        }),
{
    let ghost all = rows_view(rows@);
    let ghost p = |row: Seq<(Seq<char>, ColumnView)>| row_has_id(row, column.spec_name(), id@);
    let mut i: usize = 0;
    while i < rows.len()
        invariant
            i <= rows.len(),
            all == rows_view(rows@),
            p == |row: Seq<(Seq<char>, ColumnView)>| row_has_id(row, column.spec_name(), id@),
            forall|j: int| 0 <= j < i ==> !p(#[trigger] all[j]),
        decreases rows.len() - i,
    {
        let found = match rows[i].get(column.as_str()) {
            Some(ColumnValue::Text(t)) => same_text(t.as_str(), id),
            _ => false,
        };
        assert(found == p(all[i as int]));
        if found {
            proof {
                lemma_first_where_is(all, p, i as int);
            }
            return match value_mapping_from_row(&rows[i], fields) {
                Ok(values) => Ok(Some(Storage { typename: typename.to_owned(), values })),
                Err(e) => Err(e),
            };
        }
        i = i + 1;
    }
    proof {
        lemma_first_where_is(all, p, all.len() as int);
    }
    Ok(None)
}

/// In a row whose column names differ, a column holds a value exactly when
/// the pair of the two is among the row's columns.
pub proof fn lemma_lookup_contains<V>(entries: Seq<(Seq<char>, V)>, key: Seq<char>, value: V)
    requires
        distinct_keys(entries),
    ensures
        lookup(entries, key) == Some(value) <==> entries.contains((key, value)),
{
    crate::entries::lemma_key_index(entries, key);
    let at = crate::entries::key_index(entries, key);
    if lookup(entries, key) == Some(value) {
        assert(entries[at] == (key, value));
    }
    if entries.contains((key, value)) {
        let i = choose|i: int| 0 <= i < entries.len() && entries[i] == (key, value);
        assert(entries[i].0 == key);
        if at < i {
            assert(entries[at].0 != entries[i].0);
        }
    }
}

/// Decoding goes by column names alone: two rows that hold the same under
/// every field name of the table decode alike.
pub proof fn law_decode_by_name(
    row_a: Seq<(Seq<char>, ColumnView)>,
    row_b: Seq<(Seq<char>, ColumnView)>,
    fields: Seq<(Seq<char>, Seq<char>)>,
)
    requires
        forall|i: int|
            0 <= i < fields.len() ==> lookup(row_a, (#[trigger] fields[i]).0) == lookup(
                row_b,
                fields[i].0,
            ),
    ensures
        decode_row(row_a, fields) == decode_row(row_b, fields),
    decreases fields.len(),
{
    if fields.len() > 0 {
        let front = fields.drop_last();
        assert forall|i: int| 0 <= i < front.len() implies lookup(row_a, (#[trigger] front[i]).0)
            == lookup(row_b, front[i].0) by {
            assert(front[i] == fields[i]);
        }
        law_decode_by_name(row_a, row_b, front);
        assert(fields.last() == fields[fields.len() - 1]);
    }
}

/// The physical order of the columns does not matter: a row and any
/// rearrangement of its columns decode alike.
pub proof fn law_column_order(
    row: Seq<(Seq<char>, ColumnView)>,
    rearranged: Seq<(Seq<char>, ColumnView)>,
    fields: Seq<(Seq<char>, Seq<char>)>,
)
    requires
        distinct_keys(row),
        distinct_keys(rearranged),
        row.to_multiset() == rearranged.to_multiset(),
    ensures
        decode_row(row, fields) == decode_row(rearranged, fields),
{
    assert forall|i: int| 0 <= i < fields.len() implies lookup(row, (#[trigger] fields[i]).0)
        == lookup(rearranged, fields[i].0) by {
        let key = fields[i].0;
        row.to_multiset_ensures();
        rearranged.to_multiset_ensures();
        match lookup(row, key) {
            Some(value) => {
                lemma_lookup_contains(row, key, value);
                assert(row.to_multiset().count((key, value)) > 0);
                assert(rearranged.contains((key, value)));
                lemma_lookup_contains(rearranged, key, value);
            },
            None => {
                match lookup(rearranged, key) {
                    Some(value) => {
                        lemma_lookup_contains(rearranged, key, value);
                        assert(rearranged.to_multiset().count((key, value)) > 0);
                        assert(row.contains((key, value)));
                        lemma_lookup_contains(row, key, value);
                    },
                    None => {},
                }
            },
        }
    }
    law_decode_by_name(row, rearranged, fields);
}

/// A storage type discovered in the store.
#[derive(Debug, PartialEq, Eq)]
pub struct StorageObject {
    /// The internal identifier.
    pub name: String,
    /// The schema-facing identifier; also the name of the type's table.
    pub typename: String,
    /// The type's fields, as its layout description lists them.
    pub field_type_mapping: TypeMapping,
}

/// What a [`StorageObject`] holds, as mathematics.
pub struct StorageObjectView {
    pub name: Seq<char>,
    pub typename: Seq<char>,
    pub fields: Seq<(Seq<char>, Seq<char>)>,
}

impl DeepView for StorageObject {
    type V = StorageObjectView;

    open spec fn deep_view(&self) -> StorageObjectView {
        StorageObjectView {
            name: self.name@,
            typename: self.typename@,
            fields: self.field_type_mapping@,
        }
    }
}

impl StorageObject {
    /// The storage type with the given names and fields.
    pub fn new(name: String, typename: String, field_type_mapping: TypeMapping) -> (r: Self)
        ensures
            r.name == name,
            r.typename == typename,
            r.field_type_mapping == field_type_mapping,
    {
        StorageObject { name, typename, field_type_mapping }
    }
}

/// The argument by which a record is asked for: a non-null `id` of kind `ID`.
pub open spec fn id_argument() -> InputValueView {
    InputValueView { name: "id"@, ty: TypeRefView { name: "ID"@, non_null: true } }
}

/// The argument by which a record is asked for: a non-null `id` of kind `ID`.
pub fn id_input() -> (r: InputValue)
    ensures
        r.deep_view() == id_argument(),
{
    InputValue { name: "id".to_owned(), ty: TypeRef::named_nn(ScalarType::Id.name()) }
}

impl ObjectTrait for StorageObject {
    open spec fn spec_name(&self) -> Seq<char> {
        self.name@
    }

    open spec fn spec_typename(&self) -> Seq<char> {
        self.typename@
    }

    open spec fn spec_fields(&self) -> Seq<(Seq<char>, Seq<char>)> {
        self.field_type_mapping@
    }

    open spec fn spec_unions(&self) -> Option<Seq<UnionView>> {
        None
    }

    open spec fn spec_nested_fields(&self) -> Option<Seq<FieldView>> {
        None
    }

    open spec fn spec_resolvers(&self) -> Seq<FieldView> {
        seq![
            FieldView {
                name: self.name@,
                ty: TypeRefView { name: self.typename@, non_null: true },
                arguments: seq![id_argument()],
                resolver: Resolver::StorageById,
            },
        ]
    }

    fn name(&self) -> (r: &str) {
        self.name.as_str()
    }

    fn typename(&self) -> (r: &str) {
        self.typename.as_str()
    }

    fn field_type_mapping(&self) -> (r: &TypeMapping) {
        &self.field_type_mapping
    }

    fn unions(&self) -> (r: Option<Vec<Union>>) {
        None
    }

    fn nested_fields(&self) -> (r: Option<Vec<Field>>) {
        None
    }

    fn resolvers(&self) -> (r: Vec<Field>) {
        let mut arguments: Vec<InputValue> = Vec::new();
        arguments.push(id_input());
        let field = Field {
            name: self.name.clone(),
            ty: TypeRef::named_nn(self.typename.as_str()),
            arguments,
            resolver: Resolver::StorageById,
        };
        assert(field.arguments.deep_view() =~= seq![id_argument()]);
        let mut r: Vec<Field> = Vec::new();
        r.push(field);
        assert(r.deep_view() =~= self.spec_resolvers());
        r
    }
}

} // verus!
