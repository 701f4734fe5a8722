//! Writing a field table out as a layout description, and how reading and
//! writing relate: reading a description and writing the result out gives the
//! description back, and the other way round.

use crate::definition::{field_of, fields_of, lemma_fields_shape, parse_definition, split_fields,
    ParseErrorKind};
use crate::entries::{distinct_keys, has_key, lemma_key_index};
use crate::scalar::{lemma_known_name, ScalarType};
use crate::text::{free_of, index_of, lemma_index_of, lemma_index_of_is};
use vstd::prelude::*;

verus! {

/// A field as a description writes it: name, `:`, type.
pub open spec fn render_field(field: (Seq<char>, Seq<char>)) -> Seq<char> {
    field.0 + seq![':'] + field.1
}

/// The pieces with a comma between each two neighbours.
pub open spec fn join_fields(pieces: Seq<Seq<char>>) -> Seq<char>
    decreases pieces.len(),
{
    if pieces.len() == 0 {
        Seq::empty()
    } else if pieces.len() == 1 {
        pieces[0]
    } else {
        pieces[0] + seq![','] + join_fields(pieces.skip(1))
    }
}

/// The fields as pieces of a description, in order.
pub open spec fn render_fields(fields: Seq<(Seq<char>, Seq<char>)>) -> Seq<Seq<char>> {
    Seq::new(fields.len(), |i: int| render_field(fields[i]))
}

/// The description that lists exactly `fields`, in order.
pub open spec fn render(fields: Seq<(Seq<char>, Seq<char>)>) -> Seq<char> {
    join_fields(render_fields(fields))
}

/// A field that a description can hold: a non-empty name without delimiters
/// and the name of a scalar kind.
pub open spec fn valid_field(field: (Seq<char>, Seq<char>)) -> bool {
    &&& field.0.len() > 0
    &&& free_of(field.0, ':')
    &&& free_of(field.0, ',')
    &&& ScalarType::spec_from_name(field.1) is Some
}

/// A table that a description can denote: at least one field, every field
/// valid, no name used twice.
pub open spec fn valid_fields(fields: Seq<(Seq<char>, Seq<char>)>) -> bool {
    &&& fields.len() > 0
    &&& distinct_keys(fields)
    &&& forall|i: int| 0 <= i < fields.len() ==> valid_field(#[trigger] fields[i])
}

/// Splitting always gives at least one piece, and no piece holds a comma.
pub proof fn lemma_split_shape(s: Seq<char>)
    ensures
        split_fields(s).len() >= 1,
        forall|i: int| 0 <= i < split_fields(s).len() ==> free_of(#[trigger] split_fields(s)[i], ','),
    decreases s.len(),
{
    lemma_index_of(s, ',');
    let comma = index_of(s, ',');
    if comma < s.len() {
        let rest = s.skip(comma + 1);
        lemma_split_shape(rest);
        let head = s.take(comma);
        assert forall|i: int| 0 <= i < split_fields(s).len() implies free_of(
            #[trigger] split_fields(s)[i],
            ',',
        ) by {
            if i == 0 {
                assert(split_fields(s)[0] == head);
            } else {
                assert(split_fields(s)[i] == split_fields(rest)[i - 1]);
            }
        }
    }
}

/// Joining the pieces of a text gives the text back.
pub proof fn lemma_join_split(s: Seq<char>)
    ensures
        join_fields(split_fields(s)) == s,
    decreases s.len(),
{
    lemma_index_of(s, ',');
    let comma = index_of(s, ',');
    if comma < s.len() {
        let rest = s.skip(comma + 1);
        lemma_join_split(rest);
        lemma_split_shape(rest);
        let pieces = split_fields(s);
        assert(pieces.skip(1) == split_fields(rest));
        assert(pieces[0] == s.take(comma));
        assert(s.take(comma) + seq![','] + rest == s);
    }
}

/// Splitting a joined text gives the pieces back, where no piece holds a comma.
pub proof fn lemma_split_join(pieces: Seq<Seq<char>>)
    requires
        pieces.len() >= 1,
        forall|i: int| 0 <= i < pieces.len() ==> free_of(#[trigger] pieces[i], ','),
    ensures
        split_fields(join_fields(pieces)) == pieces,
    decreases pieces.len(),
{
    let joined = join_fields(pieces);
    let head = pieces[0];
    assert(free_of(head, ','));
    if pieces.len() == 1 {
        lemma_index_of_is(joined, ',', joined.len() as int);
        assert(seq![joined] == pieces);
    } else {
        let rest = pieces.skip(1);
        assert forall|i: int| 0 <= i < rest.len() implies free_of(#[trigger] rest[i], ',') by {
            assert(rest[i] == pieces[i + 1]);
        }
        lemma_split_join(rest);
        assert(joined[head.len() as int] == ',');
        assert forall|i: int| 0 <= i < head.len() implies joined[i] != ',' by {
            assert(joined[i] == head[i]);
        }
        lemma_index_of_is(joined, ',', head.len() as int);
        assert(joined.take(head.len() as int) == head);
        assert(joined.skip(head.len() as int + 1) == join_fields(rest));
        assert(seq![head] + rest == pieces);
    }
}

/// What a written-out field reads as, where its name holds no `:`.
pub proof fn lemma_field_of_rendered(field: (Seq<char>, Seq<char>))
    requires
        free_of(field.0, ':'),
    ensures
        field_of(render_field(field)) == if field.0.len() == 0 {
            Err::<(Seq<char>, Seq<char>), _>(ParseErrorKind::EmptyFieldName)
        } else if ScalarType::spec_from_name(field.1) is None {
            Err(ParseErrorKind::UnknownType)
        } else {
            Ok(field)
        },
{
    let piece = render_field(field);
    let at = field.0.len() as int;
    assert(piece[at] == ':');
    assert forall|i: int| 0 <= i < at implies piece[i] != ':' by {
        assert(piece[i] == field.0[i]);
    }
    lemma_index_of_is(piece, ':', at);
    assert(piece.take(at) == field.0);
    assert(piece.skip(at + 1) == field.1);
}

/// A piece that reads as a field is that field written out, and the field is
/// valid but for commas in its name.
pub proof fn lemma_rendered_field_of(piece: Seq<char>)
    requires
        field_of(piece) is Ok,
    ensures
        render_field(field_of(piece)->Ok_0) == piece,
        field_of(piece)->Ok_0.0.len() > 0,
        free_of(field_of(piece)->Ok_0.0, ':'),
        ScalarType::spec_from_name(field_of(piece)->Ok_0.1) is Some,
{
    lemma_index_of(piece, ':');
    let colon = index_of(piece, ':');
    assert(piece.take(colon) + seq![':'] + piece.skip(colon + 1) == piece);
}

/// Pieces that read as a table are that table written out.
pub proof fn lemma_fields_render_back(pieces: Seq<Seq<char>>)
    requires
        fields_of(pieces) is Ok,
    ensures
        render_fields(fields_of(pieces)->Ok_0) == pieces,
        forall|i: int|
            0 <= i < pieces.len() ==> {
                let field = #[trigger] fields_of(pieces)->Ok_0[i];
                &&& field.0.len() > 0
                &&& free_of(field.0, ':')
                &&& ScalarType::spec_from_name(field.1) is Some
            },
    decreases pieces.len(),
{
    lemma_fields_shape(pieces);
    let fields = fields_of(pieces)->Ok_0;
    if pieces.len() > 0 {
        let front = pieces.drop_last();
        lemma_fields_render_back(front);
        lemma_fields_shape(front);
        lemma_rendered_field_of(pieces.last());
        let before = fields_of(front)->Ok_0;
        assert forall|i: int| 0 <= i < pieces.len() implies {
            let field = #[trigger] fields[i];
            &&& field.0.len() > 0
            &&& free_of(field.0, ':')
            &&& ScalarType::spec_from_name(field.1) is Some
            &&& render_field(field) == pieces[i]
        } by {
            if i < front.len() {
                assert(fields[i] == before[i]);
                assert(render_fields(before)[i] == front[i]);
            }
        }
        assert(render_fields(fields) =~= pieces);
    } else {
        assert(render_fields(fields) =~= pieces);
    }
}

/// A table whose names hold no `:` and that reads back at all reads back as
/// itself.
pub proof fn lemma_rendered_fields_read(fields: Seq<(Seq<char>, Seq<char>)>)
    requires
        forall|i: int| 0 <= i < fields.len() ==> free_of((#[trigger] fields[i]).0, ':'),
        fields_of(render_fields(fields)) is Ok,
    ensures
        fields_of(render_fields(fields)) == Ok::<_, (ParseErrorKind, int)>(fields),
    decreases fields.len(),
{
    let pieces = render_fields(fields);
    if fields.len() > 0 {
        let front = fields.drop_last();
        assert(pieces.drop_last() =~= render_fields(front));
        assert forall|i: int| 0 <= i < front.len() implies free_of((#[trigger] front[i]).0, ':') by {
            assert(front[i] == fields[i]);
        }
        lemma_rendered_fields_read(front);
        assert(pieces.last() == render_field(fields.last()));
        lemma_field_of_rendered(fields.last());
        assert(front.push(fields.last()) =~= fields);
    } else {
        assert(fields =~= Seq::empty());
    }
}

/// A valid table written out as pieces reads back as itself.
pub proof fn lemma_valid_fields_read(fields: Seq<(Seq<char>, Seq<char>)>)
    requires
        distinct_keys(fields),
        forall|i: int| 0 <= i < fields.len() ==> valid_field(#[trigger] fields[i]),
    ensures
        fields_of(render_fields(fields)) == Ok::<_, (ParseErrorKind, int)>(fields),
    decreases fields.len(),
{
    let pieces = render_fields(fields);
    if fields.len() > 0 {
        let front = fields.drop_last();
        let last = fields.last();
        assert(pieces.drop_last() =~= render_fields(front));
        assert forall|i: int| 0 <= i < front.len() implies valid_field(#[trigger] front[i]) by {
            assert(front[i] == fields[i]);
        }
        assert forall|i: int, j: int| 0 <= i < j < front.len() implies (#[trigger] front[i]).0 != (
        #[trigger] front[j]).0 by {
            assert(front[i] == fields[i]);
            assert(front[j] == fields[j]);
        }
        lemma_valid_fields_read(front);
        assert(pieces.last() == render_field(last));
        assert(valid_field(last));
        lemma_field_of_rendered(last);
        lemma_key_index(front, last.0);
        if has_key(front, last.0) {
            let at = crate::entries::key_index(front, last.0);
            assert(front[at] == fields[at]);
            assert(fields[at].0 != fields[fields.len() - 1].0);
        }
        assert(front.push(last) =~= fields);
    } else {
        assert(fields =~= Seq::empty());
    }
}

/// A description that is read successfully is the result written out: the
/// fields of the table are the fields of the description, in the order of the
/// description, and the table is valid.
pub proof fn law_read_then_write(definition: Seq<char>)
    requires
        parse_definition(definition) is Ok,
    ensures
        valid_fields(parse_definition(definition)->Ok_0),
        render(parse_definition(definition)->Ok_0) == definition,
{
    let pieces = split_fields(definition);
    let fields = fields_of(pieces)->Ok_0;
    lemma_split_shape(definition);
    lemma_join_split(definition);
    lemma_fields_shape(pieces);
    lemma_fields_render_back(pieces);
    assert forall|i: int| 0 <= i < fields.len() implies valid_field(#[trigger] fields[i]) by {
        let name = fields[i].0;
        assert(free_of(pieces[i], ','));
        assert(render_fields(fields)[i] == pieces[i]);
        assert forall|k: int| 0 <= k < name.len() implies name[k] != ',' by {
            assert(pieces[i][k] == name[k]);
        }
    }
}

/// A valid table written out and read again is the same table.
pub proof fn law_write_then_read(fields: Seq<(Seq<char>, Seq<char>)>)
    requires
        valid_fields(fields),
    ensures
        parse_definition(render(fields)) == Ok::<_, (ParseErrorKind, int)>(fields),
{
    let pieces = render_fields(fields);
    assert forall|i: int| 0 <= i < pieces.len() implies free_of(#[trigger] pieces[i], ',') by {
        let field = fields[i];
        assert(valid_field(field));
        lemma_known_name(field.1);
        assert forall|k: int| 0 <= k < pieces[i].len() implies pieces[i][k] != ',' by {
            if k < field.0.len() {
                assert(pieces[i][k] == field.0[k]);
            } else if k > field.0.len() {
                assert(pieces[i][k] == field.1[k - field.0.len() - 1]);
            }
        }
    }
    lemma_split_join(pieces);
    lemma_valid_fields_read(fields);
    assert(valid_field(fields[0]));
    assert(pieces[0].len() > 0);
    if pieces.len() > 1 {
        assert(render(fields).len() > 0);
    }
}

/// Reading is a function of the description alone: two readings of one
/// description agree, whether they succeed or fail.
pub proof fn law_reading_is_repeatable(
    definition: Seq<char>,
    first: Result<Seq<(Seq<char>, Seq<char>)>, (ParseErrorKind, int)>,
    second: Result<Seq<(Seq<char>, Seq<char>)>, (ParseErrorKind, int)>,
)
    requires
        first == parse_definition(definition),
        second == parse_definition(definition),
    ensures
        first == second,
{
}

/// The empty description is rejected.
pub proof fn law_empty_rejected()
    ensures
        parse_definition(Seq::<char>::empty()) == Err::<Seq<(Seq<char>, Seq<char>)>, _>(
            (ParseErrorKind::EmptyDefinition, 0int),
        ),
{
}

/// A description that is the writing-out of no valid table is rejected.
pub proof fn law_malformed_rejected(definition: Seq<char>)
    requires
        forall|fields: Seq<(Seq<char>, Seq<char>)>|
            valid_fields(fields) ==> #[trigger] render(fields) != definition,
    ensures
        parse_definition(definition) is Err,
{
    if parse_definition(definition) is Ok {
        law_read_then_write(definition);
    }
}

/// A list of fields with a fault in it, written out, is rejected: a field
/// without a name, a field whose type names no scalar kind, or a field whose
/// name an earlier field already has.
pub proof fn law_faulty_field_rejected(fields: Seq<(Seq<char>, Seq<char>)>, at: int)
    requires
        0 <= at < fields.len(),
        forall|i: int|
            0 <= i < fields.len() ==> free_of((#[trigger] fields[i]).0, ':') && free_of(
                fields[i].0,
                ',',
            ) && free_of(fields[i].1, ','),
        fields[at].0.len() == 0 || ScalarType::spec_from_name(fields[at].1) is None || exists|
            earlier: int,
        |
            0 <= earlier < at && (#[trigger] fields[earlier]).0 == fields[at].0,
    ensures
        parse_definition(render(fields)) is Err,
{
    let pieces = render_fields(fields);
    let definition = render(fields);
    assert forall|i: int| 0 <= i < pieces.len() implies free_of(#[trigger] pieces[i], ',') by {
        let field = fields[i];
        assert(free_of(field.0, ','));
        assert forall|k: int| 0 <= k < pieces[i].len() implies pieces[i][k] != ',' by {
            if k < field.0.len() {
                assert(pieces[i][k] == field.0[k]);
            } else if k > field.0.len() {
                assert(pieces[i][k] == field.1[k - field.0.len() - 1]);
            }
        }
    }
    lemma_split_join(pieces);
    if parse_definition(definition) is Ok {
        lemma_rendered_fields_read(fields);
        lemma_fields_shape(pieces);
        lemma_fields_render_back(pieces);
        let read = fields_of(pieces)->Ok_0;
        assert(read == fields);
        assert(read[at] == fields[at]);
        if exists|earlier: int| 0 <= earlier < at && (#[trigger] fields[earlier]).0 == fields[at].0 {
            let earlier = choose|earlier: int|
                0 <= earlier < at && (#[trigger] fields[earlier]).0 == fields[at].0;
            assert(fields[earlier].0 != fields[at].0);
        }
    }
}

} // verus!
