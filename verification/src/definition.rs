//! Storage layout descriptions and the field tables they denote.
//!
//! A description lists the fields of a storage shape as `name:type` pairs
//! separated by commas, as in `x:Felt,y:Felt`. A field name is any non-empty
//! text without `:` or `,`; a type is the name of a scalar kind.

use crate::entries::{distinct_keys, has_key, lemma_key_index};
use crate::scalar::ScalarType;
use crate::text::{chars_of, find_char, index_of, lemma_index_of};
use crate::type_mapping::TypeMapping;
use vstd::prelude::*;

verus! {

/// Why a layout description was rejected.
#[derive(Clone, Copy, Debug, PartialEq, Eq, Structural)]
pub enum ParseErrorKind {
    /// The description is the empty text.
    EmptyDefinition,
    /// A field has no `:` between name and type.
    MissingSeparator,
    /// A field has nothing before its `:`.
    EmptyFieldName,
    /// A field's type names no scalar kind.
    UnknownType,
    /// A field's name was already used by an earlier field.
    DuplicateField,
}

impl ParseErrorKind {
    /// The fault in words.
    pub fn message(&self) -> (r: &'static str)
        ensures
            r@ == match self {
                ParseErrorKind::EmptyDefinition => "empty storage definition"@,
                ParseErrorKind::MissingSeparator => "field without `:` between name and type"@,
                ParseErrorKind::EmptyFieldName => "field without a name"@,
                ParseErrorKind::UnknownType => "unknown type"@,
                ParseErrorKind::DuplicateField => "duplicate field name"@,
            },
    {
        match self {
            ParseErrorKind::EmptyDefinition => "empty storage definition",
            ParseErrorKind::MissingSeparator => "field without `:` between name and type",
            ParseErrorKind::EmptyFieldName => "field without a name",
            ParseErrorKind::UnknownType => "unknown type",
            ParseErrorKind::DuplicateField => "duplicate field name",
        }
    }
}

/// A rejected layout description.
#[derive(Clone, Debug, PartialEq, Eq)]
pub struct ParseError {
    /// What is wrong.
    pub kind: ParseErrorKind,
    /// Position of the offending field, counted from zero.
    pub field: usize,
    /// Name of the type whose layout was being read.
    pub owner: String,
}

/// The pieces of `s` between its commas, in order.
pub open spec fn split_fields(s: Seq<char>) -> Seq<Seq<char>>
    decreases s.len(),
{
    let comma = index_of(s, ',');
    if comma < 0 || comma >= s.len() {
        seq![s]
    } else {
        seq![s.take(comma)] + split_fields(s.skip(comma + 1))
    }
}

/// The field that one piece denotes: the text before its first `:` is the
/// name, the rest is the type.
pub open spec fn field_of(piece: Seq<char>) -> Result<(Seq<char>, Seq<char>), ParseErrorKind> {
    let colon = index_of(piece, ':');
    if colon >= piece.len() {
        Err(ParseErrorKind::MissingSeparator)
    } else if colon == 0 {
        Err(ParseErrorKind::EmptyFieldName)
    } else if ScalarType::spec_from_name(piece.skip(colon + 1)) is None {
        Err(ParseErrorKind::UnknownType)
    } else {
        Ok((piece.take(colon), piece.skip(colon + 1)))
    }
}

/// The fields that the pieces denote, or the first fault from the left with
/// the position of its piece.
pub open spec fn fields_of(pieces: Seq<Seq<char>>) -> Result<
    Seq<(Seq<char>, Seq<char>)>,
    (ParseErrorKind, int),
>
    decreases pieces.len(),
{
    if pieces.len() == 0 {
        Ok(Seq::empty())
    } else {
        match fields_of(pieces.drop_last()) {
            Err(fault) => Err(fault),
            Ok(before) => match field_of(pieces.last()) {
                Err(kind) => Err((kind, pieces.len() - 1)),
                Ok((name, ty)) => if has_key(before, name) {
                    Err((ParseErrorKind::DuplicateField, pieces.len() - 1))
                } else {
                    Ok(before.push((name, ty)))
                },
            },
        }
    }
}

/// The field table that a layout description denotes, or why it denotes none.
pub open spec fn parse_definition(s: Seq<char>) -> Result<
    Seq<(Seq<char>, Seq<char>)>,
    (ParseErrorKind, int),
> {
    if s.len() == 0 {
        Err((ParseErrorKind::EmptyDefinition, 0))
    } else {
        fields_of(split_fields(s))
    }
}

/// A fault among the first pieces is the fault of the whole.
pub proof fn lemma_fault_persists(pieces: Seq<Seq<char>>, n: int)
    requires
        0 <= n <= pieces.len(),
        fields_of(pieces.take(n)) is Err,
    ensures
        fields_of(pieces) == fields_of(pieces.take(n)),
    decreases pieces.len() - n,
{
    if n == pieces.len() {
        assert(pieces.take(n) == pieces);
    } else {
        assert(pieces.drop_last().take(n) == pieces.take(n));
        lemma_fault_persists(pieces.drop_last(), n);
    }
}

/// The fields read so far are as many as the pieces, and their names differ.
pub proof fn lemma_fields_shape(pieces: Seq<Seq<char>>)
    requires
        fields_of(pieces) is Ok,
    ensures
        fields_of(pieces)->Ok_0.len() == pieces.len(),
        distinct_keys(fields_of(pieces)->Ok_0),
    decreases pieces.len(),
{
    if pieces.len() > 0 {
        lemma_fields_shape(pieces.drop_last());
        let before = fields_of(pieces.drop_last())->Ok_0;
        let field = field_of(pieces.last())->Ok_0;
        let after = fields_of(pieces)->Ok_0;
        lemma_key_index(before, field.0);
        assert forall|i: int, j: int| 0 <= i < j < after.len() implies (#[trigger] after[i]).0 != (
        #[trigger] after[j]).0 by {
            assert(after[i] == before[i]);
            if j < before.len() {
                assert(after[j] == before[j]);
            }
        }
    }
}

fn read_field(s: &str, chars: &Vec<char>, from: usize, to: usize) -> (r: Result<
    (String, String),
    ParseErrorKind,
>)
    requires
        chars@ == s@,
        from <= to <= chars.len(),
    ensures
        match r {
            Ok((name, ty)) => field_of(s@.subrange(from as int, to as int)) == Ok::<
                _,
                ParseErrorKind,
            >((name@, ty@)),
            Err(kind) => field_of(s@.subrange(from as int, to as int)) == Err::<
                (Seq<char>, Seq<char>),
                _,
            >(kind),
        },
{
    let ghost piece = s@.subrange(from as int, to as int);
    let colon = find_char(chars, from, to, ':');
    if colon == to {
        return Err(ParseErrorKind::MissingSeparator);
    }
    if colon == from {
        return Err(ParseErrorKind::EmptyFieldName);
    }
    let type_text = s.substring_char(colon + 1, to);
    assert(type_text@ == piece.skip(colon - from + 1));
    match ScalarType::from_name(type_text) {
        None => Err(ParseErrorKind::UnknownType),
        Some(_) => {
            let name_text = s.substring_char(from, colon);
            assert(name_text@ == piece.take(colon - from));
            Ok((name_text.to_owned(), type_text.to_owned()))
        },
    }
}

/// Reads a layout description into a field table.
///
/// `owner` is the name of the type whose layout this is; it is only carried
/// into the error. The fields come out in the order in which the description
/// lists them. A description that is empty, that holds a field without a
/// separator, without a name or with a type that names no scalar kind, or that
/// uses a field name twice, is rejected as a whole.
pub fn type_mapping_from_definition(storage_definition: &str, owner: &str) -> (r: Result<
    TypeMapping,
    ParseError,
>)
    ensures
        match r {
            Ok(mapping) => parse_definition(storage_definition@) == Ok::<_, (ParseErrorKind, int)>(
                mapping@,
            ) && mapping.wf(),
            Err(e) => parse_definition(storage_definition@) == Err::<
                Seq<(Seq<char>, Seq<char>)>,
                _,
            >((e.kind, e.field as int)) && e.owner@ == owner@,
        },
{
    let chars = chars_of(storage_definition);
    let n = chars.len();
    if n == 0 {
        return Err(
            ParseError { kind: ParseErrorKind::EmptyDefinition, field: 0, owner: owner.to_owned() },
        );
    }
    let ghost s = storage_definition@;
    let mut mapping = TypeMapping::new();
    let mut start: usize = 0;
    let mut field: usize = 0;
    let ghost mut pieces: Seq<Seq<char>> = Seq::empty();
    assert(s.skip(0) == s);
    loop
        invariant
            chars@ == s,
            s == storage_definition@,
            n == chars.len(),
            0 < n,
            start <= n,
            field <= start,
            field == pieces.len(),
            split_fields(s) == pieces + split_fields(s.skip(start as int)),
            fields_of(pieces) == Ok::<_, (ParseErrorKind, int)>(mapping@),
            mapping.wf(),
        decreases n - start,
    {
        let end = find_char(&chars, start, n, ',');
        let ghost piece = s.subrange(start as int, end as int);
        proof {
            let rest = s.skip(start as int);
            assert(rest == s.subrange(start as int, n as int));
            lemma_index_of(rest, ',');
            if end < n {
                assert(rest.take(end - start) == piece);
                assert(rest.skip(end - start + 1) == s.skip(end + 1));
                assert(pieces + (seq![piece] + split_fields(s.skip(end + 1))) == pieces.push(piece)
                    + split_fields(s.skip(end + 1)));
            } else {
                assert(piece == rest);
                assert(pieces + seq![piece] == pieces.push(piece));
            }
            assert(pieces.push(piece).drop_last() == pieces);
        }
        let ghost all = split_fields(s);
        let ghost read = pieces.push(piece);
        assert(all.take(read.len() as int) == read);
        match read_field(storage_definition, &chars, start, end) {
            Err(kind) => {
                proof {
                    lemma_fault_persists(all, read.len() as int);
                }
                return Err(ParseError { kind, field, owner: owner.to_owned() });
            },
            Ok((name, ty)) => {
                if mapping.contains_key(name.as_str()) {
                    proof {
                        lemma_fault_persists(all, read.len() as int);
                    }
                    return Err(
                        ParseError {
                            kind: ParseErrorKind::DuplicateField,
                            field,
                            owner: owner.to_owned(),
                        },
                    );
                }
                mapping.insert(name, ty);
            },
        }
        proof {
            pieces = read;
        }
        if end == n {
            assert(all == pieces);
            return Ok(mapping);
        }
        field = field + 1;
        start = end + 1;
    }
}

} // verus!
