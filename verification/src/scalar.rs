//! The closed set of scalar kinds and their schema-level names.

use crate::text::same_text;
use vstd::prelude::*;

verus! {

/// A scalar kind known to the schema. Every kind travels as a string.
#[derive(Clone, Copy, Debug, PartialEq, Eq, Structural)]
pub enum ScalarType {
    /// An opaque identity.
    Id,
    /// Free text.
    String,
    /// A contract address, in hexadecimal.
    Address,
    /// An element of the prime field, in canonical hexadecimal.
    Felt,
    /// A point in time: RFC 3339, whole seconds, UTC, ending in `Z`.
    DateTime,
}

impl ScalarType {
    /// The schema-level name of the kind.
    pub open spec fn spec_name(self) -> Seq<char> {
        match self {
            ScalarType::Id => "ID"@,
            ScalarType::String => "String"@,
            ScalarType::Address => "Address"@,
            ScalarType::Felt => "Felt"@,
            ScalarType::DateTime => "DateTime"@,
        }
    }

    /// The kind that `name` names, if any.
    pub open spec fn spec_from_name(name: Seq<char>) -> Option<ScalarType> {
        if name == "ID"@ {
            Some(ScalarType::Id)
        } else if name == "String"@ {
            Some(ScalarType::String)
        } else if name == "Address"@ {
            Some(ScalarType::Address)
        } else if name == "Felt"@ {
            Some(ScalarType::Felt)
        } else if name == "DateTime"@ {
            Some(ScalarType::DateTime)
        } else {
            None
        }
    }

    /// The kinds that the query language already defines.
    pub open spec fn spec_is_builtin(self) -> bool {
        self == ScalarType::Id || self == ScalarType::String
    }

    /// The schema-level name of the kind.
    pub fn name(&self) -> (r: &'static str)
        ensures
            r@ == self.spec_name(),
    {
        match self {
            ScalarType::Id => "ID",
            ScalarType::String => "String",
            ScalarType::Address => "Address",
            ScalarType::Felt => "Felt",
            ScalarType::DateTime => "DateTime",
        }
    }

    /// Looks a kind up by its schema-level name.
    pub fn from_name(name: &str) -> (r: Option<ScalarType>)
        ensures
            r == Self::spec_from_name(name@),
    {
        if same_text(name, "ID") {
            Some(ScalarType::Id)
        } else if same_text(name, "String") {
            Some(ScalarType::String)
        } else if same_text(name, "Address") {
            Some(ScalarType::Address)
        } else if same_text(name, "Felt") {
            Some(ScalarType::Felt)
        } else if same_text(name, "DateTime") {
            Some(ScalarType::DateTime)
        } else {
            None
        }
    }

    /// Whether the query language already defines the kind, so that a schema
    /// need not declare it.
    pub fn is_builtin(&self) -> (r: bool)
        ensures
            r == self.spec_is_builtin(),
    {
        match self {
            ScalarType::Id => true,
            ScalarType::String => true,
            _ => false,
        }
    }

    /// Every kind, in a fixed order.
    pub fn types() -> (r: Vec<ScalarType>)
        ensures
            r@ == all_scalars(),
    {
        let mut r: Vec<ScalarType> = Vec::new();
        r.push(ScalarType::Id);
        r.push(ScalarType::String);
        r.push(ScalarType::Address);
        r.push(ScalarType::Felt);
        r.push(ScalarType::DateTime);
        r
    }
}

/// Every kind, in a fixed order.
pub open spec fn all_scalars() -> Seq<ScalarType> {
    seq![
        ScalarType::Id,
        ScalarType::String,
        ScalarType::Address,
        ScalarType::Felt,
        ScalarType::DateTime,
    ]
}

/// Whether `c` is one of the two characters that structure a layout
/// description.
pub open spec fn is_delimiter(c: char) -> bool {
    c == ',' || c == ':'
}

/// Looking a kind up by its own name finds that kind: the names are pairwise
/// different.
pub proof fn lemma_name_round_trip(kind: ScalarType)
    ensures
        ScalarType::spec_from_name(kind.spec_name()) == Some(kind),
{
    reveal_strlit("ID");
    reveal_strlit("String");
    reveal_strlit("Address");
    reveal_strlit("Felt");
    reveal_strlit("DateTime");
    assert("ID"@.len() == 2);
    assert("String"@.len() == 6);
    assert("Address"@.len() == 7);
    assert("Felt"@.len() == 4);
    assert("DateTime"@.len() == 8);
}

/// A name that names a kind is exactly that kind's name, is not empty and
/// holds no delimiter.
pub proof fn lemma_known_name(name: Seq<char>)
    requires
        ScalarType::spec_from_name(name) is Some,
    ensures
        ScalarType::spec_from_name(name)->0.spec_name() == name,
        name.len() > 0,
        forall|i: int| 0 <= i < name.len() ==> !is_delimiter(#[trigger] name[i]),
{
    reveal_strlit("ID");
    reveal_strlit("String");
    reveal_strlit("Address");
    reveal_strlit("Felt");
    reveal_strlit("DateTime");
}

/// Every kind is listed exactly once.
pub proof fn lemma_all_scalars(kind: ScalarType)
    ensures
        all_scalars().contains(kind),
        all_scalars().no_duplicates(),
{
    let all = all_scalars();
    assert(all[0] == ScalarType::Id);
    assert(all[1] == ScalarType::String);
    assert(all[2] == ScalarType::Address);
    assert(all[3] == ScalarType::Felt);
    assert(all[4] == ScalarType::DateTime);
}

} // verus!
