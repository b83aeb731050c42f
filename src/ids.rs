use vstd::prelude::*;

verus! {

/// A character of the Crockford base 32 alphabet that identifiers are written in.
pub open spec fn is_id_char(c: char) -> bool {
    ('0' <= c <= '9' || 'A' <= c <= 'Z') && c != 'I' && c != 'L' && c != 'O' && c != 'U'
}

/// The shape of a freshly made identifier: 26 characters of the base 32 alphabet.
pub open spec fn is_fresh_id(id: Seq<char>) -> bool {
    &&& id.len() == 26
    &&& forall|i: int| 0 <= i < id.len() ==> is_id_char(#[trigger] id[i])
}

/// Relies on ulid::Ulid::new and its `Display`: a new time-sortable unique
/// identifier, written as 26 characters of the Crockford base 32 alphabet.
#[verifier::external_body]
pub(crate) fn fresh_id() -> (r: String)
    ensures
        is_fresh_id(r@),
{
    ulid::Ulid::new().to_string()
}

} // verus!
