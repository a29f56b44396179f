//! Fresh identifiers.
use vstd::prelude::*;

use crate::numbers::is_digit;

verus! {

/// The hexadecimal digits, letters small.
pub open spec fn is_hex(c: char) -> bool {
    is_digit(c) || 'a' <= c <= 'f'
}

/// The digits that mark the variant of a random UUID.
pub open spec fn is_variant_digit(c: char) -> bool {
    c == '8' || c == '9' || c == 'a' || c == 'b'
}

/// A random UUID without hyphens.
pub open spec fn is_simple_id(id: Seq<char>) -> bool {
    &&& id.len() == 32
    &&& forall|i: int| 0 <= i < id.len() ==> is_hex(#[trigger] id[i])
    &&& id[12] == '4'
    &&& is_variant_digit(id[16])
}

/// A random UUID with hyphens.
pub open spec fn is_hyphenated_id(id: Seq<char>) -> bool {
    &&& id.len() == 36
    &&& forall|i: int|
        0 <= i < id.len() ==> if i == 8 || i == 13 || i == 18 || i == 23 {
            #[trigger] id[i] == '-'
        } else {
            is_hex(id[i])
        }
    &&& id[14] == '4'
    &&& is_variant_digit(id[19])
}

/// A UUID can be part of the name of a file.
pub proof fn lemma_id_has_no_slash(id: Seq<char>)
    requires
        is_hyphenated_id(id),
    ensures
        !id.contains('/'),
{
}

/// Calls `uuid::Uuid::new_v4` and writes the UUID in its simple form: 32
/// hexadecimal digits, among them those of the version and the variant. Which
/// UUID comes is left to chance, and that two calls differ is not claimed.
#[verifier::external_body]
pub(crate) fn new_simple_id() -> (id: String)
    ensures
        is_simple_id(id@),
{
    uuid::Uuid::new_v4().simple().to_string()
}

/// Calls `uuid::Uuid::new_v4` and writes the UUID in its hyphenated form: 32
/// hexadecimal digits in groups of 8, 4, 4, 4 and 12, among them those of the
/// version and the variant. Which UUID comes is left to chance, and that two
/// calls differ is not claimed.
#[verifier::external_body]
pub(crate) fn new_hyphenated_id() -> (id: String)
    ensures
        is_hyphenated_id(id@),
{
    uuid::Uuid::new_v4().to_string()
}

} // verus!
