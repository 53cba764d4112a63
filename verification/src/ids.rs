//! Fresh random identifiers.

use vstd::prelude::*;

verus! {

/// A lowercase hexadecimal digit.
pub open spec fn is_hex_digit(c: char) -> bool {
    ('0' <= c <= '9') || ('a' <= c <= 'f')
}

/// 32 lowercase hexadecimal digits.
pub open spec fn hex_id(s: Seq<char>) -> bool {
    s.len() == 32 && forall|i: int| 0 <= i < s.len() ==> is_hex_digit(#[trigger] s[i])
}

/// `uuid` `Uuid::new_v4().simple()` as text: the `simple` form writes the
/// 128 bits as 32 lowercase hexadecimal digits. The digits are random, so
/// only their form is stated.
#[verifier::external_body]
pub(crate) fn random_hex_id() -> (r: String)
    ensures
        hex_id(r@),
{
    uuid::Uuid::new_v4().simple().to_string()
}

} // verus!
