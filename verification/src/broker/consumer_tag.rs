//! Names that no one else has.

use uuid::Uuid;
use vstd::prelude::*;

verus! {

/// Whether a character is a lower-case hexadecimal digit.
pub open spec fn is_lower_hex(c: char) -> bool {
    '0' <= c <= '9' || 'a' <= c <= 'f'
}

/// Whether a place of a hyphenated UUID holds a hyphen.
pub open spec fn hyphen_at(i: int) -> bool {
    i == 8 || i == 13 || i == 18 || i == 23
}

/// Whether a text is a random UUID in lower case with hyphens.
pub open spec fn is_random_uuid(s: Seq<char>) -> bool {
    &&& s.len() == 36
    &&& forall|i: int|
        0 <= i < 36 ==> if hyphen_at(i) {
            #[trigger] s[i] == '-'
        } else {
            is_lower_hex(s[i])
        }
    &&& s[14] == '4'
    &&& (s[19] == '8' || s[19] == '9' || s[19] == 'a' || s[19] == 'b')
}

/// Calls `Uuid::new_v4` and writes the UUID with hyphens.
///
/// Trusted: the text is a random UUID of version 4 and of the standard variant, in lower case
/// with hyphens. Which one it is depends on chance.
#[verifier::external_body]
fn new_uuid() -> (r: String)
    ensures
        is_random_uuid(r@),
{
    Uuid::new_v4().hyphenated().to_string()
}

/// A new name for a consumer.
pub fn new_consumer_tag() -> (r: String)
    ensures
        is_random_uuid(r@),
{
    new_uuid()
}

} // verus!
