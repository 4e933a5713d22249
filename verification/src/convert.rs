//! What the conversions of `std` give that the library relies on.

use vstd::prelude::*;

verus! {

/// `String::from` for a string slice.
///
/// Trusted: the string has the text of the slice.
pub assume_specification<'a>[ <String as From<&'a str>>::from ](s: &str) -> (r: String)
    ensures
        r@ == s@,
;

/// `From::from` of a type for itself.
///
/// Trusted: the argument comes back unchanged.
pub assume_specification<T>[ <T as From<T>>::from ](t: T) -> (r: T)
    ensures
        r == t,
;

} // verus!
