//! String-slice equality, stated for use in contracts.

use vstd::prelude::*;

verus! {

/// Relies on `str`'s `PartialEq` from the standard library: two string
/// slices compare equal exactly when they hold the same characters.
pub assume_specification[ <str as PartialEq<str>>::eq ](a: &str, b: &str) -> (r: bool)
    ensures
        r == (a@ == b@),
;

} // verus!
