//! Comparing tokens by variant.
use vstd::prelude::*;
use crate::token::Token;

verus! {

/// Whether two tokens are of the same variant, whatever they carry: an
/// identifier matches any identifier, a number any number.
pub fn enum_variant_equal(a: &Token, b: &Token) -> (r: bool)
    ensures
        r == a@.same_variant(b@),
{
    a.same_variant(b)
}

} // verus!
