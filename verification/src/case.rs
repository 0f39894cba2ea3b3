//! Names in other cases.

use vstd::prelude::*;

verus! {

/// A name in UpperCamelCase.
pub uninterp spec fn upper_camel(name: Seq<char>) -> Seq<char>;

/// Converts a name by `heck::ToUpperCamelCase`. Trusted: the result depends on the
/// name alone.
#[verifier::external_body]
pub(crate) fn upper_camel_name(name: &str) -> (r: String)
    ensures
        r@ == upper_camel(name@),
{
    heck::ToUpperCamelCase::to_upper_camel_case(name)
}

/// A name in lowerCamelCase.
pub uninterp spec fn lower_camel(name: Seq<char>) -> Seq<char>;

/// Converts a name by `heck::ToLowerCamelCase`. Trusted: the result depends on the
/// name alone.
#[verifier::external_body]
pub(crate) fn lower_camel_name(name: &str) -> (r: String)
    ensures
        r@ == lower_camel(name@),
{
    heck::ToLowerCamelCase::to_lower_camel_case(name)
}

} // verus!
