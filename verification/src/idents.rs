//! Identifier casing and type-expression checking.
//!
//! The casing conversions and the type-expression parser live in outside
//! crates; their results are deterministic functions of the input string, so
//! each is given a name here and the callers' contracts speak of that name.

use vstd::prelude::*;

verus! {

/// The snake_case conversion of a string.
pub uninterp spec fn snake_of(s: Seq<char>) -> Seq<char>;

/// Relies on heck's `ToSnakeCase::to_snake_case` for `str`: the result
/// depends on the characters of the input alone.
#[verifier::external_body]
pub fn to_snake_case(s: &str) -> (r: String)
    ensures
        r@ == snake_of(s@),
{
    heck::ToSnakeCase::to_snake_case(s)
}

/// The UpperCamelCase conversion of a string.
pub uninterp spec fn pascal_of(s: Seq<char>) -> Seq<char>;

/// Relies on heck's `ToUpperCamelCase::to_upper_camel_case` for `str`: the
/// result depends on the characters of the input alone.
#[verifier::external_body]
pub fn to_pascal_case(s: &str) -> (r: String)
    ensures
        r@ == pascal_of(s@),
{
    heck::ToUpperCamelCase::to_upper_camel_case(s)
}

/// Whether a string parses as a type expression of the target language.
pub uninterp spec fn type_parses(s: Seq<char>) -> bool;

/// Relies on `syn::parse_str::<syn::Type>`: whether a string parses as a
/// type expression depends on the string alone.
#[verifier::external_body]
pub fn parses_as_type(s: &str) -> (r: bool)
    ensures
        r == type_parses(s@),
{
    syn::parse_str::<syn::Type>(s).is_ok()
}

} // verus!
