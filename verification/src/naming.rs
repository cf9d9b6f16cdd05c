//! The names derived from Rust identifiers: field names in snake case and
//! flag and value names in kebab case, as the `heck` crate writes them.
use vstd::prelude::*;

verus! {

/// What `heck` gives for `s` in kebab case.
pub uninterp spec fn heck_kebab_case(s: Seq<char>) -> Seq<char>;

/// What `heck` gives for `s` in snake case.
pub uninterp spec fn heck_snake_case(s: Seq<char>) -> Seq<char>;

/// `s` in kebab case, such as `debian-slim` for `DebianSlim`: calls
/// `heck::ToKebabCase::to_kebab_case`, whose result is taken to depend on `s` alone.
#[verifier::external_body]
pub fn kebab_case(s: &str) -> (r: String)
    ensures
        r@ == heck_kebab_case(s@),
{
    heck::ToKebabCase::to_kebab_case(s)
}

/// `s` in snake case, such as `debian_slim` for `DebianSlim`: calls
/// `heck::ToSnakeCase::to_snake_case`, whose result is taken to depend on `s` alone.
#[verifier::external_body]
pub fn snake_case(s: &str) -> (r: String)
    ensures
        r@ == heck_snake_case(s@),
{
    heck::ToSnakeCase::to_snake_case(s)
}

} // verus!
