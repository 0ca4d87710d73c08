//! Case conversion of names, by the convert_case crate.

use vstd::prelude::*;
use convert_case::{Case, Casing};

verus! {

/// What convert_case makes of a name in kebab case.
pub uninterp spec fn kebab_case_of(s: Seq<char>) -> Seq<char>;

/// What convert_case makes of a name in upper snake case.
pub uninterp spec fn upper_snake_case_of(s: Seq<char>) -> Seq<char>;

/// Relies on convert_case's `Casing::to_case` with `Case::Kebab`: lower-case words
/// joined by `-`, a function of the name alone.
#[verifier::external_body]
pub(crate) fn to_kebab_case(s: &String) -> (r: String)
    ensures
        r@ == kebab_case_of(s@),
{
    s.to_case(Case::Kebab)
}

/// Relies on convert_case's `Casing::to_case` with `Case::UpperSnake`: upper-case words
/// joined by `_`, a function of the name alone.
#[verifier::external_body]
pub(crate) fn to_upper_snake_case(s: &String) -> (r: String)
    ensures
        r@ == upper_snake_case_of(s@),
{
    s.to_case(Case::UpperSnake)
}

} // verus!
