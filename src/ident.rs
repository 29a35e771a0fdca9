use convert_case::{Case, Casing};
use vstd::prelude::*;

verus! {

/// What `convert_case` makes of a name in snake case.
pub uninterp spec fn snake_case_of(s: Seq<char>) -> Seq<char>;

/// What `str::to_uppercase` makes of a text.
pub uninterp spec fn uppercase_of(s: Seq<char>) -> Seq<char>;

/// The identifier that the encode, decode and check functions of a container share.
pub open spec fn obj_identifier(name: Seq<char>) -> Seq<char> {
    uppercase_of(snake_case_of(name))
}

/// Relies on convert_case's `Casing::to_case` with `Case::Snake`: a function of the
/// text alone, with no locale.
#[verifier::external_body]
fn to_snake_case(s: &str) -> (r: String)
    ensures
        r@ == snake_case_of(s@),
{
    s.to_case(Case::Snake)
}

/// Relies on `str::to_uppercase`: Unicode upper case, a function of the text alone.
#[verifier::external_body]
fn to_uppercase(s: &str) -> (r: String)
    ensures
        r@ == uppercase_of(s@),
{
    s.to_uppercase()
}

/// Derives the shared identifier of a container from its name.
pub fn to_obj_identifier(name: &str) -> (r: String)
    ensures
        r@ == obj_identifier(name@),
{
    let snake = to_snake_case(name);
    to_uppercase(snake.as_str())
}

} // verus!
