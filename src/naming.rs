use vstd::prelude::*;

verus! {

/// What `heck::SnakeCase::to_snake_case` gives for a string.
pub uninterp spec fn snake_of(s: Seq<char>) -> Seq<char>;

/// What `heck::MixedCase::to_mixed_case` gives for a string.
pub uninterp spec fn mixed_of(s: Seq<char>) -> Seq<char>;

/// What `heck::CamelCase::to_camel_case` gives for a string.
pub uninterp spec fn camel_of(s: Seq<char>) -> Seq<char>;

/// Relies on `heck::SnakeCase::to_snake_case`: a result of the characters alone.
#[verifier::external_body]
pub(crate) fn to_snake_case(s: &String) -> (r: String)
    ensures
        r@ == snake_of(s@),
{
    heck::SnakeCase::to_snake_case(s.as_str())
}

/// Relies on `heck::MixedCase::to_mixed_case`: a result of the characters alone.
#[verifier::external_body]
pub(crate) fn to_mixed_case(s: &String) -> (r: String)
    ensures
        r@ == mixed_of(s@),
{
    heck::MixedCase::to_mixed_case(s.as_str())
}

/// Relies on `heck::CamelCase::to_camel_case`: a result of the characters alone.
#[verifier::external_body]
pub(crate) fn to_camel_case(s: &String) -> (r: String)
    ensures
        r@ == camel_of(s@),
{
    heck::CamelCase::to_camel_case(s.as_str())
}

/// The concatenation of two strings.
pub(crate) fn concat(a: &String, b: &str) -> (r: String)
    ensures
        r@ == a@ + b@,
{
    let mut r = a.clone();
    r.append(b);
    r
}

} // verus!
