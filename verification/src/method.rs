//! The HTTP verbs the forwarder supports, and how a method string is
//! matched against them: the string is uppercased, then compared with the
//! six supported names, so the match is case-insensitive.

use vstd::prelude::*;
use crate::text::str_eq;

verus! {

/// The supported HTTP verbs.
#[derive(Clone, Copy, Debug, PartialEq, Eq, Structural)]
pub enum Method {
    Get,
    Post,
    Put,
    Delete,
    Patch,
    Head,
}

/// Whether a request body may accompany this verb: every supported verb
/// except GET and HEAD carries one.
pub open spec fn spec_allows_body(m: Method) -> bool {
    m != Method::Get && m != Method::Head
}

/// Which verb an already-uppercased method string names, if any.
pub open spec fn spec_method_of_upper(u: Seq<char>) -> Option<Method> {
    if u == "GET"@ {
        Some(Method::Get)
    } else if u == "POST"@ {
        Some(Method::Post)
    } else if u == "PUT"@ {
        Some(Method::Put)
    } else if u == "DELETE"@ {
        Some(Method::Delete)
    } else if u == "PATCH"@ {
        Some(Method::Patch)
    } else if u == "HEAD"@ {
        Some(Method::Head)
    } else {
        None
    }
}

/// What `str::to_uppercase` returns: a function of the characters alone.
pub uninterp spec fn upper_of(s: Seq<char>) -> Seq<char>;

/// Relies on `str::to_uppercase`: the result depends on the characters of
/// the input alone.
#[verifier::external_body]
fn to_upper(s: &str) -> (r: String)
    ensures
        r@ == upper_of(s@),
{
    s.to_uppercase()
}

/// Whether a request body may accompany this verb.
pub fn allows_body(m: Method) -> (r: bool)
    ensures
        r == spec_allows_body(m),
{
    match m {
        Method::Get => false,
        Method::Head => false,
        _ => true,
    }
}

/// Matches an uppercased method string against the supported verbs.
pub fn method_from_upper(u: &str) -> (r: Option<Method>)
    ensures
        r == spec_method_of_upper(u@),
{
    if str_eq(u, "GET") {
        Some(Method::Get)
    } else if str_eq(u, "POST") {
        Some(Method::Post)
    } else if str_eq(u, "PUT") {
        Some(Method::Put)
    } else if str_eq(u, "DELETE") {
        Some(Method::Delete)
    } else if str_eq(u, "PATCH") {
        Some(Method::Patch)
    } else if str_eq(u, "HEAD") {
        Some(Method::Head)
    } else {
        None
    }
}

/// Parses a method string case-insensitively: uppercase it, then match it
/// against the supported verbs.
pub fn parse_method(m: &str) -> (r: Option<Method>)
    ensures
        r == spec_method_of_upper(upper_of(m@)),
{
    let upper = to_upper(m);
    method_from_upper(upper.as_str())
}

/// A method string whose uppercase form is none of the six supported names
/// is always refused, whatever else it holds.
pub proof fn lemma_unsupported_method_refused(m: Seq<char>)
    requires
        upper_of(m) != "GET"@,
        upper_of(m) != "POST"@,
        upper_of(m) != "PUT"@,
        upper_of(m) != "DELETE"@,
        upper_of(m) != "PATCH"@,
        upper_of(m) != "HEAD"@,
    ensures
        spec_method_of_upper(upper_of(m)) is None,
{
}

} // verus!
