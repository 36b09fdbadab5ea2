//! Who is let in: the proxy's own API key, and requests from browsers.

use vstd::prelude::*;

use crate::headers::{
    header_map, header_str, parse_header_str, set_header, with_header, HEADER_ROOM,
};
use crate::text::{after_prefix, str_eq, strip_prefix};

verus! {

/// The key that a request brings.
pub open spec fn brought_key(m: Map<Seq<char>, Seq<Seq<u8>>>) -> Option<Seq<char>> {
    match header_str(m, "authorization"@) {
        Some(v) => after_prefix(v, "Bearer "@),
        None => None,
    }
}

/// Whether a request is let in: where it asks for the health of the proxy, where
/// no key is set, and where it brings the key that is set.
pub open spec fn let_in(
    path: Seq<char>,
    expected: Option<Seq<char>>,
    m: Map<Seq<char>, Seq<Seq<u8>>>,
) -> bool {
    ||| path == "/health"@
    ||| expected is None
    ||| brought_key(m) == expected
}

/// Whether a request is let in.
pub fn is_let_in(
    path: &str,
    expected: Option<&str>,
    headers: &axum::http::HeaderMap<axum::http::HeaderValue>,
) -> (r: bool)
    ensures
        r == let_in(path@, crate::text::opt_str_view(expected), header_map(*headers)),
{
    if str_eq(path, "/health") {
        return true;
    }
    match expected {
        Some(key) => match parse_header_str(headers, "authorization") {
            Some(v) => match strip_prefix(v.as_str(), "Bearer ") {
                Some(brought) => str_eq(brought.as_str(), key),
                None => false,
            },
            None => false,
        },
        None => true,
    }
}

/// Whether a request with this method is a preflight, which is answered without
/// a body.
pub fn is_preflight(method: &str) -> (r: bool)
    ensures
        r == (method@ == "OPTIONS"@),
{
    str_eq(method, "OPTIONS")
}

/// Lets pages of any origin read an answer.
pub fn allow_any_origin(headers: &mut axum::http::HeaderMap<axum::http::HeaderValue>)
    requires
        header_map(*old(headers)).dom().len() <= HEADER_ROOM,
    ensures
        header_map(*final(headers)) == with_header(
            header_map(*old(headers)),
            "access-control-allow-origin"@,
            "*"@,
        ),
{
    proof {
        reveal_strlit("access-control-allow-origin");
        reveal_strlit("*");
    }
    set_header(headers, "access-control-allow-origin", "*");
}

// ---- laws -------------------------------------------------------------

/// Where a key is set, nothing but the health of the proxy is served to requests
/// that do not bring it.
pub proof fn law_key_guards_all_but_health(
    path: Seq<char>,
    key: Seq<char>,
    m: Map<Seq<char>, Seq<Seq<u8>>>,
)
    ensures
        path != "/health"@ ==> (let_in(path, Some(key), m) <==> brought_key(m) == Some(key)),
        let_in("/health"@, Some(key), m),
        let_in(path, None, m),
{
}

} // verus!
