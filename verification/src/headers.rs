//! HTTP headers: the header map of `axum`, and the headers of requests to the
//! upstream.

use vstd::prelude::*;
use vstd::utf8::{decode_utf8, encode_utf8};

use crate::auth::{AuthTokens, TokensSpec};
use crate::config::ORIGINATOR;
use crate::text::{ascii_lower, concat, opt_view, texts};

verus! {

// ---- the header map of axum -------------------------------------------

/// `HeaderMap` of `axum::http`.
#[verifier::external_type_specification]
#[verifier::external_body]
#[verifier::reject_recursive_types(T)]
pub struct ExHeaderMap<T>(axum::http::HeaderMap<T>);

/// `HeaderValue` of `axum::http`.
#[verifier::external_type_specification]
#[verifier::external_body]
pub struct ExHeaderValue(axum::http::HeaderValue);

/// The headers of a map: their names, in lower case, and for each its values in
/// order.
pub uninterp spec fn header_map(h: axum::http::HeaderMap<axum::http::HeaderValue>) -> Map<
    Seq<char>,
    Seq<Seq<u8>>,
>;

/// The bytes of a header value.
pub uninterp spec fn header_bytes(v: axum::http::HeaderValue) -> Seq<u8>;

/// A character that a header value may hold: any but control characters, and the
/// tab.
pub open spec fn is_value_char(c: char) -> bool {
    (c as u32 >= 32 && c as u32 != 127) || c as u32 == 9
}

/// A text that can be a header value.
pub open spec fn is_value(s: Seq<char>) -> bool {
    forall|i: int| 0 <= i < s.len() ==> is_value_char(#[trigger] s[i])
}

/// A byte that the text of a header value may hold.
pub open spec fn is_visible(b: u8) -> bool {
    32 <= b < 127 || b == 9
}

/// Bytes that are the text of a header value.
pub open spec fn all_visible(bytes: Seq<u8>) -> bool {
    forall|i: int| 0 <= i < bytes.len() ==> is_visible(#[trigger] bytes[i])
}

/// A character of the header names that this library sets.
pub open spec fn is_name_char(c: char) -> bool {
    'a' <= c <= 'z' || 'A' <= c <= 'Z' || '0' <= c <= '9' || c == '-' || c == '_'
}

/// A header name that this library may set.
pub open spec fn is_name(s: Seq<char>) -> bool {
    0 < s.len() <= 64 && forall|i: int| 0 <= i < s.len() ==> is_name_char(#[trigger] s[i])
}

/// No headers.
pub open spec fn no_headers() -> Map<Seq<char>, Seq<Seq<u8>>> {
    Map::empty()
}

/// `HeaderMap::new` is a map without headers.
#[verifier::external_body]
pub(crate) fn new_headers() -> (r: axum::http::HeaderMap<axum::http::HeaderValue>)
    ensures
        header_map(r) == no_headers(),
{
    axum::http::HeaderMap::new()
}

/// `HeaderValue::from_str` takes a text whose bytes are no control characters
/// but tabs, and refuses others.
#[verifier::external_body]
pub(crate) fn make_header_value(text: &str) -> (r: Option<axum::http::HeaderValue>)
    ensures
        match r {
            Some(v) => is_value(text@) && header_bytes(v) == encode_utf8(text@),
            None => !is_value(text@),
        },
{
    axum::http::HeaderValue::from_str(text).ok()
}

/// The number of names up to which a header map always has room for another.
/// The map keeps up to 32768 slots; it asks for more where a fifth of those are
/// taken and names crowd together, or where three quarters are taken.
pub const HEADER_ROOM: usize = 6553;

/// `HeaderMap::insert` sets the one value of a header, whose name is taken in
/// lower case. It panics on a name that is none, and where the map has no room
/// left.
#[verifier::external_body]
pub(crate) fn insert_header(
    h: &mut axum::http::HeaderMap<axum::http::HeaderValue>,
    name: &'static str,
    value: axum::http::HeaderValue,
)
    requires
        is_name(name@),
        header_map(*old(h)).dom().len() <= HEADER_ROOM,
    ensures
        header_map(*final(h)) == header_map(*old(h)).insert(
            ascii_lower(name@),
            seq![header_bytes(value)],
        ),
{
    h.insert(name, value);
}

/// `HeaderMap::get` gives the first value of a header, whose name is taken in
/// lower case.
#[verifier::external_body]
pub(crate) fn get_header(h: &axum::http::HeaderMap<axum::http::HeaderValue>, name: &str) -> (r:
    Option<axum::http::HeaderValue>)
    ensures
        match r {
            Some(v) => header_map(*h).contains_key(ascii_lower(name@)) && header_map(
                *h,
            )[ascii_lower(name@)].len() > 0 && header_bytes(v) == header_map(*h)[ascii_lower(
                name@,
            )][0],
            None => !header_map(*h).contains_key(ascii_lower(name@)),
        },
{
    h.get(name).cloned()
}

/// `HeaderValue::to_str` gives the text of a value whose bytes are visible ASCII
/// characters, spaces and tabs.
#[verifier::external_body]
pub(crate) fn header_text(v: &axum::http::HeaderValue) -> (r: Option<String>)
    ensures
        opt_view(r) == if all_visible(header_bytes(*v)) {
            Some(decode_utf8(header_bytes(*v)))
        } else {
            None
        },
{
    v.to_str().ok().map(|s| s.to_owned())
}

/// `HeaderMap::keys` gives each name once, in no order that can be relied on.
#[verifier::external_body]
pub(crate) fn header_names(h: &axum::http::HeaderMap<axum::http::HeaderValue>) -> (r: Vec<String>)
    ensures
        texts(r@).no_duplicates(),
        forall|k: Seq<char>| texts(r@).contains(k) <==> #[trigger] header_map(*h).contains_key(k),
{
    h.keys().map(|k| k.as_str().to_owned()).collect()
}

// ---- texts of headers -------------------------------------------------

/// The text of a header, where it is there and its first value is text.
pub open spec fn header_str(m: Map<Seq<char>, Seq<Seq<u8>>>, name: Seq<char>) -> Option<
    Seq<char>,
> {
    let key = ascii_lower(name);
    if m.contains_key(key) && all_visible(m[key][0]) {
        Some(decode_utf8(m[key][0]))
    } else {
        None
    }
}

/// The text of a header.
pub fn parse_header_str(
    headers: &axum::http::HeaderMap<axum::http::HeaderValue>,
    name: &str,
) -> (r: Option<String>)
    ensures
        opt_view(r) == header_str(header_map(*headers), name@),
{
    match get_header(headers, name) {
        Some(v) => header_text(&v),
        None => None,
    }
}

/// Sets a header to a text.
pub(crate) fn set_header(
    h: &mut axum::http::HeaderMap<axum::http::HeaderValue>,
    name: &'static str,
    value: &str,
)
    requires
        is_name(name@),
        is_value(value@),
        header_map(*old(h)).dom().len() <= HEADER_ROOM,
    ensures
        header_map(*final(h)) == header_map(*old(h)).insert(
            ascii_lower(name@),
            seq![encode_utf8(value@)],
        ),
{
    match make_header_value(value) {
        Some(v) => insert_header(h, name, v),
        None => {},
    }
}

// ---- headers of requests to the upstream ------------------------------

/// The version of this package, which the upstream is told where the client
/// version is not.
pub const PACKAGE_VERSION: &'static str = "0.1.0";

/// The headers with one more text.
pub open spec fn with_header(
    m: Map<Seq<char>, Seq<Seq<u8>>>,
    name: Seq<char>,
    value: Seq<char>,
) -> Map<Seq<char>, Seq<Seq<u8>>> {
    m.insert(ascii_lower(name), seq![encode_utf8(value)])
}

/// The headers that tell the upstream who asks: the bearer token, the account,
/// the FedRAMP mark, and what the client is.
pub open spec fn auth_headers(t: TokensSpec, user_agent: Seq<char>, version: Seq<char>) -> Map<
    Seq<char>,
    Seq<Seq<u8>>,
> {
    let m = with_header(no_headers(), "authorization"@, "Bearer "@ + t.access_token);
    let m = match t.account_id {
        Some(a) => with_header(m, "ChatGPT-Account-ID"@, a),
        None => m,
    };
    let m = if t.is_fedramp {
        with_header(m, "X-OpenAI-Fedramp"@, "true"@)
    } else {
        m
    };
    let m = with_header(m, "content-type"@, "application/json"@);
    let m = with_header(m, "version"@, version);
    let m = with_header(m, "user-agent"@, user_agent);
    with_header(m, "originator"@, ORIGINATOR@)
}

/// Tokens and texts that can stand in headers.
pub open spec fn fit_for_headers(t: TokensSpec, user_agent: Seq<char>, version: Seq<char>) -> bool {
    &&& is_value(t.access_token)
    &&& t.account_id matches Some(a) ==> is_value(a)
    &&& is_value(user_agent)
    &&& is_value(version)
}

/// The names and values of the headers that are set.
proof fn lemma_header_literals()
    ensures
        is_name("authorization"@),
        is_name("ChatGPT-Account-ID"@),
        is_name("X-OpenAI-Fedramp"@),
        is_name("content-type"@),
        is_name("version"@),
        is_name("user-agent"@),
        is_name("originator"@),
        is_name("openai-beta"@),
        is_value("Bearer "@),
        is_value("true"@),
        is_value("application/json"@),
        is_value("responses=experimental"@),
        is_value(ORIGINATOR@),
{
    reveal_strlit("authorization");
    reveal_strlit("ChatGPT-Account-ID");
    reveal_strlit("X-OpenAI-Fedramp");
    reveal_strlit("content-type");
    reveal_strlit("version");
    reveal_strlit("user-agent");
    reveal_strlit("originator");
    reveal_strlit("openai-beta");
    reveal_strlit("Bearer ");
    reveal_strlit("true");
    reveal_strlit("application/json");
    reveal_strlit("responses=experimental");
    reveal_strlit("codex_cli_rs");
}

/// The headers that tell the upstream who asks.
pub fn build_auth_headers(tokens: &AuthTokens, user_agent: &str, version: &str) -> (r:
    axum::http::HeaderMap<axum::http::HeaderValue>)
    requires
        fit_for_headers(tokens@, user_agent@, version@),
    ensures
        header_map(r) == auth_headers(tokens@, user_agent@, version@),
        header_map(r).dom().finite(),
        header_map(r).dom().len() <= 7,
{
    proof {
        lemma_header_literals();
    }
    let mut h = new_headers();
    let bearer = concat("Bearer ", tokens.access_token.as_str());
    proof {
        assert forall|i: int| 0 <= i < bearer@.len() implies is_value_char(
            #[trigger] bearer@[i],
        ) by {
            if i < "Bearer "@.len() {
                assert(bearer@[i] == "Bearer "@[i]);
            } else {
                assert(bearer@[i] == tokens.access_token@[i - "Bearer "@.len()]);
            }
        }
    }
    set_header(&mut h, "authorization", bearer.as_str());
    match &tokens.account_id {
        Some(a) => set_header(&mut h, "ChatGPT-Account-ID", a.as_str()),
        None => {},
    }
    if tokens.chatgpt_account_is_fedramp {
        set_header(&mut h, "X-OpenAI-Fedramp", "true");
    }
    set_header(&mut h, "content-type", "application/json");
    set_header(&mut h, "version", version);
    set_header(&mut h, "user-agent", user_agent);
    set_header(&mut h, "originator", ORIGINATOR);
    h
}

/// The headers of the client that are passed on to the upstream.
pub const PASSTHROUGH_HEADERS: [&'static str; 7] = [
    "openai-beta",
    "openai-organization",
    "openai-project",
    "x-client-request-id",
    "session_id",
    "thread_id",
    "x-openai-subagent",
];

/// The headers of the client that are passed on with requests for images.
pub const IMAGE_PASSTHROUGH_HEADERS: [&'static str; 2] = ["openai-beta", "openai-organization"];

/// The headers `dst` with those of `names` that `src` has.
pub open spec fn with_copied(
    src: Map<Seq<char>, Seq<Seq<u8>>>,
    dst: Map<Seq<char>, Seq<Seq<u8>>>,
    names: Seq<&'static str>,
) -> Map<Seq<char>, Seq<Seq<u8>>>
    decreases names.len(),
{
    if names.len() == 0 {
        dst
    } else {
        let m = with_copied(src, dst, names.drop_last());
        let key = ascii_lower(names.last()@);
        if src.contains_key(key) {
            m.insert(key, seq![src[key][0]])
        } else {
            m
        }
    }
}

/// Copies one header, where it is there.
fn copy_header(
    src: &axum::http::HeaderMap<axum::http::HeaderValue>,
    dst: &mut axum::http::HeaderMap<axum::http::HeaderValue>,
    name: &'static str,
)
    requires
        is_name(name@),
        header_map(*old(dst)).dom().len() <= HEADER_ROOM,
    ensures
        header_map(*final(dst)) == if header_map(*src).contains_key(ascii_lower(name@)) {
            header_map(*old(dst)).insert(
                ascii_lower(name@),
                seq![header_map(*src)[ascii_lower(name@)][0]],
            )
        } else {
            header_map(*old(dst))
        },
{
    match get_header(src, name) {
        Some(v) => insert_header(dst, name, v),
        None => {},
    }
}

/// The names that are passed on.
proof fn lemma_passthrough_names()
    ensures
        forall|i: int| 0 <= i < 7 ==> is_name(#[trigger] PASSTHROUGH_HEADERS@[i]@),
        forall|i: int| 0 <= i < 2 ==> is_name(#[trigger] IMAGE_PASSTHROUGH_HEADERS@[i]@),
{
    reveal_strlit("openai-beta");
    reveal_strlit("openai-organization");
    reveal_strlit("openai-project");
    reveal_strlit("x-client-request-id");
    reveal_strlit("session_id");
    reveal_strlit("thread_id");
    reveal_strlit("x-openai-subagent");
    assert(is_name(PASSTHROUGH_HEADERS@[0]@));
    assert(is_name(PASSTHROUGH_HEADERS@[1]@));
    assert(is_name(PASSTHROUGH_HEADERS@[2]@));
    assert(is_name(PASSTHROUGH_HEADERS@[3]@));
    assert(is_name(PASSTHROUGH_HEADERS@[4]@));
    assert(is_name(PASSTHROUGH_HEADERS@[5]@));
    assert(is_name(PASSTHROUGH_HEADERS@[6]@));
    assert(is_name(IMAGE_PASSTHROUGH_HEADERS@[0]@));
    assert(is_name(IMAGE_PASSTHROUGH_HEADERS@[1]@));
}

/// Passes headers of the client on to the upstream.
pub fn copy_codex_passthrough_headers(
    src: &axum::http::HeaderMap<axum::http::HeaderValue>,
    dst: &mut axum::http::HeaderMap<axum::http::HeaderValue>,
)
    requires
        header_map(*old(dst)).dom().finite(),
        header_map(*old(dst)).dom().len() + 6 <= HEADER_ROOM,
    ensures
        header_map(*final(dst)) == with_copied(
            header_map(*src),
            header_map(*old(dst)),
            PASSTHROUGH_HEADERS@,
        ),
{
    let names = PASSTHROUGH_HEADERS;
    let ghost first = header_map(*dst);
    proof {
        lemma_passthrough_names();
    }
    let mut i: usize = 0;
    while i < 7
        invariant
            i <= 7,
            names == PASSTHROUGH_HEADERS,
            forall|k: int| 0 <= k < 7 ==> is_name(#[trigger] PASSTHROUGH_HEADERS@[k]@),
            header_map(*dst) == with_copied(header_map(*src), first, names@.take(i as int)),
            header_map(*dst).dom().finite(),
            header_map(*dst).dom().len() + 6 <= HEADER_ROOM + i,
        decreases 7 - i,
    {
        proof {
            assert(names@.take(i + 1).drop_last() =~= names@.take(i as int));
            assert(names@.take(i + 1).last() == names@[i as int]);
        }
        copy_header(src, dst, names[i]);
        i = i + 1;
    }
    proof {
        assert(names@.take(7) =~= names@);
    }
}

/// Passes headers of the client on with a request for images.
pub fn copy_image_headers(
    src: &axum::http::HeaderMap<axum::http::HeaderValue>,
    dst: &mut axum::http::HeaderMap<axum::http::HeaderValue>,
)
    requires
        header_map(*old(dst)).dom().finite(),
        header_map(*old(dst)).dom().len() + 1 <= HEADER_ROOM,
    ensures
        header_map(*final(dst)) == with_copied(
            header_map(*src),
            header_map(*old(dst)),
            IMAGE_PASSTHROUGH_HEADERS@,
        ),
{
    let names = IMAGE_PASSTHROUGH_HEADERS;
    let ghost first = header_map(*dst);
    proof {
        lemma_passthrough_names();
    }
    let mut i: usize = 0;
    while i < 2
        invariant
            i <= 2,
            names == IMAGE_PASSTHROUGH_HEADERS,
            forall|k: int| 0 <= k < 2 ==> is_name(#[trigger] IMAGE_PASSTHROUGH_HEADERS@[k]@),
            header_map(*dst) == with_copied(header_map(*src), first, names@.take(i as int)),
            header_map(*dst).dom().finite(),
            header_map(*dst).dom().len() + 1 <= HEADER_ROOM + i,
        decreases 2 - i,
    {
        proof {
            assert(names@.take(i + 1).drop_last() =~= names@.take(i as int));
            assert(names@.take(i + 1).last() == names@[i as int]);
        }
        copy_header(src, dst, names[i]);
        i = i + 1;
    }
    proof {
        assert(names@.take(2) =~= names@);
    }
}

/// The headers of a request about the usage.
pub fn usage_headers(tokens: &AuthTokens, user_agent: &str, version: &str) -> (r:
    axum::http::HeaderMap<axum::http::HeaderValue>)
    requires
        fit_for_headers(tokens@, user_agent@, version@),
    ensures
        header_map(r) == with_header(
            auth_headers(tokens@, user_agent@, version@),
            "openai-beta"@,
            "responses=experimental"@,
        ),
        header_map(r).dom().finite(),
        header_map(r).dom().len() <= 8,
{
    proof {
        lemma_header_literals();
    }
    let mut h = build_auth_headers(tokens, user_agent, version);
    set_header(&mut h, "openai-beta", "responses=experimental");
    h
}

/// The headers of a Responses request: those of the client that are passed on
/// win over the proxy's own.
pub fn responses_headers(
    tokens: &AuthTokens,
    user_agent: &str,
    version: &str,
    client: &axum::http::HeaderMap<axum::http::HeaderValue>,
) -> (r: axum::http::HeaderMap<axum::http::HeaderValue>)
    requires
        fit_for_headers(tokens@, user_agent@, version@),
    ensures
        header_map(r) == with_copied(
            header_map(*client),
            with_header(
                auth_headers(tokens@, user_agent@, version@),
                "openai-beta"@,
                "responses=experimental"@,
            ),
            PASSTHROUGH_HEADERS@,
        ),
{
    let mut h = usage_headers(tokens, user_agent, version);
    copy_codex_passthrough_headers(client, &mut h);
    h
}

/// The headers of a request for images.
pub fn image_headers(
    tokens: &AuthTokens,
    user_agent: &str,
    version: &str,
    client: &axum::http::HeaderMap<axum::http::HeaderValue>,
) -> (r: axum::http::HeaderMap<axum::http::HeaderValue>)
    requires
        fit_for_headers(tokens@, user_agent@, version@),
    ensures
        header_map(r) == with_copied(
            header_map(*client),
            auth_headers(tokens@, user_agent@, version@),
            IMAGE_PASSTHROUGH_HEADERS@,
        ),
{
    let mut h = build_auth_headers(tokens, user_agent, version);
    copy_image_headers(client, &mut h);
    h
}

/// Whether a text can be a header value.
pub fn can_be_header(text: &str) -> (r: bool)
    ensures
        r == is_value(text@),
{
    make_header_value(text).is_some()
}

// ---- laws -------------------------------------------------------------

/// Headers that are not among the names that are copied stay as they are.
proof fn lemma_copied_keeps(
    src: Map<Seq<char>, Seq<Seq<u8>>>,
    dst: Map<Seq<char>, Seq<Seq<u8>>>,
    names: Seq<&'static str>,
    k: Seq<char>,
)
    requires
        forall|i: int| 0 <= i < names.len() ==> ascii_lower((#[trigger] names[i])@) != k,
    ensures
        with_copied(src, dst, names).contains_key(k) <==> dst.contains_key(k),
        dst.contains_key(k) ==> with_copied(src, dst, names)[k] == dst[k],
    decreases names.len(),
{
    if names.len() > 0 {
        lemma_copied_keeps(src, dst, names.drop_last(), k);
    }
}

/// Whatever the client sends, the bearer token of a request to the upstream is
/// that of the stored tokens.
pub proof fn law_bearer_is_never_the_clients(
    client: Map<Seq<char>, Seq<Seq<u8>>>,
    t: TokensSpec,
    user_agent: Seq<char>,
    version: Seq<char>,
)
    ensures
        ({
            let own = with_header(
                auth_headers(t, user_agent, version),
                "openai-beta"@,
                "responses=experimental"@,
            );
            let sent = with_copied(client, own, PASSTHROUGH_HEADERS@);
            let key = ascii_lower("authorization"@);
            sent.contains_key(key) && sent[key] == seq![encode_utf8("Bearer "@ + t.access_token)]
        }),
        ({
            let sent = with_copied(
                client,
                auth_headers(t, user_agent, version),
                IMAGE_PASSTHROUGH_HEADERS@,
            );
            let key = ascii_lower("authorization"@);
            sent.contains_key(key) && sent[key] == seq![encode_utf8("Bearer "@ + t.access_token)]
        }),
{
    let key = ascii_lower("authorization"@);
    let m = auth_headers(t, user_agent, version);
    let own = with_header(m, "openai-beta"@, "responses=experimental"@);
    reveal_strlit("authorization");
    reveal_strlit("ChatGPT-Account-ID");
    reveal_strlit("X-OpenAI-Fedramp");
    reveal_strlit("content-type");
    reveal_strlit("version");
    reveal_strlit("user-agent");
    reveal_strlit("originator");
    reveal_strlit("openai-beta");
    reveal_strlit("openai-organization");
    reveal_strlit("openai-project");
    reveal_strlit("x-client-request-id");
    reveal_strlit("session_id");
    reveal_strlit("thread_id");
    reveal_strlit("x-openai-subagent");
    assert(key.len() == 13);
    assert(ascii_lower("ChatGPT-Account-ID"@).len() == 18);
    assert(ascii_lower("X-OpenAI-Fedramp"@).len() == 16);
    assert(ascii_lower("content-type"@).len() == 12);
    assert(ascii_lower("version"@).len() == 7);
    assert(ascii_lower("user-agent"@).len() == 10);
    assert(ascii_lower("originator"@).len() == 10);
    assert(ascii_lower("openai-beta"@).len() == 11);
    assert(m.contains_key(key));
    assert(m[key] == seq![encode_utf8("Bearer "@ + t.access_token)]);
    assert(ascii_lower("openai-organization"@).len() == 19);
    assert(ascii_lower("openai-project"@).len() == 14);
    assert(ascii_lower("x-client-request-id"@).len() == 19);
    assert(ascii_lower("session_id"@).len() == 10);
    assert(ascii_lower("thread_id"@).len() == 9);
    assert(ascii_lower("x-openai-subagent"@).len() == 17);
    let names = PASSTHROUGH_HEADERS@;
    assert forall|i: int| 0 <= i < names.len() implies ascii_lower((#[trigger] names[i])@)
        != key by {
        assert(i == 0 || i == 1 || i == 2 || i == 3 || i == 4 || i == 5 || i == 6);
    }
    lemma_copied_keeps(client, own, names, key);
    let few = IMAGE_PASSTHROUGH_HEADERS@;
    assert forall|i: int| 0 <= i < few.len() implies ascii_lower((#[trigger] few[i])@)
        != key by {
        assert(i == 0 || i == 1);
    }
    lemma_copied_keeps(client, m, few, key);
}

} // verus!
