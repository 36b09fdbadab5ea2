//! What holds of accounts as a whole: their tokens, the requests that are sent with
//! them, and signing in.

use vstd::prelude::*;
use vstd::utf8::{encode_utf8, encode_utf8_decode_utf8};

use crate::auth::{
    account_in, chatgpt_account_in, claimed_account, claimed_expiry, claimed_fedramp, claims_of,
    direct_tokens, expiry_of, fedramp_in, opt_claims, response_tokens, status_lines_of, tokens_in_file,
    AuthFileError, AuthTokens, Expiry, TokensSpec,
};
use crate::clock::{rfc3339_instant, Timestamp};
use crate::encoding::{
    base64url, base64url_bytes, percent_encoded, sha256_digest, url_decoded,
};
use crate::flow::{AccountFlow, ActionSpec, EventSpec, Phase, RetryFlow};
use crate::gate::brought_key;
use crate::headers::{
    auth_headers, header_str, with_copied, with_header, IMAGE_PASSTHROUGH_HEADERS,
    PASSTHROUGH_HEADERS,
};
use crate::json::{JsonSpec, NumberSpec};
use crate::json_codec::json_parse_bytes;
use crate::login::{
    auth_url_of, challenge_of, code_in_pairs, exchange_form_of, interval_in, poll_step_of,
    query_of, quoted, IntervalError, PollStep,
};
use crate::text::{ascii_lower, opt_view, split_char, u64_text};
use crate::text_laws::{is_without, law_quoted_ends_nothing, law_split_comes_apart};

verus! {

// ---- tokens -----------------------------------------------------------

/// The model of tokens holds their fields.
pub proof fn law_tokens_are_modelled(t: AuthTokens)
    ensures
        t@.access_token == t.access_token@,
        t@.refresh_token == opt_view(t.refresh_token),
        t@.id_token == opt_view(t.id_token),
        t@.token_type == opt_view(t.token_type),
        t@.expires_in == t.expires_in,
        t@.obtained_at == opt_view(t.obtained_at),
        t@.account_id == opt_view(t.account_id),
        t@.is_fedramp == t.chatgpt_account_is_fedramp,
{
}

/// The claims of a token with three parts are those in its middle part.
pub proof fn law_claims_are_the_middle_part(a: Seq<char>, b: Seq<char>, c: Seq<char>)
    requires
        is_without(a, '.'),
        is_without(b, '.'),
        is_without(c, '.'),
    ensures
        claims_of(a + seq!['.'] + (b + seq!['.'] + c)) == match base64url_bytes(b) {
            Some(bytes) => json_parse_bytes(bytes),
            None => None,
        },
        claims_of(a) is None,
        claims_of(a + seq!['.'] + b) is None,
{
    law_split_comes_apart(c, Seq::empty(), '.');
    law_split_comes_apart(b, c, '.');
    law_split_comes_apart(a, b + seq!['.'] + c, '.');
    law_split_comes_apart(a, b, '.');
    let parts = split_char(a + seq!['.'] + (b + seq!['.'] + c), '.');
    assert(parts =~= seq![a, b, c]);
}

/// The account of an access token is its `sub`; that of an ID token is the one that its
/// claims name for ChatGPT, whether at the top or in the claim about the account, and
/// its `sub` only where they name none.
pub proof fn law_account_of_claims(c: JsonSpec)
    ensures
        c.get_str("sub"@) matches Some(s) ==> account_in(c) == Some(s),
        c.get_str("sub"@) is None ==> account_in(c) == c.get_str("https://api.openai.com/auth"@),
        c.get_str("chatgpt_account_id"@) matches Some(s) ==> chatgpt_account_in(c) == Some(s),
        c.get("chatgpt_account_id"@) is None ==> (c.get2(
            "https://api.openai.com/auth"@,
            "chatgpt_account_id"@,
        ) matches Some(JsonSpec::Str(s)) ==> chatgpt_account_in(c) == Some(s)),
        c.get("chatgpt_account_id"@) is None && c.get("https://api.openai.com/auth"@) is None
            ==> chatgpt_account_in(c) == c.get_str("sub"@),
        c.get("chatgpt_account_is_fedramp"@) matches Some(JsonSpec::Bool(b)) ==> fedramp_in(c)
            == b,
        c.get("chatgpt_account_is_fedramp"@) is None ==> (fedramp_in(c) <==> c.get(
            "https://api.openai.com/auth"@,
        ) == Some(JsonSpec::Bool(true)) || c.get2(
            "https://api.openai.com/auth"@,
            "chatgpt_account_is_fedramp"@,
        ) == Some(JsonSpec::Bool(true))),
{
}

/// What the ID token tells of the account goes before what the access token tells.
pub proof fn law_id_token_goes_first(id: Option<JsonSpec>, access: Option<JsonSpec>)
    ensures
        id matches Some(c) ==> (chatgpt_account_in(c) is Some ==> claimed_account(id, access)
            == chatgpt_account_in(c)),
        id matches Some(c) ==> (chatgpt_account_in(c) is None ==> claimed_account(id, access)
            == claimed_account(None, access)),
        access matches Some(c) ==> claimed_account(None, access) == account_in(c),
        claimed_account(None, None) is None,
        id matches Some(c) ==> claimed_fedramp(id) == fedramp_in(c),
        !claimed_fedramp(None),
{
}

/// The tokens under `tokens` of an auth file, field by field: what is written there goes
/// before what the tokens claim.
pub proof fn law_file_tokens_are_read(value: JsonSpec, tokens: JsonSpec)
    requires
        value.get("tokens"@) == Some(tokens),
    ensures
        tokens.get_str("access_token"@) is None ==> tokens_in_file(value) == Err::<
            TokensSpec,
            AuthFileError,
        >(AuthFileError::MissingAccessToken),
        tokens.get_str("access_token"@) matches Some(at) ==> (tokens_in_file(value) matches Ok(r)
            && {
            &&& r.access_token == at
            &&& r.refresh_token == tokens.get_str("refresh_token"@)
            &&& r.obtained_at == value.get_str("last_refresh"@)
            &&& r.token_type == Some("Bearer"@)
            &&& r.expires_in is None
            &&& tokens.get_str("id_token"@) matches Some(i) ==> r.id_token == Some(i)
            &&& tokens.get2("id_token"@, "raw_jwt"@) matches Some(JsonSpec::Str(i)) ==> r.id_token
                == Some(i)
            &&& tokens.get("id_token"@) is None ==> r.id_token is None
            &&& tokens.get_str("account_id"@) matches Some(a) ==> r.account_id == Some(a)
            &&& tokens.get_str("account_id"@) is None ==> r.account_id == claimed_account(
                opt_claims(r.id_token),
                claims_of(at),
            )
            &&& tokens.get_bool("chatgpt_account_is_fedramp"@) matches Some(b) ==> r.is_fedramp == b
            &&& tokens.get_bool("chatgpt_account_is_fedramp"@) is None ==> r.is_fedramp
                == claimed_fedramp(opt_claims(r.id_token))
        }),
{
}

/// The tokens that the token endpoint gives, field by field.
pub proof fn law_response_tokens_are_read(
    raw: JsonSpec,
    at: Seq<char>,
    id: Option<JsonSpec>,
    access: Option<JsonSpec>,
    now: Seq<char>,
)
    ensures
        ({
            let r = response_tokens(raw, at, id, access, now);
            &&& r.access_token == at
            &&& r.refresh_token == raw.get_str("refresh_token"@)
            &&& r.id_token == raw.get_str("id_token"@)
            &&& r.token_type == raw.get_str("token_type"@)
            &&& r.expires_in == raw.get_i64("expires_in"@)
            &&& r.obtained_at == Some(now)
            &&& r.account_id == claimed_account(id, access)
            &&& r.is_fedramp == claimed_fedramp(id)
        }),
{
}

/// The tokens that an object writes down, each field under its own name: one that is
/// absent or `null` is none, and one of another kind means that it writes down none.
pub proof fn law_direct_tokens_are_read(v: JsonSpec)
    requires
        v is Object,
    ensures
        direct_tokens(v) matches Some(t) ==> {
            &&& v.get("access_token"@) == Some(JsonSpec::Str(t.access_token))
            &&& tells_or_not(v, "refresh_token"@, t.refresh_token)
            &&& tells_or_not(v, "id_token"@, t.id_token)
            &&& tells_or_not(v, "token_type"@, t.token_type)
            &&& tells_or_not(v, "obtained_at"@, t.obtained_at)
            &&& tells_or_not(v, "account_id"@, t.account_id)
            &&& t.expires_in == v.get_i64("expires_in"@)
            &&& v.get("chatgpt_account_is_fedramp"@) is None ==> !t.is_fedramp
            &&& v.get("chatgpt_account_is_fedramp"@) matches Some(b) ==> b == JsonSpec::Bool(
                t.is_fedramp,
            )
        },
        (v.get("access_token"@) matches Some(JsonSpec::Str(_))) && text_or_not(
            v,
            "refresh_token"@,
        ) && text_or_not(v, "id_token"@) && text_or_not(v, "token_type"@) && text_or_not(
            v,
            "obtained_at"@,
        ) && text_or_not(v, "account_id"@) && v.get("expires_in"@) is None && v.get(
            "chatgpt_account_is_fedramp"@,
        ) is None ==> direct_tokens(v) is Some,
{
}

/// The object has this text under a key, or nothing, or `null`.
pub open spec fn tells_or_not(v: JsonSpec, key: Seq<char>, text: Option<Seq<char>>) -> bool {
    match text {
        Some(s) => v.get(key) == Some(JsonSpec::Str(s)),
        None => v.get(key) is None || v.get(key) == Some(JsonSpec::Null),
    }
}

/// The object has a text under a key, or nothing, or `null`.
pub open spec fn text_or_not(v: JsonSpec, key: Seq<char>) -> bool {
    v.get(key) is None || v.get(key) == Some(JsonSpec::Null) || (v.get(key) matches Some(
        JsonSpec::Str(_),
    ))
}

/// Tokens expire when their access token claims so, else so many seconds after they were
/// obtained as they say, or an hour where they do not say.
pub proof fn law_when_tokens_expire(t: TokensSpec)
    ensures
        claimed_expiry(claims_of(t.access_token)) matches Some(x) ==> expiry_of(t) == Expiry::At(x),
        claims_of(t.access_token) matches Some(c) ==> (c.get_i64("exp"@) matches Some(secs)
            ==> (-8_334_601_228_800 <= secs <= 8_210_266_876_799 ==> expiry_of(t) == Expiry::At(
            Timestamp { secs, nanos: 0 },
        ))),
        claims_of(t.access_token) is None ==> match t.obtained_at {
            Some(text) => match rfc3339_instant(text) {
                Some(o) => o.nanos < 1_000_000_000 ==> ({
                    let life: i64 = match t.expires_in {
                        Some(s) => s,
                        None => 3600,
                    };
                    expiry_of(t) matches Expiry::At(x) ==> x.secs == o.secs + life && x.nanos
                        == o.nanos
                }) && expiry_of(t) != Expiry::Unknown,
                None => expiry_of(t) == Expiry::Unknown,
            },
            None => expiry_of(t) == Expiry::Unknown,
        },
{
}

/// The status tells the account, whether the token is expired, when it was obtained, and
/// what becomes of it where it is expired.
pub proof fn law_status_tells(t: TokensSpec, expired: bool)
    ensures
        ({
            let ls = status_lines_of(t, expired);
            &&& ls[0] == "Authenticated: yes"@
            &&& t.account_id matches Some(a) ==> ls.contains("Account ID: "@ + a)
            &&& expired ==> ls.contains("Token expired: true"@)
            &&& !expired ==> ls.contains("Token expired: false"@)
            &&& t.obtained_at matches Some(o) ==> ls.contains("Obtained at: "@ + o)
            &&& expired && t.refresh_token is Some ==> ls.last()
                == "Refresh token: present (will auto-refresh)"@
            &&& expired && t.refresh_token is None ==> ls.last()
                == "Refresh token: none (please re-login)"@
            &&& ls.len() == 2 + (if t.account_id is Some { 1int } else { 0 }) + (if t.obtained_at
                is Some { 1int } else { 0 }) + (if expired { 1int } else { 0 })
        }),
{
    let ls = status_lines_of(t, expired);
    let n: int = if t.account_id is Some { 1 } else { 0 };
    if t.account_id is Some {
        assert(ls[1] == "Account ID: "@ + t.account_id->0);
    }
    assert(ls[1 + n] == if expired { "Token expired: true"@ } else { "Token expired: false"@ });
    if t.obtained_at is Some {
        assert(ls[2 + n] == "Obtained at: "@ + t.obtained_at->0);
    }
}

// ---- headers ----------------------------------------------------------

/// The one value of a header.
pub open spec fn sends(m: Map<Seq<char>, Seq<Seq<u8>>>, name: Seq<char>, value: Seq<char>) -> bool {
    m.contains_key(ascii_lower(name)) && m[ascii_lower(name)] == seq![encode_utf8(value)]
}

/// What tells the names of headers apart.
proof fn lemma_names()
    ensures
        ascii_lower("authorization"@).len() == 13,
        ascii_lower("ChatGPT-Account-ID"@).len() == 18,
        ascii_lower("X-OpenAI-Fedramp"@).len() == 16,
        ascii_lower("content-type"@).len() == 12,
        ascii_lower("version"@).len() == 7,
        ascii_lower("user-agent"@).len() == 10 && ascii_lower("user-agent"@)[0] == 'u',
        ascii_lower("originator"@).len() == 10 && ascii_lower("originator"@)[0] == 'o',
        ascii_lower("openai-beta"@).len() == 11,
{
    reveal_strlit("authorization");
    reveal_strlit("ChatGPT-Account-ID");
    reveal_strlit("X-OpenAI-Fedramp");
    reveal_strlit("content-type");
    reveal_strlit("version");
    reveal_strlit("user-agent");
    reveal_strlit("originator");
    reveal_strlit("openai-beta");
    assert("user-agent"@[0] == 'u' && "originator"@[0] == 'o');
}

/// The upstream is told the bearer token, the account, the FedRAMP mark where the account
/// has it, the client's version, the user agent and the originator, each in its own
/// header.
pub proof fn law_upstream_is_told_who_asks(
    t: TokensSpec,
    user_agent: Seq<char>,
    version: Seq<char>,
)
    ensures
        ({
            let m = auth_headers(t, user_agent, version);
            &&& sends(m, "authorization"@, "Bearer "@ + t.access_token)
            &&& t.account_id matches Some(a) ==> sends(m, "ChatGPT-Account-ID"@, a)
            &&& t.account_id is None ==> !m.contains_key(ascii_lower("ChatGPT-Account-ID"@))
            &&& t.is_fedramp ==> sends(m, "X-OpenAI-Fedramp"@, "true"@)
            &&& !t.is_fedramp ==> !m.contains_key(ascii_lower("X-OpenAI-Fedramp"@))
            &&& sends(m, "content-type"@, "application/json"@)
            &&& sends(m, "version"@, version)
            &&& sends(m, "user-agent"@, user_agent)
            &&& sends(m, "originator"@, "codex_cli_rs"@)
        }),
{
    lemma_names();
}

/// A header of the client that is passed on goes with its first value, whatever stood
/// there; where the client does not send it, what stood there stays; and so does every
/// header that is not passed on.
pub proof fn law_client_headers_are_passed_on(
    src: Map<Seq<char>, Seq<Seq<u8>>>,
    dst: Map<Seq<char>, Seq<Seq<u8>>>,
    names: Seq<&'static str>,
    k: Seq<char>,
)
    ensures
        ({
            let m = with_copied(src, dst, names);
            let named = exists|i: int|
                0 <= i < names.len() && ascii_lower((#[trigger] names[i])@) == k;
            &&& named && src.contains_key(k) ==> m.contains_key(k) && m[k] == seq![src[k][0]]
            &&& !(named && src.contains_key(k)) ==> (m.contains_key(k) <==> dst.contains_key(k))
            &&& !(named && src.contains_key(k)) && dst.contains_key(k) ==> m[k] == dst[k]
        }),
    decreases names.len(),
{
    if names.len() > 0 {
        let front = names.drop_last();
        law_client_headers_are_passed_on(src, dst, front, k);
        assert(names[names.len() - 1] == names.last());
        if exists|i: int| 0 <= i < front.len() && ascii_lower((#[trigger] front[i])@) == k {
            let i = choose|i: int|
                0 <= i < front.len() && ascii_lower((#[trigger] front[i])@) == k;
            assert(ascii_lower(names[i]@) == k);
        }
        if exists|i: int| 0 <= i < names.len() && ascii_lower((#[trigger] names[i])@) == k {
            let i = choose|i: int|
                0 <= i < names.len() && ascii_lower((#[trigger] names[i])@) == k;
            if i < front.len() {
                assert(ascii_lower(front[i]@) == k);
            }
        }
    }
}

/// The headers of the client that are passed on, by name.
pub proof fn law_which_headers_are_passed_on(name: Seq<char>)
    ensures
        (exists|i: int| 0 <= i < 7 && (#[trigger] PASSTHROUGH_HEADERS@[i])@ == name) <==> (name
            == "openai-beta"@ || name == "openai-organization"@ || name == "openai-project"@ || name
            == "x-client-request-id"@ || name == "session_id"@ || name == "thread_id"@ || name
            == "x-openai-subagent"@),
        (exists|i: int| 0 <= i < 2 && (#[trigger] IMAGE_PASSTHROUGH_HEADERS@[i])@ == name) <==> (
        name == "openai-beta"@ || name == "openai-organization"@),
{
    let p = PASSTHROUGH_HEADERS@;
    assert(p[0]@ == "openai-beta"@ && p[1]@ == "openai-organization"@ && p[2]@ == "openai-project"@
        && p[3]@ == "x-client-request-id"@ && p[4]@ == "session_id"@ && p[5]@ == "thread_id"@
        && p[6]@ == "x-openai-subagent"@);
    let q = IMAGE_PASSTHROUGH_HEADERS@;
    assert(q[0]@ == "openai-beta"@ && q[1]@ == "openai-organization"@);
}

/// The proxy's own beta mark is sent where the client sends none.
pub proof fn law_beta_mark_is_sent(
    client: Map<Seq<char>, Seq<Seq<u8>>>,
    own: Map<Seq<char>, Seq<Seq<u8>>>,
)
    ensures
        ({
            let m = with_copied(
                client,
                with_header(own, "openai-beta"@, "responses=experimental"@),
                PASSTHROUGH_HEADERS@,
            );
            let k = ascii_lower("openai-beta"@);
            &&& !client.contains_key(k) ==> sends(m, "openai-beta"@, "responses=experimental"@)
            &&& client.contains_key(k) ==> m.contains_key(k) && m[k] == seq![client[k][0]]
        }),
{
    law_client_headers_are_passed_on(
        client,
        with_header(own, "openai-beta"@, "responses=experimental"@),
        PASSTHROUGH_HEADERS@,
        ascii_lower("openai-beta"@),
    );
    assert(PASSTHROUGH_HEADERS@[0]@ == "openai-beta"@);
}

/// A header is read as its first value says, whatever the case of its name, where that is
/// visible ASCII text.
pub proof fn law_header_is_read(m: Map<Seq<char>, Seq<Seq<u8>>>, name: Seq<char>, text: Seq<char>)
    requires
        m.contains_key(ascii_lower(name)),
        m[ascii_lower(name)].len() > 0,
        m[ascii_lower(name)][0] == encode_utf8(text),
    ensures
        (forall|i: int|
            0 <= i < encode_utf8(text).len() ==> 32 <= #[trigger] encode_utf8(text)[i] < 127)
            ==> header_str(m, name) == Some(text),
        header_str(m.remove(ascii_lower(name)), name) is None,
{
    encode_utf8_decode_utf8(text);
}

/// A request brings a key exactly where its authorization is `Bearer ` and that key.
pub proof fn law_key_is_brought(m: Map<Seq<char>, Seq<Seq<u8>>>, key: Seq<char>)
    ensures
        brought_key(m) == Some(key) <==> header_str(m, "authorization"@) == Some(
            "Bearer "@ + key,
        ),
{
    reveal_strlit("Bearer ");
    let p = "Bearer "@;
    assert((p + key).take(7) =~= p);
    assert((p + key).skip(7) =~= key);
    match header_str(m, "authorization"@) {
        Some(v) => {
            if brought_key(m) == Some(key) {
                assert(v =~= p + key) by {
                    assert(v.take(7) + v.skip(7) =~= v);
                }
            }
        },
        None => {},
    }
}

// ---- sending ----------------------------------------------------------

/// A request begins with the first account, or is refused where there is none.
pub proof fn law_first_account_goes_first(count: usize)
    ensures
        count > 0 ==> AccountFlow::started(count).1 == ActionSpec::Send(0),
        count > 0 ==> AccountFlow::started(count).0 == (AccountFlow {
            count,
            index: 0,
            phase: Phase::Sending,
        }),
        count == 0 ==> AccountFlow::started(count).1 == ActionSpec::Reply(
            401,
            "No configured auth accounts are usable"@,
        ),
        count == 0 ==> AccountFlow::started(count).0.phase == Phase::Finished,
{
}

/// An answer 401 has the token of that account refreshed, and the request sent again
/// with the same account; where that fails, the answer is read as any other failure.
pub proof fn law_unauthorized_is_retried(f: AccountFlow)
    requires
        f.phase == Phase::Sending,
    ensures
        f.step(EventSpec::Answered(401)).1 == ActionSpec::Refresh(f.index),
        f.step(EventSpec::Answered(401)).0.step(EventSpec::Refreshed).1 == ActionSpec::Resend(
            f.index,
        ),
        f.step(EventSpec::Answered(401)).0.step(EventSpec::NotRefreshed).1 == ActionSpec::ReadBody,
        f.step(EventSpec::Answered(401)).0.step(EventSpec::NotRefreshed).0.phase == Phase::Reading(
            401,
        ),
        f.step(EventSpec::Answered(401)).0.step(EventSpec::Refreshed).0.index == f.index,
        f.step(EventSpec::Answered(401)).0.step(EventSpec::Refreshed).0.phase == Phase::Resending,
{
}

/// A success is handed to the client, and ends the request.
pub proof fn law_success_is_delivered(f: AccountFlow, status: u16)
    requires
        f.phase == Phase::Sending || f.phase == Phase::Resending,
        200 <= status < 300,
    ensures
        f.step(EventSpec::Answered(status)).1 == ActionSpec::Deliver,
        f.step(EventSpec::Answered(status)).0.phase == Phase::Finished,
{
}

/// The next account is tried where there is one: where no answer came, and where the
/// answer lets another account be tried. Where there is none the client is told.
pub proof fn law_next_account_is_tried(f: AccountFlow, message: Seq<char>, status: u16)
    requires
        f.index < f.count,
    ensures
        ({
            let last = f.index + 1 == f.count;
            let sent = (AccountFlow { phase: Phase::Sending, ..f }).step(
                EventSpec::Failed(message),
            );
            let again = (AccountFlow { phase: Phase::Resending, ..f }).step(
                EventSpec::Failed(message),
            );
            let read = (AccountFlow { phase: Phase::Reading(status), ..f }).step(
                EventSpec::Body(message, true),
            );
            &&& !last ==> sent.1 == ActionSpec::Send((f.index + 1) as usize) && again.1 == sent.1
                && read.1 == sent.1
            &&& !last ==> sent.0 == (AccountFlow {
                count: f.count,
                index: (f.index + 1) as usize,
                phase: Phase::Sending,
            }) && again.0 == sent.0 && read.0 == sent.0
            &&& last ==> sent.1 == ActionSpec::Reply(
                502,
                "Upstream request failed: "@ + message,
            )
            &&& last ==> again.1 == ActionSpec::Reply(502, "Retry failed: "@ + message)
            &&& last ==> read.1 == ActionSpec::Reply(status, message)
            &&& last ==> sent.0.phase == Phase::Finished && again.0.phase == Phase::Finished
                && read.0.phase == Phase::Finished
        }),
{
}

/// With one account a request is retried once after 401; every other answer is handed to
/// the client, and one that did not come is told.
pub proof fn law_single_account_flow(f: RetryFlow, status: u16, message: Seq<char>)
    requires
        f.phase == Phase::Sending,
    ensures
        status != 401 ==> f.step(EventSpec::Answered(status)).1 == ActionSpec::Deliver,
        f.step(EventSpec::Answered(401)).1 == ActionSpec::Refresh(0),
        f.step(EventSpec::Failed(message)).1 == ActionSpec::Reply(
            502,
            "Upstream request failed: "@ + message,
        ),
        ({
            let r = f.step(EventSpec::Answered(401)).0;
            let again = r.step(EventSpec::Refreshed).0;
            &&& r.step(EventSpec::Refreshed).1 == ActionSpec::Resend(0)
            &&& again.step(EventSpec::Answered(status)).1 == ActionSpec::Deliver
            &&& again.step(EventSpec::Failed(message)).1 == ActionSpec::Reply(
                502,
                "Retry upstream request failed: "@ + message,
            )
            &&& f.strict ==> r.step(EventSpec::NotRefreshed).1 == ActionSpec::Reply(
                401,
                "Token refresh failed"@,
            )
            &&& !f.strict ==> r.step(EventSpec::NotRefreshed).1 == ActionSpec::Deliver
        }),
{
}

// ---- signing in -------------------------------------------------------

/// Two texts without a sign make one without it.
proof fn lemma_without_add(a: Seq<char>, b: Seq<char>)
    requires
        is_without(a, '&'),
        is_without(b, '&'),
    ensures
        is_without(a + b, '&'),
{
    let s = a + b;
    assert forall|i: int| 0 <= i < s.len() implies #[trigger] s[i] != '&' by {
        if i < a.len() {
            assert(s[i] == a[i]);
        } else {
            assert(s[i] == b[i - a.len()]);
        }
    }
}

/// The challenge is the digest of the verifier's text, so that it does not give the
/// verifier away.
pub proof fn law_challenge_is_a_digest(verifier: Seq<char>)
    ensures
        challenge_of(verifier) == base64url(sha256_digest(encode_utf8(verifier))),
{
}

/// A text that is split with one more piece behind it.
proof fn lemma_split_push(s: Seq<char>, piece: Seq<char>)
    requires
        is_without(piece, '&'),
    ensures
        split_char(s + seq!['&'] + piece, '&') == split_char(s, '&').push(piece),
    decreases s.len(),
{
    let n = crate::text::index_of_char(s, '&');
    crate::text::lemma_index_of_char(s, '&');
    let whole = s + seq!['&'] + piece;
    if n == s.len() {
        law_split_comes_apart(s, piece, '&');
        law_split_comes_apart(piece, Seq::empty(), '&');
        assert(split_char(whole, '&') =~= split_char(s, '&').push(piece));
    } else {
        let front = s.take(n);
        let rest = s.skip(n + 1);
        assert(s =~= front + seq!['&'] + rest);
        lemma_split_push(rest, piece);
        assert(whole =~= front + seq!['&'] + (rest + seq!['&'] + piece));
        law_split_comes_apart(front, rest, '&');
        law_split_comes_apart(front, rest + seq!['&'] + piece, '&');
        assert(split_char(whole, '&') =~= split_char(s, '&').push(piece));
    }
}

/// One more pair, given what stands before its value.
proof fn lemma_tie(s: Seq<char>, before: Seq<char>, name: Seq<char>, value: Seq<char>)
    requires
        before == seq!['&'] + name + seq!['='],
        is_without(name, '&'),
        is_without(value, '&'),
    ensures
        split_char(s + before + value, '&') == split_char(s, '&').push(name + seq!['='] + value),
{
    let piece = name + seq!['='] + value;
    lemma_without_add(name, seq!['=']);
    lemma_without_add(name + seq!['='], value);
    lemma_split_push(s, piece);
    assert(s + before + value =~= s + seq!['&'] + piece);
}

/// The form that exchanges a code has the code, the address and the verifier, each under
/// its name and in percent-encoding.
pub proof fn law_exchange_form_has_pairs(code: Seq<char>, uri: Seq<char>, verifier: Seq<char>)
    ensures
        split_char(exchange_form_of(code, uri, verifier), '&') == seq![
            "grant_type=authorization_code"@,
            "client_id"@ + seq!['='] + "app_EMoamEEZ73f0CkXaXp7hrann"@,
            "code"@ + seq!['='] + percent_encoded(encode_utf8(code)),
            "redirect_uri"@ + seq!['='] + percent_encoded(encode_utf8(uri)),
            "code_verifier"@ + seq!['='] + percent_encoded(encode_utf8(verifier)),
        ],
{
    lemma_query_literals();
    reveal_strlit("grant_type=authorization_code&client_id=");
    reveal_strlit("grant_type=authorization_code");
    reveal_strlit("&client_id=");
    reveal_strlit("&code=");
    reveal_strlit("code");
    reveal_strlit("&code_verifier=");
    reveal_strlit("code_verifier");
    assert("&code="@ =~= seq!['&'] + "code"@ + seq!['=']);
    assert("&code_verifier="@ =~= seq!['&'] + "code_verifier"@ + seq!['=']);
    law_quoted_ends_nothing(encode_utf8(code));
    law_quoted_ends_nothing(encode_utf8(uri));
    law_quoted_ends_nothing(encode_utf8(verifier));
    let client = "app_EMoamEEZ73f0CkXaXp7hrann"@;
    let a0 = "grant_type=authorization_code"@;
    law_split_comes_apart(a0, Seq::empty(), '&');
    let a1 = a0 + "&client_id="@ + client;
    lemma_tie(a0, "&client_id="@, "client_id"@, client);
    let a2 = a1 + "&code="@ + quoted(code);
    lemma_tie(a1, "&code="@, "code"@, quoted(code));
    let a3 = a2 + "&redirect_uri="@ + quoted(uri);
    lemma_tie(a2, "&redirect_uri="@, "redirect_uri"@, quoted(uri));
    let a4 = a3 + "&code_verifier="@ + quoted(verifier);
    lemma_tie(a3, "&code_verifier="@, "code_verifier"@, quoted(verifier));
    assert("grant_type=authorization_code&client_id="@ =~= a0 + "&client_id="@);
    assert(exchange_form_of(code, uri, verifier) == a4);
    assert(split_char(a4, '&') =~= seq![
        a0,
        "client_id"@ + seq!['='] + client,
        "code"@ + seq!['='] + quoted(code),
        "redirect_uri"@ + seq!['='] + quoted(uri),
        "code_verifier"@ + seq!['='] + quoted(verifier),
    ]);
}

/// The address at which the user signs in has the challenge, the state and what the proxy
/// is, each under its name.
pub proof fn law_auth_url_has_pairs(challenge: Seq<char>, state: Seq<char>)
    requires
        is_without(challenge, '&'),
        is_without(state, '&'),
    ensures
        ({
            let parts = split_char(auth_url_of(challenge, state), '&');
            &&& parts.len() == 10
            &&& parts[0] == "https://auth.openai.com/oauth/authorize"@ + "?response_type=code"@
            &&& parts[1] == "client_id"@ + seq!['='] + "app_EMoamEEZ73f0CkXaXp7hrann"@
            &&& parts[2] == "redirect_uri"@ + seq!['='] + percent_encoded(
                encode_utf8("http://localhost:1455/auth/callback"@),
            )
            &&& parts[4] == "code_challenge"@ + seq!['='] + challenge
            &&& parts[5] == "code_challenge_method"@ + seq!['='] + "S256"@
            &&& parts[8] == "state"@ + seq!['='] + state
            &&& parts[9] == "originator"@ + seq!['='] + percent_encoded(
                encode_utf8("codex_cli_rs"@),
            )
        }),
{
    let a0 = "https://auth.openai.com/oauth/authorize"@ + "?response_type=code"@;
    reveal_strlit("https://auth.openai.com/oauth/authorize");
    reveal_strlit("?response_type=code");
    assert(is_without(a0, '&'));
    law_split_comes_apart(a0, Seq::empty(), '&');
    let client = "app_EMoamEEZ73f0CkXaXp7hrann"@;
    let redirect = quoted("http://localhost:1455/auth/callback"@);
    let scopes = quoted(crate::config::SCOPES@);
    let origin = quoted("codex_cli_rs"@);
    law_quoted_ends_nothing(encode_utf8("http://localhost:1455/auth/callback"@));
    law_quoted_ends_nothing(encode_utf8(crate::config::SCOPES@));
    law_quoted_ends_nothing(encode_utf8("codex_cli_rs"@));
    lemma_query_literals();
    let a1 = a0 + "&client_id="@ + client;
    lemma_tie(a0, "&client_id="@, "client_id"@, client);
    let a2 = a1 + "&redirect_uri="@ + redirect;
    lemma_tie(a1, "&redirect_uri="@, "redirect_uri"@, redirect);
    let a3 = a2 + "&scope="@ + scopes;
    lemma_tie(a2, "&scope="@, "scope"@, scopes);
    let a4 = a3 + "&code_challenge="@ + challenge;
    lemma_tie(a3, "&code_challenge="@, "code_challenge"@, challenge);
    let a5 = a4 + "&code_challenge_method="@ + "S256"@;
    lemma_tie(a4, "&code_challenge_method="@, "code_challenge_method"@, "S256"@);
    let a6 = a5 + "&id_token_add_organizations="@ + "true"@;
    lemma_tie(a5, "&id_token_add_organizations="@, "id_token_add_organizations"@, "true"@);
    let a7 = a6 + "&codex_cli_simplified_flow="@ + "true"@;
    lemma_tie(a6, "&codex_cli_simplified_flow="@, "codex_cli_simplified_flow"@, "true"@);
    let a8 = a7 + "&state="@ + state;
    lemma_tie(a7, "&state="@, "state"@, state);
    let a9 = a8 + "&originator="@ + origin;
    lemma_tie(a8, "&originator="@, "originator"@, origin);
    lemma_concat4(
        a4,
        "&code_challenge_method="@ + "S256"@,
        "&id_token_add_organizations="@ + "true"@,
        "&codex_cli_simplified_flow="@ + "true"@,
        "&state="@,
    );
    assert(a5 =~= a4 + ("&code_challenge_method="@ + "S256"@));
    assert(a6 =~= a5 + ("&id_token_add_organizations="@ + "true"@));
    assert(a7 =~= a6 + ("&codex_cli_simplified_flow="@ + "true"@));
    assert("https://auth.openai.com/oauth/authorize"@ + ("?response_type=code"@ + "&client_id="@)
        =~= a0 + "&client_id="@);
    assert(auth_url_of(challenge, state) == a9);
}

/// Five texts, one after the other.
proof fn lemma_concat4(a: Seq<char>, b: Seq<char>, c: Seq<char>, d: Seq<char>, e: Seq<char>)
    ensures
        a + (b + c + d + e) == a + b + c + d + e,
{
    assert(a + (b + c + d + e) =~= a + b + c + d + e);
}

/// What the signs between the values of a query are made of.
proof fn lemma_query_literals()
    ensures
        "?response_type=code&client_id="@ == "?response_type=code"@ + "&client_id="@,
        "&client_id="@ == seq!['&'] + "client_id"@ + seq!['='],
        "&redirect_uri="@ == seq!['&'] + "redirect_uri"@ + seq!['='],
        "&scope="@ == seq!['&'] + "scope"@ + seq!['='],
        "&code_challenge="@ == seq!['&'] + "code_challenge"@ + seq!['='],
        "&code_challenge_method="@ == seq!['&'] + "code_challenge_method"@ + seq!['='],
        "&id_token_add_organizations="@ == seq!['&'] + "id_token_add_organizations"@ + seq!['='],
        "&codex_cli_simplified_flow="@ == seq!['&'] + "codex_cli_simplified_flow"@ + seq!['='],
        "&state="@ == seq!['&'] + "state"@ + seq!['='],
        "&originator="@ == seq!['&'] + "originator"@ + seq!['='],
        "&code_challenge_method=S256&id_token_add_organizations=true&codex_cli_simplified_flow=true&state="@
            == ("&code_challenge_method="@ + "S256"@) + ("&id_token_add_organizations="@ + "true"@)
            + ("&codex_cli_simplified_flow="@ + "true"@) + "&state="@,
        is_without("client_id"@, '&'),
        is_without("redirect_uri"@, '&'),
        is_without("scope"@, '&'),
        is_without("code_challenge"@, '&'),
        is_without("code_challenge_method"@, '&'),
        is_without("id_token_add_organizations"@, '&'),
        is_without("codex_cli_simplified_flow"@, '&'),
        is_without("state"@, '&'),
        is_without("originator"@, '&'),
        is_without("S256"@, '&'),
        is_without("true"@, '&'),
        is_without("app_EMoamEEZ73f0CkXaXp7hrann"@, '&'),
{
    reveal_strlit("?response_type=code&client_id=");
    reveal_strlit("?response_type=code");
    reveal_strlit("&client_id=");
    reveal_strlit("&redirect_uri=");
    reveal_strlit("&scope=");
    reveal_strlit("&code_challenge=");
    reveal_strlit("&code_challenge_method=");
    reveal_strlit("&id_token_add_organizations=");
    reveal_strlit("&codex_cli_simplified_flow=");
    reveal_strlit("&state=");
    reveal_strlit("&originator=");
    reveal_strlit(
        "&code_challenge_method=S256&id_token_add_organizations=true&codex_cli_simplified_flow=true&state=",
    );
    reveal_strlit("client_id");
    reveal_strlit("redirect_uri");
    reveal_strlit("scope");
    reveal_strlit("code_challenge");
    reveal_strlit("code_challenge_method");
    reveal_strlit("id_token_add_organizations");
    reveal_strlit("codex_cli_simplified_flow");
    reveal_strlit("state");
    reveal_strlit("originator");
    reveal_strlit("S256");
    reveal_strlit("true");
    reveal_strlit("app_EMoamEEZ73f0CkXaXp7hrann");
    assert("?response_type=code&client_id="@ =~= "?response_type=code"@ + "&client_id="@);
    assert("&client_id="@ =~= seq!['&'] + "client_id"@ + seq!['=']);
    assert("&redirect_uri="@ =~= seq!['&'] + "redirect_uri"@ + seq!['=']);
    assert("&scope="@ =~= seq!['&'] + "scope"@ + seq!['=']);
    assert("&code_challenge="@ =~= seq!['&'] + "code_challenge"@ + seq!['=']);
    assert("&code_challenge_method="@ =~= seq!['&'] + "code_challenge_method"@ + seq!['=']);
    assert("&id_token_add_organizations="@ =~= seq!['&'] + "id_token_add_organizations"@
        + seq!['=']);
    assert("&codex_cli_simplified_flow="@ =~= seq!['&'] + "codex_cli_simplified_flow"@
        + seq!['=']);
    assert("&state="@ =~= seq!['&'] + "state"@ + seq!['=']);
    assert("&originator="@ =~= seq!['&'] + "originator"@ + seq!['=']);
}

/// The query of a request stands between the question mark and the next space, and the
/// code is what its last pair named `code` holds, decoded where that can be done.
pub proof fn law_code_is_found(
    front: Seq<char>,
    query: Seq<char>,
    tail: Seq<char>,
    pairs: Seq<Seq<char>>,
    value: Seq<char>,
    other: Seq<char>,
)
    requires
        is_without(front, '?'),
        is_without(query, '?'),
        is_without(query, ' '),
        is_without(tail, '?'),
        other.len() < 5 || other.take(5) != "code="@,
    ensures
        query_of(front + seq!['?'] + (query + seq![' '] + tail)) == Some(query),
        query_of(front) is None,
        code_in_pairs(Seq::empty()) is None,
        code_in_pairs(pairs.push(other)) == code_in_pairs(pairs),
        code_in_pairs(pairs.push("code="@ + value)) == Some(
            match url_decoded(value) {
                Some(d) => d,
                None => value,
            },
        ),
{
    let rest = query + seq![' '] + tail;
    assert forall|i: int| 0 <= i < rest.len() implies #[trigger] rest[i] != '?' by {
        if i < query.len() {
            assert(rest[i] == query[i]);
        } else if i > query.len() {
            assert(rest[i] == tail[i - query.len() - 1]);
        }
    }
    law_split_comes_apart(front, rest, '?');
    law_split_comes_apart(rest, Seq::empty(), '?');
    law_split_comes_apart(query, tail, ' ');
    assert(split_char(front + seq!['?'] + rest, '?')[1] == rest);
    assert(split_char(rest, ' ')[0] == query);
    reveal_strlit("code=");
    assert("code="@.len() == 5);
    assert(pairs.push(other).drop_last() =~= pairs);
    let p = "code="@ + value;
    assert(pairs.push(p).drop_last() =~= pairs);
    assert(p.take(5) =~= "code="@);
    assert(p.skip(5) =~= value);
}

/// The interval is what the upstream gives, as a number or as a text, or five seconds
/// where it gives none.
pub proof fn law_interval(n: u64, s: Seq<char>, v: JsonSpec)
    ensures
        interval_in(None) == Ok::<u64, IntervalError>(5),
        interval_in(Some(JsonSpec::Number(NumberSpec::Int(n as int)))) == Ok::<
            u64,
            IntervalError,
        >(n),
        n > 0 ==> interval_in(Some(JsonSpec::Number(NumberSpec::Int(-n)))) == Err::<
            u64,
            IntervalError,
        >(IntervalError::Negative),
        u64_text(s) matches Some(k) ==> interval_in(Some(JsonSpec::Str(s))) == Ok::<
            u64,
            IntervalError,
        >(k),
        u64_text(s) is None ==> interval_in(Some(JsonSpec::Str(s))) == Err::<u64, IntervalError>(
            IntervalError::NotANumber,
        ),
        !(v is Number) && !(v is Str) ==> interval_in(Some(v)) == Err::<u64, IntervalError>(
            IntervalError::WrongType,
        ),
{
}

/// While the user signs in: a success ends the wait, 403 and 404 say to ask again, after
/// the interval, but at least a second and at most what is left of 15 minutes; anything
/// else fails.
pub proof fn law_polling(status: u16, interval: u64, elapsed: u64)
    ensures
        200 <= status < 300 <==> poll_step_of(status, interval, elapsed) == PollStep::Authorized,
        !(200 <= status < 300) && status != 403 && status != 404 <==> poll_step_of(
            status,
            interval,
            elapsed,
        ) == PollStep::Failed,
        (status == 403 || status == 404) && elapsed >= 900_000_000_000 <==> poll_step_of(
            status,
            interval,
            elapsed,
        ) == PollStep::TimedOut,
        poll_step_of(status, interval, elapsed) matches PollStep::WaitNanos(n) ==> {
            &&& n <= 900_000_000_000 - elapsed
            &&& interval >= 1 ==> n <= interval * 1_000_000_000
            &&& interval < 1 ==> n <= 1_000_000_000
            &&& n < 900_000_000_000 - elapsed && interval >= 1 ==> n == interval * 1_000_000_000
            &&& n < 900_000_000_000 - elapsed && interval < 1 ==> n == 1_000_000_000
        },
{
}

} // verus!
