//! Signing in: the requests of the browser and device-code flows, and what comes
//! back.

use vstd::prelude::*;
use vstd::utf8::encode_utf8;

use crate::config::{AUTH_URL, CLIENT_ID, ORIGINATOR, REDIRECT_URI, SCOPES};
use crate::encoding::{
    base64url, base64url_bytes, base64url_encode, hex_text, is_base64url_char, percent_encoded, random_bytes,
    sha256, sha256_digest, to_hex, url_decode, url_decoded, url_encode,
};
use crate::json::{opt_json, put, Json, JsonNumber, JsonSpec, NumberSpec};
use crate::text::{
    after_prefix, concat, lines, lines_of, lossy_text, opt_view, parse_u64, split, split_char,
    strip_prefix, texts, u64_text, utf8_lossy,
};

verus! {

// ---- random texts -----------------------------------------------------

/// A code verifier and its challenge, for the code exchange of OAuth.
#[derive(Debug)]
pub struct PkceChallenge {
    pub verifier: String,
    pub challenge: String,
}

/// The challenge of a verifier: the digest of its text.
pub open spec fn challenge_of(verifier: Seq<char>) -> Seq<char> {
    base64url(sha256_digest(encode_utf8(verifier)))
}

impl PkceChallenge {
    /// The verifier that writes down `bytes`, and its challenge. The bytes can be
    /// read off the verifier, so different bytes give different verifiers.
    pub fn from_bytes(bytes: &Vec<u8>) -> (r: PkceChallenge)
        ensures
            r.verifier@ == base64url(bytes@),
            r.challenge@ == challenge_of(r.verifier@),
            base64url_bytes(r.verifier@) == Some(bytes@),
            forall|i: int| 0 <= i < r.verifier@.len() ==> is_base64url_char(#[trigger] r.verifier@[i]),
            forall|i: int|
                0 <= i < r.challenge@.len() ==> is_base64url_char(#[trigger] r.challenge@[i]),
    {
        let verifier = base64url_encode(bytes.as_slice());
        let digest = sha256(verifier.as_str().as_bytes());
        let challenge = base64url_encode(digest.as_slice());
        PkceChallenge { verifier, challenge }
    }

    /// A verifier of 64 random bytes, and its challenge.
    pub fn generate() -> (r: PkceChallenge)
        ensures
            exists|bytes: Seq<u8>|
                bytes.len() == 64 && r.verifier@ == #[trigger] base64url(bytes),
            r.challenge@ == challenge_of(r.verifier@),
    {
        let bytes = random_bytes(64);
        PkceChallenge::from_bytes(&bytes)
    }
}

/// A random text that ties an answer to its request.
pub fn random_state() -> (r: String)
    ensures
        exists|bytes: Seq<u8>| bytes.len() == 32 && r@ == #[trigger] base64url(bytes),
{
    let bytes = random_bytes(32);
    base64url_encode(bytes.as_slice())
}

/// A short random identifier.
pub fn uuid_short() -> (r: String)
    ensures
        exists|bytes: Seq<u8>| bytes.len() == 8 && r@ == #[trigger] hex_text(bytes),
{
    let bytes = random_bytes(8);
    to_hex(&bytes)
}

/// The identifier of a new completion.
pub fn new_completion_id() -> (r: String)
    ensures
        exists|bytes: Seq<u8>|
            bytes.len() == 8 && r@ == "chatcmpl-"@ + #[trigger] hex_text(bytes),
{
    let id = uuid_short();
    concat("chatcmpl-", id.as_str())
}

// ---- the browser flow -------------------------------------------------

/// A text as it stands in a query.
pub open spec fn quoted(s: Seq<char>) -> Seq<char> {
    percent_encoded(encode_utf8(s))
}

/// The address at which the user signs in.
pub open spec fn auth_url_of(challenge: Seq<char>, state: Seq<char>) -> Seq<char> {
    AUTH_URL@ + "?response_type=code&client_id="@ + CLIENT_ID@ + "&redirect_uri="@ + quoted(
        REDIRECT_URI@,
    ) + "&scope="@ + quoted(SCOPES@) + "&code_challenge="@ + challenge
        + "&code_challenge_method=S256&id_token_add_organizations=true&codex_cli_simplified_flow=true&state="@
        + state + "&originator="@ + quoted(ORIGINATOR@)
}

/// The address at which the user signs in.
pub fn auth_url(challenge: &str, state: &str) -> (r: String)
    ensures
        r@ == auth_url_of(challenge@, state@),
{
    let redirect = url_encode(REDIRECT_URI);
    let scopes = url_encode(SCOPES);
    let originator = url_encode(ORIGINATOR);
    let mut out = AUTH_URL.to_owned();
    out.append("?response_type=code&client_id=");
    out.append(CLIENT_ID);
    out.append("&redirect_uri=");
    out.append(redirect.as_str());
    out.append("&scope=");
    out.append(scopes.as_str());
    out.append("&code_challenge=");
    out.append(challenge);
    out.append(
        "&code_challenge_method=S256&id_token_add_organizations=true&codex_cli_simplified_flow=true&state=",
    );
    out.append(state);
    out.append("&originator=");
    out.append(originator.as_str());
    out
}

/// The query of the first line of a request, up to the next space.
pub open spec fn query_of(line: Seq<char>) -> Option<Seq<char>> {
    let pieces = split_char(line, '?');
    if pieces.len() > 1 {
        Some(split_char(pieces[1], ' ')[0])
    } else {
        None
    }
}

/// The code that a pair of the query holds. What cannot be decoded is taken as
/// it is.
pub open spec fn code_in_pair(pair: Seq<char>) -> Option<Seq<char>> {
    match after_prefix(pair, "code="@) {
        Some(v) => match url_decoded(v) {
            Some(d) => Some(d),
            None => Some(v),
        },
        None => None,
    }
}

/// The code that the last pair with one holds.
pub open spec fn code_in_pairs(pairs: Seq<Seq<char>>) -> Option<Seq<char>>
    decreases pairs.len(),
{
    if pairs.len() == 0 {
        None
    } else {
        match code_in_pair(pairs.last()) {
            Some(c) => Some(c),
            None => code_in_pairs(pairs.drop_last()),
        }
    }
}

/// The code that a request to the callback address holds.
pub open spec fn code_in_request(text: Seq<char>) -> Option<Seq<char>> {
    let ls = lines(text);
    if ls.len() > 0 {
        match query_of(ls[0]) {
            Some(query) => code_in_pairs(split_char(query, '&')),
            None => None,
        }
    } else {
        None
    }
}

/// A split has a first piece.
proof fn lemma_split_has_first(s: Seq<char>, c: char)
    ensures
        split_char(s, c).len() > 0,
{
}

/// The query of the first line of a request.
fn read_query(line: &str) -> (r: Option<String>)
    ensures
        opt_view(r) == query_of(line@),
{
    let pieces = split(line, '?');
    proof {
        assert(texts(pieces@).len() == pieces@.len());
    }
    if pieces.len() > 1 {
        proof {
            assert(texts(pieces@)[1] == pieces@[1]@);
            lemma_split_has_first(pieces@[1]@, ' ');
        }
        let words = split(pieces[1].as_str(), ' ');
        proof {
            assert(texts(words@).len() == words@.len());
            assert(texts(words@)[0] == words@[0]@);
        }
        Some(words[0].clone())
    } else {
        None
    }
}

/// The code that a pair of the query holds.
fn read_code(pair: &str) -> (r: Option<String>)
    ensures
        opt_view(r) == code_in_pair(pair@),
{
    match strip_prefix(pair, "code=") {
        Some(v) => match url_decode(v.as_str()) {
            Some(d) => Some(d),
            None => Some(v),
        },
        None => None,
    }
}

/// The code that a request to the callback address holds, given as text.
pub fn callback_code_in(text: &str) -> (r: Option<String>)
    ensures
        opt_view(r) == code_in_request(text@),
{
    let ls = lines_of(text);
    proof {
        assert(texts(ls@).len() == ls@.len());
    }
    if ls.len() == 0 {
        return None;
    }
    proof {
        assert(texts(ls@)[0] == ls@[0]@);
    }
    match read_query(ls[0].as_str()) {
        Some(query) => {
            let pairs = split(query.as_str(), '&');
            let ghost all = texts(pairs@);
            let mut code: Option<String> = None;
            let mut i: usize = 0;
            while i < pairs.len()
                invariant
                    i <= pairs@.len(),
                    all == texts(pairs@),
                    opt_view(code) == code_in_pairs(all.take(i as int)),
                decreases pairs@.len() - i,
            {
                proof {
                    assert(all.take(i + 1).drop_last() =~= all.take(i as int));
                    assert(all.take(i + 1).last() == pairs@[i as int]@);
                }
                match read_code(pairs[i].as_str()) {
                    Some(c) => {
                        code = Some(c);
                    },
                    None => {},
                }
                i = i + 1;
            }
            proof {
                assert(all.take(all.len() as int) =~= all);
            }
            code
        },
        None => None,
    }
}

/// The code that a request to the callback address holds.
pub fn callback_code(request: &[u8]) -> (r: Option<String>)
    ensures
        opt_view(r) == code_in_request(utf8_lossy(request@)),
{
    let text = lossy_text(request);
    callback_code_in(text.as_str())
}

// ---- requests to the token endpoint -----------------------------------

/// The form that exchanges a code for tokens.
pub open spec fn exchange_form_of(
    code: Seq<char>,
    redirect_uri: Seq<char>,
    verifier: Seq<char>,
) -> Seq<char> {
    "grant_type=authorization_code&client_id="@ + CLIENT_ID@ + "&code="@ + quoted(code)
        + "&redirect_uri="@ + quoted(redirect_uri) + "&code_verifier="@ + quoted(verifier)
}

/// The form that exchanges a code for tokens.
pub fn exchange_form(code: &str, redirect_uri: &str, verifier: &str) -> (r: String)
    ensures
        r@ == exchange_form_of(code@, redirect_uri@, verifier@),
{
    let c = url_encode(code);
    let u = url_encode(redirect_uri);
    let v = url_encode(verifier);
    let mut out = "grant_type=authorization_code&client_id=".to_owned();
    out.append(CLIENT_ID);
    out.append("&code=");
    out.append(c.as_str());
    out.append("&redirect_uri=");
    out.append(u.as_str());
    out.append("&code_verifier=");
    out.append(v.as_str());
    out
}

/// The form that revokes a token.
pub fn revoke_form(token: &str) -> (r: String)
    ensures
        r@ == "client_id="@ + CLIENT_ID@ + "&token="@ + quoted(token@),
{
    let t = url_encode(token);
    let mut out = "client_id=".to_owned();
    out.append(CLIENT_ID);
    out.append("&token=");
    out.append(t.as_str());
    out
}

/// The request that refreshes tokens.
pub fn refresh_body(refresh: &str) -> (r: Json)
    ensures
        r@ == JsonSpec::Object(
            map![
                "grant_type"@ => JsonSpec::Str("refresh_token"@),
                "client_id"@ => JsonSpec::Str(CLIENT_ID@),
                "refresh_token"@ => JsonSpec::Str(refresh@),
            ],
        ),
{
    let mut e: Vec<(String, Json)> = Vec::new();
    put(&mut e, "grant_type", Json::text("refresh_token"));
    put(&mut e, "client_id", Json::text(CLIENT_ID));
    put(&mut e, "refresh_token", Json::text(refresh));
    Json::Object(e)
}

// ---- the device-code flow ---------------------------------------------

pub const DEVICE_AUTH_BASE: &'static str = "https://auth.openai.com/api/accounts";

pub const DEVICE_VERIFY_URL: &'static str = "https://auth.openai.com/codex/device";

pub const DEVICE_REDIRECT_URI: &'static str = "https://auth.openai.com/deviceauth/callback";

/// Nanoseconds for which the user may take to sign in.
pub const DEVICE_MAX_WAIT_NANOS: u64 = 900_000_000_000;

/// The request for a device code.
pub fn device_code_body() -> (r: Json)
    ensures
        r@ == JsonSpec::Object(map!["client_id"@ => JsonSpec::Str(CLIENT_ID@)]),
{
    let mut e: Vec<(String, Json)> = Vec::new();
    put(&mut e, "client_id", Json::text(CLIENT_ID));
    Json::Object(e)
}

/// The request that asks whether the user has signed in.
pub fn device_poll_body(device_auth_id: &str, user_code: &str) -> (r: Json)
    ensures
        r@ == JsonSpec::Object(
            map![
                "device_auth_id"@ => JsonSpec::Str(device_auth_id@),
                "user_code"@ => JsonSpec::Str(user_code@),
            ],
        ),
{
    let mut e: Vec<(String, Json)> = Vec::new();
    put(&mut e, "device_auth_id", Json::text(device_auth_id));
    put(&mut e, "user_code", Json::text(user_code));
    Json::Object(e)
}

/// Why an interval cannot be used.
#[derive(Debug, Clone, Copy, PartialEq, Eq, Structural)]
pub enum IntervalError {
    Negative,
    NotANumber,
    WrongType,
}

impl IntervalError {
    /// The error in words.
    pub fn message(self) -> (r: &'static str)
        ensures
            r@ == match self {
                IntervalError::Negative => "interval cannot be negative"@,
                IntervalError::NotANumber => "interval string must contain a u64"@,
                IntervalError::WrongType => "expected a u64 or a string containing a u64"@,
            },
    {
        match self {
            IntervalError::Negative => "interval cannot be negative",
            IntervalError::NotANumber => "interval string must contain a u64",
            IntervalError::WrongType => "expected a u64 or a string containing a u64",
        }
    }
}

/// Seconds between two questions where the upstream does not say.
pub fn default_interval() -> (r: u64)
    ensures
        r == 5,
{
    5
}

/// The interval that the upstream gives: a number, or a text that holds one, or
/// the default where it gives none.
pub open spec fn interval_in(value: Option<JsonSpec>) -> Result<u64, IntervalError> {
    match value {
        None => Ok(5),
        Some(JsonSpec::Number(NumberSpec::Int(n))) => if n < 0 {
            Err(IntervalError::Negative)
        } else {
            Ok(n as u64)
        },
        Some(JsonSpec::Str(s)) => match u64_text(s) {
            Some(n) => Ok(n),
            None => Err(IntervalError::NotANumber),
        },
        Some(_) => Err(IntervalError::WrongType),
    }
}

/// The interval that the upstream gives.
pub fn read_interval(value: Option<&Json>) -> (r: Result<u64, IntervalError>)
    ensures
        r == interval_in(opt_json(value)),
{
    match value {
        None => Ok(default_interval()),
        Some(Json::Number(JsonNumber::Unsigned(n))) => Ok(*n),
        Some(Json::Number(JsonNumber::Signed(n))) => if *n < 0 {
            Err(IntervalError::Negative)
        } else {
            Ok(*n as u64)
        },
        Some(Json::Str(s)) => match parse_u64(s.as_str()) {
            Some(n) => Ok(n),
            None => Err(IntervalError::NotANumber),
        },
        Some(_) => Err(IntervalError::WrongType),
    }
}

/// What is done next while the user signs in.
#[derive(Debug, Clone, Copy, PartialEq, Eq, Structural)]
pub enum PollStep {
    /// The user has signed in.
    Authorized,
    /// Ask again after so many nanoseconds.
    WaitNanos(u64),
    /// The time is over.
    TimedOut,
    /// The upstream refused.
    Failed,
}

/// The smaller of the interval, at least one second, and the time that is left.
pub open spec fn poll_wait(interval: u64, elapsed: u64) -> int {
    let wanted = 1_000_000_000 * (if interval < 1 {
        1
    } else {
        interval as int
    });
    let left = DEVICE_MAX_WAIT_NANOS - elapsed;
    if wanted < left {
        wanted
    } else {
        left
    }
}

/// What is done after an answer with this status, when so many nanoseconds have
/// passed.
pub open spec fn poll_step_of(status: u16, interval: u64, elapsed: u64) -> PollStep {
    if 200 <= status < 300 {
        PollStep::Authorized
    } else if status != 403 && status != 404 {
        PollStep::Failed
    } else if elapsed >= DEVICE_MAX_WAIT_NANOS {
        PollStep::TimedOut
    } else {
        PollStep::WaitNanos(poll_wait(interval, elapsed) as u64)
    }
}

/// Whether the time for signing in is over.
pub fn poll_timed_out(elapsed: u64) -> (r: bool)
    ensures
        r == (elapsed >= DEVICE_MAX_WAIT_NANOS),
{
    elapsed >= DEVICE_MAX_WAIT_NANOS
}

/// What is done after an answer with this status, when so many nanoseconds have
/// passed.
pub fn poll_step(status: u16, interval: u64, elapsed: u64) -> (r: PollStep)
    ensures
        r == poll_step_of(status, interval, elapsed),
{
    if 200 <= status && status < 300 {
        return PollStep::Authorized;
    }
    if status != 403 && status != 404 {
        return PollStep::Failed;
    }
    if elapsed >= DEVICE_MAX_WAIT_NANOS {
        return PollStep::TimedOut;
    }
    let left: u64 = DEVICE_MAX_WAIT_NANOS - elapsed;
    if interval >= 900 {
        return PollStep::WaitNanos(left);
    }
    let secs: u64 = if interval < 1 {
        1
    } else {
        interval
    };
    let wanted: u64 = secs * 1_000_000_000;
    if wanted < left {
        PollStep::WaitNanos(wanted)
    } else {
        PollStep::WaitNanos(left)
    }
}

// ---- laws -------------------------------------------------------------

/// Waiting between two questions never goes beyond the time for signing in, and
/// never takes no time.
pub proof fn law_poll_wait_is_bounded(status: u16, interval: u64, elapsed: u64)
    ensures
        poll_step_of(status, interval, elapsed) matches PollStep::WaitNanos(n) ==> 0 < n && elapsed
            + n <= DEVICE_MAX_WAIT_NANOS,
{
}

/// A number and its decimal text are the same interval.
pub proof fn law_interval_text_or_number(s: Seq<char>, n: u64)
    requires
        u64_text(s) == Some(n),
    ensures
        interval_in(Some(JsonSpec::Str(s))) == interval_in(
            Some(JsonSpec::Number(NumberSpec::Int(n as int))),
        ),
{
}

} // verus!
