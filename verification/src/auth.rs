//! Stored tokens: what they say, when they expire, and how the auth file is read
//! and written.

use vstd::prelude::*;

use crate::clock::{
    add_seconds, in_calendar, instant_at, instant_plus, is_leap, now_rfc3339, parse_rfc3339,
    rfc3339_instant, utc_now, Timestamp,
};
use crate::config::{auth_file_path, auth_path_of, AuthPath, REFRESH_MARGIN_SECS};
use crate::encoding::{base64url_bytes, base64url_decode};
use crate::json::{
    entries_view, opt_json, opt_owned, put, Json, JsonNumber, JsonSpec, NumberSpec,
};
use crate::json_codec::{
    json_parse, json_parse_bytes, json_pretty, read_json, read_json_bytes, rereadable,
    write_json_pretty, RAW_TEXT_KEY, READ_DEPTH,
};
use crate::text::{concat, copy_opt, opt_str_view, opt_view, split, split_char, texts};

verus! {

// ---- tokens -----------------------------------------------------------

/// The tokens of an account.
#[derive(Debug)]
pub struct AuthTokens {
    pub access_token: String,
    pub refresh_token: Option<String>,
    pub id_token: Option<String>,
    pub token_type: Option<String>,
    pub expires_in: Option<i64>,
    /// When the token was obtained or refreshed, as RFC 3339 text.
    pub obtained_at: Option<String>,
    pub account_id: Option<String>,
    /// Whether requests of the account need the FedRAMP routing header.
    pub chatgpt_account_is_fedramp: bool,
}

/// What the tokens of an account are.
#[verifier::ext_equal]
pub struct TokensSpec {
    pub access_token: Seq<char>,
    pub refresh_token: Option<Seq<char>>,
    pub id_token: Option<Seq<char>>,
    pub token_type: Option<Seq<char>>,
    pub expires_in: Option<i64>,
    pub obtained_at: Option<Seq<char>>,
    pub account_id: Option<Seq<char>>,
    pub is_fedramp: bool,
}

impl View for AuthTokens {
    type V = TokensSpec;

    open spec fn view(&self) -> TokensSpec {
        TokensSpec {
            access_token: self.access_token@,
            refresh_token: opt_view(self.refresh_token),
            id_token: opt_view(self.id_token),
            token_type: opt_view(self.token_type),
            expires_in: self.expires_in,
            obtained_at: opt_view(self.obtained_at),
            account_id: opt_view(self.account_id),
            is_fedramp: self.chatgpt_account_is_fedramp,
        }
    }
}

impl Clone for AuthTokens {
    fn clone(&self) -> (r: Self)
        ensures
            r@ == self@,
    {
        AuthTokens {
            access_token: self.access_token.clone(),
            refresh_token: copy_opt(&self.refresh_token),
            id_token: copy_opt(&self.id_token),
            token_type: copy_opt(&self.token_type),
            expires_in: self.expires_in,
            obtained_at: copy_opt(&self.obtained_at),
            account_id: copy_opt(&self.account_id),
            chatgpt_account_is_fedramp: self.chatgpt_account_is_fedramp,
        }
    }
}

// ---- claims -----------------------------------------------------------

/// The claims that a JSON Web Token carries: its second part of three. The
/// signature is not looked at.
pub open spec fn claims_of(token: Seq<char>) -> Option<JsonSpec> {
    let parts = split_char(token, '.');
    if parts.len() == 3 {
        match base64url_bytes(parts[1]) {
            Some(bytes) => json_parse_bytes(bytes),
            None => None,
        }
    } else {
        None
    }
}

/// The claims that a JSON Web Token carries.
pub fn decode_jwt_payload(token: &str) -> (r: Option<Json>)
    ensures
        opt_owned(r) == claims_of(token@),
{
    let parts = split(token, '.');
    proof {
        assert(texts(parts@).len() == parts@.len());
        assert(parts@.len() == 3 ==> texts(parts@)[1] == parts@[1]@);
    }
    if parts.len() != 3 {
        return None;
    }
    match base64url_decode(parts[1].as_str()) {
        Some(bytes) => read_json_bytes(bytes.as_slice()),
        None => None,
    }
}

/// The account that the claims of an access token name: the `sub` claim, else the
/// claim about the account.
pub open spec fn account_in(claims: JsonSpec) -> Option<Seq<char>> {
    match claims.get_str("sub"@) {
        Some(s) => Some(s),
        None => claims.get_str("https://api.openai.com/auth"@),
    }
}

/// The claim `key`, or else the claim about the account.
pub open spec fn account_claim(claims: JsonSpec, key: Seq<char>) -> Option<JsonSpec> {
    match claims.get(key) {
        Some(v) => Some(v),
        None => claims.get("https://api.openai.com/auth"@),
    }
}

/// The ChatGPT account that the claims of an ID token name.
pub open spec fn chatgpt_account_in(claims: JsonSpec) -> Option<Seq<char>> {
    let named = match account_claim(claims, "chatgpt_account_id"@) {
        Some(v) => match v.as_str() {
            Some(s) => Some(s),
            None => v.get_str("chatgpt_account_id"@),
        },
        None => None,
    };
    match named {
        Some(s) => Some(s),
        None => claims.get_str("sub"@),
    }
}

/// Whether the claims of an ID token say that the account is a FedRAMP one.
pub open spec fn fedramp_in(claims: JsonSpec) -> bool {
    match account_claim(claims, "chatgpt_account_is_fedramp"@) {
        Some(v) => match v.as_bool() {
            Some(b) => b,
            None => v.get_bool("chatgpt_account_is_fedramp"@) == Some(true),
        },
        None => false,
    }
}

/// An owned text, where there is one.
fn own(s: Option<&str>) -> (r: Option<String>)
    ensures
        opt_view(r) == opt_str_view(s),
{
    match s {
        Some(t) => Some(t.to_owned()),
        None => None,
    }
}

/// The account that the claims of an access token name.
pub fn account_id_from(claims: &Json) -> (r: Option<String>)
    ensures
        opt_view(r) == account_in(claims@),
{
    match claims.get_str("sub") {
        Some(s) => Some(s.to_owned()),
        None => own(claims.get_str("https://api.openai.com/auth")),
    }
}

/// The claim `key`, or else the claim about the account.
fn find_account_claim<'a>(claims: &'a Json, key: &str) -> (r: Option<&'a Json>)
    ensures
        opt_json(r) == account_claim(claims@, key@),
{
    match claims.get(key) {
        Some(v) => Some(v),
        None => claims.get("https://api.openai.com/auth"),
    }
}

/// The ChatGPT account that the claims of an ID token name.
pub fn chatgpt_account_id_from(claims: &Json) -> (r: Option<String>)
    ensures
        opt_view(r) == chatgpt_account_in(claims@),
{
    let named = match find_account_claim(claims, "chatgpt_account_id") {
        Some(v) => match v.as_str() {
            Some(s) => Some(s),
            None => v.get_str("chatgpt_account_id"),
        },
        None => None,
    };
    match named {
        Some(s) => Some(s.to_owned()),
        None => own(claims.get_str("sub")),
    }
}

/// Whether the claims of an ID token say that the account is a FedRAMP one.
pub fn chatgpt_account_is_fedramp_from(claims: &Json) -> (r: bool)
    ensures
        r == fedramp_in(claims@),
{
    match find_account_claim(claims, "chatgpt_account_is_fedramp") {
        Some(v) => match v.as_bool() {
            Some(b) => b,
            None => match v.get_bool("chatgpt_account_is_fedramp") {
                Some(b) => b,
                None => false,
            },
        },
        None => false,
    }
}

/// The account that an access token names.
pub fn extract_account_id(token: &str) -> (r: Option<String>)
    ensures
        opt_view(r) == match claims_of(token@) {
            Some(claims) => account_in(claims),
            None => None,
        },
{
    match decode_jwt_payload(token) {
        Some(claims) => account_id_from(&claims),
        None => None,
    }
}

/// The ChatGPT account that an ID token names.
pub fn extract_chatgpt_account_id(token: &str) -> (r: Option<String>)
    ensures
        opt_view(r) == match claims_of(token@) {
            Some(claims) => chatgpt_account_in(claims),
            None => None,
        },
{
    match decode_jwt_payload(token) {
        Some(claims) => chatgpt_account_id_from(&claims),
        None => None,
    }
}

/// Whether an ID token says that the account is a FedRAMP one.
pub fn extract_chatgpt_account_is_fedramp(token: &str) -> (r: bool)
    ensures
        r == match claims_of(token@) {
            Some(claims) => fedramp_in(claims),
            None => false,
        },
{
    match decode_jwt_payload(token) {
        Some(claims) => chatgpt_account_is_fedramp_from(&claims),
        None => false,
    }
}

// ---- expiry -----------------------------------------------------------

/// When tokens expire.
#[derive(Debug, Clone, Copy, PartialEq, Eq, Structural)]
pub enum Expiry {
    At(Timestamp),
    /// Nothing tells it.
    Unknown,
    /// At no time that the calendar has.
    OutOfRange,
}

/// The instant that the claims of an access token give as its expiry.
pub open spec fn claimed_expiry(claims: Option<JsonSpec>) -> Option<Timestamp> {
    match claims {
        Some(c) => match c.get_i64("exp"@) {
            Some(secs) => if in_calendar(secs as int) {
                Some(Timestamp { secs, nanos: 0 })
            } else {
                None
            },
            None => None,
        },
        None => None,
    }
}

/// When the tokens were obtained, where they say so.
pub open spec fn obtained_instant(t: TokensSpec) -> Option<Timestamp> {
    match t.obtained_at {
        Some(text) => rfc3339_instant(text),
        None => None,
    }
}

/// For how many seconds the tokens are good from when they were obtained.
pub open spec fn lifetime(t: TokensSpec) -> i64 {
    match t.expires_in {
        Some(s) => s,
        None => 3600,
    }
}

/// When tokens expire that were obtained at `obtained` and whose access token
/// claims `claimed`.
pub open spec fn expiry_from(
    claimed: Option<Timestamp>,
    obtained: Option<Timestamp>,
    lifetime: i64,
) -> Expiry {
    match claimed {
        Some(t) => Expiry::At(t),
        None => match obtained {
            Some(t) => match instant_plus(t, lifetime) {
                Some(x) => Expiry::At(x),
                None => Expiry::OutOfRange,
            },
            None => Expiry::Unknown,
        },
    }
}

/// When tokens expire: as their access token claims, else their lifetime after
/// they were obtained.
pub open spec fn expiry_of(t: TokensSpec) -> Expiry {
    expiry_from(
        claimed_expiry(claims_of(t.access_token)),
        obtained_instant(t),
        lifetime(t),
    )
}

/// Whether an instant is not before another.
pub open spec fn not_before(a_secs: int, a_nanos: u32, b: Timestamp) -> bool {
    a_secs > b.secs || (a_secs == b.secs && a_nanos >= b.nanos)
}

/// Whether tokens count as expired at `now`: from the margin before their expiry
/// on, and where nothing tells their expiry.
pub open spec fn due(now: Timestamp, e: Expiry) -> bool {
    match e {
        Expiry::At(t) => not_before(now.secs + REFRESH_MARGIN_SECS, now.nanos, t),
        _ => true,
    }
}

/// The expiry that the claims of an access token give.
pub fn claims_expiration(claims: &Json) -> (r: Option<Timestamp>)
    ensures
        r == claimed_expiry(Some(claims@)),
{
    match claims.get_i64("exp") {
        Some(secs) => instant_at(secs),
        None => None,
    }
}

/// The expiry that an access token claims.
pub fn token_expiration(token: &str) -> (r: Option<Timestamp>)
    ensures
        r == claimed_expiry(claims_of(token@)),
{
    match decode_jwt_payload(token) {
        Some(claims) => claims_expiration(&claims),
        None => None,
    }
}

/// Whether tokens count as expired at `now`.
pub fn is_due(now: Timestamp, e: Expiry) -> (r: bool)
    requires
        e != Expiry::OutOfRange,
    ensures
        r == due(now, e),
{
    match e {
        Expiry::At(t) => {
            let secs: i128 = now.secs as i128 + REFRESH_MARGIN_SECS as i128;
            let at: i128 = t.secs as i128;
            secs > at || (secs == at && now.nanos >= t.nanos)
        },
        _ => true,
    }
}

impl AuthTokens {
    /// Where the tokens are stored.
    pub fn path(configured: Option<&str>, is_absolute: bool, home: Option<&str>) -> (r: AuthPath)
        ensures
            r@ == auth_path_of(opt_str_view(configured), is_absolute, opt_str_view(home)),
    {
        auth_file_path(configured, is_absolute, home)
    }

    /// When the tokens expire. Where their access token claims nothing, that is
    /// their lifetime after they were obtained, to the nanosecond.
    pub fn expiry(&self) -> (r: Expiry)
        ensures
            r == expiry_of(self@),
            claimed_expiry(claims_of(self@.access_token)) is None ==> match (
                obtained_instant(self@),
                r,
            ) {
                (Some(t), Expiry::At(x)) => !is_leap(t) ==> x.secs == t.secs + lifetime(
                    self@,
                ) && x.nanos == t.nanos,
                _ => true,
            },
    {
        match token_expiration(self.access_token.as_str()) {
            Some(t) => {
                return Expiry::At(t);
            },
            None => {},
        }
        let obtained = match &self.obtained_at {
            Some(text) => parse_rfc3339(text.as_str()),
            None => None,
        };
        let lifetime: i64 = match self.expires_in {
            Some(s) => s,
            None => 3600,
        };
        match obtained {
            Some(t) => match add_seconds(t, lifetime) {
                Some(x) => Expiry::At(x),
                None => Expiry::OutOfRange,
            },
            None => Expiry::Unknown,
        }
    }

    /// Whether the access token is expired, or will be within the margin.
    pub fn is_expired(&self) -> (r: bool)
        requires
            expiry_of(self@) != Expiry::OutOfRange,
        ensures
            exists|now: Timestamp| r == #[trigger] due(now, expiry_of(self@)),
    {
        let e = self.expiry();
        let now = utc_now();
        is_due(now, e)
    }

    /// Whether the access token is expired, or will be within the margin; none
    /// where the calendar has no time for its expiry.
    pub fn checked_is_expired(&self) -> (r: Option<bool>)
        ensures
            match r {
                Some(b) => expiry_of(self@) != Expiry::OutOfRange && exists|now: Timestamp|
                    b == #[trigger] due(now, expiry_of(self@)),
                None => expiry_of(self@) == Expiry::OutOfRange,
            },
    {
        match self.expiry() {
            Expiry::OutOfRange => None,
            _ => Some(self.is_expired()),
        }
    }
}

/// What is done before tokens are used.
#[derive(Debug)]
pub enum TokenPlan {
    /// The tokens are used as they are.
    Keep,
    /// They are refreshed with this refresh token first.
    Refresh(String),
    /// They cannot be used.
    LogIn,
}

/// What is done before tokens are used, given whether they are expired.
pub fn plan_token(tokens: &AuthTokens, expired: bool) -> (r: TokenPlan)
    ensures
        match r {
            TokenPlan::Keep => !expired,
            TokenPlan::Refresh(rt) => expired && tokens@.refresh_token == Some(rt@),
            TokenPlan::LogIn => expired && tokens@.refresh_token is None,
        },
{
    if !expired {
        return TokenPlan::Keep;
    }
    match &tokens.refresh_token {
        Some(rt) => TokenPlan::Refresh(rt.clone()),
        None => TokenPlan::LogIn,
    }
}

// ---- laws of expiry ---------------------------------------------------

/// Tokens that count as expired count as expired at every later time.
pub proof fn law_expiry_is_final(now: Timestamp, later: Timestamp, e: Expiry)
    requires
        not_before(later.secs as int, later.nanos, now),
        due(now, e),
    ensures
        due(later, e),
{
}

/// Tokens count as expired exactly from five minutes before their expiry on.
pub proof fn law_refresh_margin(now: Timestamp, t: Timestamp)
    ensures
        due(now, Expiry::At(t)) <==> (now.secs + 300 > t.secs || (now.secs + 300 == t.secs
            && now.nanos >= t.nanos)),
        due(now, Expiry::Unknown),
{
}

// ---- reading the auth file --------------------------------------------

/// Why an auth file could not be read.
#[derive(Debug, Clone, Copy, PartialEq, Eq, Structural)]
pub enum AuthFileError {
    /// It is not JSON.
    NotJson,
    /// It has no `tokens`.
    MissingTokens,
    /// Its `tokens` have no access token.
    MissingAccessToken,
}

impl AuthFileError {
    /// The error in words.
    pub fn message(self) -> (r: &'static str)
        ensures
            r@ == match self {
                AuthFileError::NotJson => "Auth file is not valid JSON"@,
                AuthFileError::MissingTokens => "Missing tokens in auth file"@,
                AuthFileError::MissingAccessToken => "Missing access_token in auth file"@,
            },
    {
        match self {
            AuthFileError::NotJson => "Auth file is not valid JSON",
            AuthFileError::MissingTokens => "Missing tokens in auth file",
            AuthFileError::MissingAccessToken => "Missing access_token in auth file",
        }
    }
}

/// The ID token among `tokens`: a text, or the `raw_jwt` of an object.
pub open spec fn id_token_in(tokens: JsonSpec) -> Option<Seq<char>> {
    match tokens.get("id_token"@) {
        Some(v) => match v.as_str() {
            Some(s) => Some(s),
            None => v.get_str("raw_jwt"@),
        },
        None => None,
    }
}

/// The account, as far as the claims of the ID token and of the access token
/// tell it.
pub open spec fn claimed_account(id: Option<JsonSpec>, access: Option<JsonSpec>) -> Option<
    Seq<char>,
> {
    let from_id = match id {
        Some(c) => chatgpt_account_in(c),
        None => None,
    };
    match from_id {
        Some(a) => Some(a),
        None => match access {
            Some(c) => account_in(c),
            None => None,
        },
    }
}

/// Whether the claims of the ID token say that the account is a FedRAMP one.
pub open spec fn claimed_fedramp(id: Option<JsonSpec>) -> bool {
    match id {
        Some(c) => fedramp_in(c),
        None => false,
    }
}

/// The tokens of an auth file with `tokens` and access token `access_token`,
/// whose ID token and access token have these claims.
pub open spec fn file_tokens(
    value: JsonSpec,
    tokens: JsonSpec,
    access_token: Seq<char>,
    id: Option<JsonSpec>,
    access: Option<JsonSpec>,
) -> TokensSpec {
    TokensSpec {
        access_token,
        refresh_token: tokens.get_str("refresh_token"@),
        id_token: id_token_in(tokens),
        token_type: Some("Bearer"@),
        expires_in: None,
        obtained_at: value.get_str("last_refresh"@),
        account_id: match tokens.get_str("account_id"@) {
            Some(a) => Some(a),
            None => claimed_account(id, access),
        },
        is_fedramp: match tokens.get_bool("chatgpt_account_is_fedramp"@) {
            Some(b) => b,
            None => claimed_fedramp(id),
        },
    }
}

/// The claims of a token, where there is one.
pub open spec fn opt_claims(token: Option<Seq<char>>) -> Option<JsonSpec> {
    match token {
        Some(t) => claims_of(t),
        None => None,
    }
}

/// The tokens of an auth file.
pub open spec fn tokens_in_file(value: JsonSpec) -> Result<TokensSpec, AuthFileError> {
    match value.get("tokens"@) {
        Some(tokens) => match tokens.get_str("access_token"@) {
            Some(at) => Ok(
                file_tokens(value, tokens, at, opt_claims(id_token_in(tokens)), claims_of(at)),
            ),
            None => Err(AuthFileError::MissingAccessToken),
        },
        None => Err(AuthFileError::MissingTokens),
    }
}

/// The ID token among `tokens`.
fn read_id_token(tokens: &Json) -> (r: Option<String>)
    ensures
        opt_view(r) == id_token_in(tokens@),
{
    match tokens.get("id_token") {
        Some(v) => match v.as_str() {
            Some(s) => Some(s.to_owned()),
            None => own(v.get_str("raw_jwt")),
        },
        None => None,
    }
}

/// The account, as far as the claims tell it.
fn read_claimed_account(id: &Option<Json>, access: &Option<Json>) -> (r: Option<String>)
    ensures
        opt_view(r) == claimed_account(opt_owned(*id), opt_owned(*access)),
{
    let from_id = match id {
        Some(c) => chatgpt_account_id_from(c),
        None => None,
    };
    match from_id {
        Some(a) => Some(a),
        None => match access {
            Some(c) => account_id_from(c),
            None => None,
        },
    }
}

/// Whether the claims of the ID token say that the account is a FedRAMP one.
fn read_claimed_fedramp(id: &Option<Json>) -> (r: bool)
    ensures
        r == claimed_fedramp(opt_owned(*id)),
{
    match id {
        Some(c) => chatgpt_account_is_fedramp_from(c),
        None => false,
    }
}

/// The claims of a token, where there is one.
fn read_opt_claims(token: &Option<String>) -> (r: Option<Json>)
    ensures
        opt_owned(r) == opt_claims(opt_view(*token)),
{
    match token {
        Some(t) => decode_jwt_payload(t.as_str()),
        None => None,
    }
}

/// The tokens of an auth file, given the claims of its ID token and of its
/// access token.
pub fn assemble_file_tokens(
    value: &Json,
    tokens: &Json,
    access_token: &str,
    id: &Option<Json>,
    access: &Option<Json>,
) -> (r: AuthTokens)
    ensures
        r@ == file_tokens(
            value@,
            tokens@,
            access_token@,
            opt_owned(*id),
            opt_owned(*access),
        ),
{
    let account_id = match tokens.get_str("account_id") {
        Some(a) => Some(a.to_owned()),
        None => read_claimed_account(id, access),
    };
    let chatgpt_account_is_fedramp = match tokens.get_bool("chatgpt_account_is_fedramp") {
        Some(b) => b,
        None => read_claimed_fedramp(id),
    };
    AuthTokens {
        access_token: access_token.to_owned(),
        refresh_token: own(tokens.get_str("refresh_token")),
        id_token: read_id_token(tokens),
        token_type: Some("Bearer".to_owned()),
        expires_in: None,
        obtained_at: own(value.get_str("last_refresh")),
        account_id,
        chatgpt_account_is_fedramp,
    }
}

/// The tokens of an auth file that was read as JSON.
pub fn read_file_tokens(value: &Json) -> (r: Result<AuthTokens, AuthFileError>)
    ensures
        match r {
            Ok(t) => tokens_in_file(value@) == Ok::<TokensSpec, AuthFileError>(t@),
            Err(e) => tokens_in_file(value@) == Err::<TokensSpec, AuthFileError>(e),
        },
{
    match value.get("tokens") {
        Some(tokens) => match tokens.get_str("access_token") {
            Some(at) => {
                let id_token = read_id_token(tokens);
                let id = read_opt_claims(&id_token);
                let access = decode_jwt_payload(at);
                Ok(assemble_file_tokens(value, tokens, at, &id, &access))
            },
            None => Err(AuthFileError::MissingAccessToken),
        },
        None => Err(AuthFileError::MissingTokens),
    }
}

// ---- tokens that are written down as they are -------------------------

/// A field of tokens: in an object by its name, in an array by its place.
pub open spec fn token_field(value: JsonSpec, key: Seq<char>, place: int) -> Option<JsonSpec> {
    match value {
        JsonSpec::Array(items) => if 0 <= place < items.len() {
            Some(items[place])
        } else {
            None
        },
        _ => value.get(key),
    }
}

/// The text of a field that may be absent or `null`; none where the field is of
/// another kind.
pub open spec fn text_field(v: Option<JsonSpec>) -> Option<Option<Seq<char>>> {
    match v {
        None => Some(None),
        Some(JsonSpec::Null) => Some(None),
        Some(JsonSpec::Str(s)) => Some(Some(s)),
        _ => None,
    }
}

/// The number of a field that may be absent or `null`; none where the field is of
/// another kind or the number does not fit.
pub open spec fn number_field(v: Option<JsonSpec>) -> Option<Option<i64>> {
    match v {
        None => Some(None),
        Some(JsonSpec::Null) => Some(None),
        Some(j) => match j.as_i64() {
            Some(n) => Some(Some(n)),
            None => None,
        },
    }
}

/// The flag of a field that may be absent; none where the field is of another
/// kind.
pub open spec fn flag_field(v: Option<JsonSpec>) -> Option<bool> {
    match v {
        None => Some(false),
        Some(j) => j.as_bool(),
    }
}

/// Whether a value can be tokens: it is an object, or an array that has every
/// field but perhaps the flag at its end.
pub open spec fn can_be_tokens(value: JsonSpec) -> bool {
    match value {
        JsonSpec::Object(_) => true,
        JsonSpec::Array(items) => 7 <= items.len() <= 8,
        _ => false,
    }
}

/// The tokens that a value writes down, field by field: none where it has no
/// access token or a field is of another kind.
pub open spec fn direct_tokens(value: JsonSpec) -> Option<TokensSpec> {
    if !can_be_tokens(value) {
        None
    } else {
        match (
            token_field(value, "access_token"@, 0),
            text_field(token_field(value, "refresh_token"@, 1)),
            text_field(token_field(value, "id_token"@, 2)),
            text_field(token_field(value, "token_type"@, 3)),
            number_field(token_field(value, "expires_in"@, 4)),
            text_field(token_field(value, "obtained_at"@, 5)),
            text_field(token_field(value, "account_id"@, 6)),
            flag_field(token_field(value, "chatgpt_account_is_fedramp"@, 7)),
        ) {
            (
                Some(JsonSpec::Str(access_token)),
                Some(refresh_token),
                Some(id_token),
                Some(token_type),
                Some(expires_in),
                Some(obtained_at),
                Some(account_id),
                Some(is_fedramp),
            ) => Some(
                TokensSpec {
                    access_token,
                    refresh_token,
                    id_token,
                    token_type,
                    expires_in,
                    obtained_at,
                    account_id,
                    is_fedramp,
                },
            ),
            _ => None,
        }
    }
}

/// The tokens of an auth file: those that it writes down as they are, else those
/// under its `tokens`.
pub open spec fn tokens_in(value: JsonSpec) -> Result<TokensSpec, AuthFileError> {
    match direct_tokens(value) {
        Some(t) => Ok(t),
        None => tokens_in_file(value),
    }
}

/// The tokens of an auth file with this text.
pub open spec fn tokens_in_text(text: Seq<char>) -> Result<TokensSpec, AuthFileError> {
    match json_parse(text) {
        Some(value) => tokens_in(value),
        None => Err(AuthFileError::NotJson),
    }
}

/// A field of tokens.
fn find_token_field<'a>(value: &'a Json, key: &str, place: usize) -> (r: Option<&'a Json>)
    ensures
        opt_json(r) == token_field(value@, key@, place as int),
{
    match value {
        Json::Array(items) => if place < items.len() {
            Some(&items[place])
        } else {
            None
        },
        _ => value.get(key),
    }
}

/// The text of a field.
fn read_text_field(v: Option<&Json>) -> (r: Option<Option<String>>)
    ensures
        match r {
            Some(o) => text_field(opt_json(v)) == Some(opt_view(o)),
            None => text_field(opt_json(v)) is None,
        },
{
    match v {
        None => Some(None),
        Some(Json::Null) => Some(None),
        Some(Json::Str(s)) => Some(Some(s.clone())),
        _ => None,
    }
}

/// The number of a field.
fn read_number_field(v: Option<&Json>) -> (r: Option<Option<i64>>)
    ensures
        r == number_field(opt_json(v)),
{
    match v {
        None => Some(None),
        Some(Json::Null) => Some(None),
        Some(j) => match j.as_i64() {
            Some(n) => Some(Some(n)),
            None => None,
        },
    }
}

/// The flag of a field.
fn read_flag_field(v: Option<&Json>) -> (r: Option<bool>)
    ensures
        r == flag_field(opt_json(v)),
{
    match v {
        None => Some(false),
        Some(j) => j.as_bool(),
    }
}

/// The tokens that a value writes down.
pub fn read_direct_tokens(value: &Json) -> (r: Option<AuthTokens>)
    ensures
        match r {
            Some(t) => direct_tokens(value@) == Some(t@),
            None => direct_tokens(value@) is None,
        },
{
    let fits = match value {
        Json::Object(_) => true,
        Json::Array(items) => 7 <= items.len() && items.len() <= 8,
        _ => false,
    };
    if !fits {
        return None;
    }
    match (
        read_text_field(find_token_field(value, "access_token", 0)),
        read_text_field(find_token_field(value, "refresh_token", 1)),
        read_text_field(find_token_field(value, "id_token", 2)),
        read_text_field(find_token_field(value, "token_type", 3)),
        read_number_field(find_token_field(value, "expires_in", 4)),
        read_text_field(find_token_field(value, "obtained_at", 5)),
        read_text_field(find_token_field(value, "account_id", 6)),
        read_flag_field(find_token_field(value, "chatgpt_account_is_fedramp", 7)),
    ) {
        (
            Some(Some(access_token)),
            Some(refresh_token),
            Some(id_token),
            Some(token_type),
            Some(expires_in),
            Some(obtained_at),
            Some(account_id),
            Some(chatgpt_account_is_fedramp),
        ) => Some(
            AuthTokens {
                access_token,
                refresh_token,
                id_token,
                token_type,
                expires_in,
                obtained_at,
                account_id,
                chatgpt_account_is_fedramp,
            },
        ),
        _ => None,
    }
}

/// The tokens of an auth file with this text. Where an object in it holds a key
/// twice, the later entry counts.
pub fn parse_auth_tokens(data: &str) -> (r: Result<AuthTokens, AuthFileError>)
    ensures
        match r {
            Ok(t) => tokens_in_text(data@) == Ok::<TokensSpec, AuthFileError>(t@),
            Err(e) => tokens_in_text(data@) == Err::<TokensSpec, AuthFileError>(e),
        },
{
    match read_json(data) {
        Some(value) => match read_direct_tokens(&value) {
            Some(t) => Ok(t),
            None => read_file_tokens(&value),
        },
        None => Err(AuthFileError::NotJson),
    }
}

// ---- answers of the token endpoint ------------------------------------

/// The tokens that an answer of the token endpoint gives, obtained at
/// `obtained_at`, whose ID token and access token have these claims.
pub open spec fn response_tokens(
    raw: JsonSpec,
    access_token: Seq<char>,
    id: Option<JsonSpec>,
    access: Option<JsonSpec>,
    obtained_at: Seq<char>,
) -> TokensSpec {
    TokensSpec {
        access_token,
        refresh_token: raw.get_str("refresh_token"@),
        id_token: raw.get_str("id_token"@),
        token_type: raw.get_str("token_type"@),
        expires_in: raw.get_i64("expires_in"@),
        obtained_at: Some(obtained_at),
        account_id: claimed_account(id, access),
        is_fedramp: claimed_fedramp(id),
    }
}

/// The tokens that an answer of the token endpoint gives, given the claims of
/// its tokens and when it came.
pub fn assemble_response_tokens(
    raw: &Json,
    access_token: &str,
    id: &Option<Json>,
    access: &Option<Json>,
    obtained_at: String,
) -> (r: AuthTokens)
    ensures
        r@ == response_tokens(
            raw@,
            access_token@,
            opt_owned(*id),
            opt_owned(*access),
            obtained_at@,
        ),
{
    AuthTokens {
        access_token: access_token.to_owned(),
        refresh_token: own(raw.get_str("refresh_token")),
        id_token: own(raw.get_str("id_token")),
        token_type: own(raw.get_str("token_type")),
        expires_in: raw.get_i64("expires_in"),
        obtained_at: Some(obtained_at),
        account_id: read_claimed_account(id, access),
        chatgpt_account_is_fedramp: read_claimed_fedramp(id),
    }
}

/// The tokens that an answer of the token endpoint gives, which came now; an
/// error where it has no access token.
pub fn parse_token_response(raw: &Json) -> (r: Result<AuthTokens, String>)
    ensures
        match raw@.get_str("access_token"@) {
            Some(at) => r matches Ok(t) && exists|obtained_at: Seq<char>|
                t@ == #[trigger] response_tokens(
                    raw@,
                    at,
                    opt_claims(raw@.get_str("id_token"@)),
                    claims_of(at),
                    obtained_at,
                ),
            None => r matches Err(e) && e@ == "Missing access_token in token response"@,
        },
{
    match raw.get_str("access_token") {
        Some(at) => {
            let id_token = own(raw.get_str("id_token"));
            let id = read_opt_claims(&id_token);
            let access = decode_jwt_payload(at);
            Ok(assemble_response_tokens(raw, at, &id, &access, now_rfc3339()))
        },
        None => Err("Missing access_token in token response".to_owned()),
    }
}

/// The tokens that the body of an answer of the token endpoint gives, which came
/// now; an error where it is not JSON or has no access token.
pub fn parse_token_body(body: &[u8]) -> (r: Result<AuthTokens, String>)
    ensures
        match json_parse_bytes(body@) {
            Some(raw) => match raw.get_str("access_token"@) {
                Some(at) => r matches Ok(t) && exists|obtained_at: Seq<char>|
                    t@ == #[trigger] response_tokens(
                        raw,
                        at,
                        opt_claims(raw.get_str("id_token"@)),
                        claims_of(at),
                        obtained_at,
                    ),
                None => r matches Err(e) && e@ == "Missing access_token in token response"@,
            },
            None => r matches Err(e) && e@ == "Token response is not valid JSON"@,
        },
{
    match read_json_bytes(body) {
        Some(raw) => parse_token_response(&raw),
        None => Err("Token response is not valid JSON".to_owned()),
    }
}

// ---- writing the auth file --------------------------------------------

/// The fields of an object, where `null` has none.
pub open spec fn fields_or_none(v: JsonSpec) -> Map<Seq<char>, JsonSpec> {
    match v {
        JsonSpec::Object(m) => m,
        _ => Map::empty(),
    }
}

/// Whether tokens can be put into a value: it is an object, or `null`.
pub open spec fn takes_fields(v: JsonSpec) -> bool {
    v is Object || v is Null
}

/// The `tokens` of an auth file with these tokens put in.
pub open spec fn merged_tokens(m: Map<Seq<char>, JsonSpec>, t: TokensSpec) -> Map<
    Seq<char>,
    JsonSpec,
> {
    let m = m.insert("access_token"@, JsonSpec::Str(t.access_token));
    let m = m.insert(
        "refresh_token"@,
        JsonSpec::Str(
            match t.refresh_token {
                Some(r) => r,
                None => seq![],
            },
        ),
    );
    let m = match t.id_token {
        Some(id) => m.insert(
            "id_token"@,
            JsonSpec::Object(map!["raw_jwt"@ => JsonSpec::Str(id)]),
        ),
        None => m,
    };
    let m = match t.account_id {
        Some(a) => m.insert("account_id"@, JsonSpec::Str(a)),
        None => m,
    };
    if t.is_fedramp {
        m.insert("chatgpt_account_is_fedramp"@, JsonSpec::Bool(true))
    } else {
        m
    }
}

/// An auth file with these tokens put in, refreshed at `now`; all else stays.
pub open spec fn merged_file(
    file: Map<Seq<char>, JsonSpec>,
    t: TokensSpec,
    now: Seq<char>,
) -> JsonSpec {
    JsonSpec::Object(
        file.insert(
            "tokens"@,
            JsonSpec::Object(merged_tokens(fields_or_none(file["tokens"@]), t)),
        ).insert("last_refresh"@, JsonSpec::Str(now)),
    )
}

/// The tokens put into the fields of `tokens`.
fn put_tokens(fields: &mut Vec<(String, Json)>, t: &AuthTokens)
    ensures
        entries_view(final(fields)@) == merged_tokens(entries_view(old(fields)@), t@),
{
    let refresh = match &t.refresh_token {
        Some(r) => r.clone(),
        None => String::new(),
    };
    put(fields, "access_token", Json::text(t.access_token.as_str()));
    put(fields, "refresh_token", Json::Str(refresh));
    match &t.id_token {
        Some(id) => {
            let mut raw: Vec<(String, Json)> = Vec::new();
            put(&mut raw, "raw_jwt", Json::text(id.as_str()));
            put(fields, "id_token", Json::Object(raw));
        },
        None => {},
    }
    match &t.account_id {
        Some(a) => put(fields, "account_id", Json::text(a.as_str())),
        None => {},
    }
    if t.chatgpt_account_is_fedramp {
        put(fields, "chatgpt_account_is_fedramp", Json::Bool(true));
    }
}

/// A text, or `null` where there is none.
pub open spec fn text_or_null(s: Option<Seq<char>>) -> JsonSpec {
    match s {
        Some(t) => JsonSpec::Str(t),
        None => JsonSpec::Null,
    }
}

/// The auth file that holds these tokens alone.
pub open spec fn fresh_file(t: TokensSpec) -> JsonSpec {
    JsonSpec::Object(
        Map::empty().insert("access_token"@, JsonSpec::Str(t.access_token)).insert(
            "refresh_token"@,
            text_or_null(t.refresh_token),
        ).insert("id_token"@, text_or_null(t.id_token)).insert(
            "token_type"@,
            text_or_null(t.token_type),
        ).insert(
            "expires_in"@,
            match t.expires_in {
                Some(n) => JsonSpec::Number(NumberSpec::Int(n as int)),
                None => JsonSpec::Null,
            },
        ).insert("obtained_at"@, text_or_null(t.obtained_at)).insert(
            "account_id"@,
            text_or_null(t.account_id),
        ).insert("chatgpt_account_is_fedramp"@, JsonSpec::Bool(t.is_fedramp)),
    )
}

/// The text is the auth file that holds these tokens alone, and they are read from
/// it again.
pub open spec fn tells_all(text: Seq<char>, t: TokensSpec) -> bool {
    &&& text == json_pretty(fresh_file(t))
    &&& json_parse(text) == Some(fresh_file(t))
    &&& tokens_in_text(text) == Ok::<TokensSpec, AuthFileError>(t)
}

/// A text, or `null` where there is none.
fn make_text_or_null(s: &Option<String>) -> (r: Json)
    ensures
        r@ == text_or_null(opt_view(*s)),
{
    match s {
        Some(t) => Json::Str(t.clone()),
        None => Json::Null,
    }
}

/// The auth file that holds these tokens alone.
pub fn make_fresh_file(t: &AuthTokens) -> (r: Json)
    ensures
        r@ == fresh_file(t@),
{
    let expires_in = match t.expires_in {
        Some(n) => Json::Number(JsonNumber::Signed(n)),
        None => Json::Null,
    };
    let mut fields: Vec<(String, Json)> = Vec::new();
    put(&mut fields, "access_token", Json::text(t.access_token.as_str()));
    put(&mut fields, "refresh_token", make_text_or_null(&t.refresh_token));
    put(&mut fields, "id_token", make_text_or_null(&t.id_token));
    put(&mut fields, "token_type", make_text_or_null(&t.token_type));
    put(&mut fields, "expires_in", expires_in);
    put(&mut fields, "obtained_at", make_text_or_null(&t.obtained_at));
    put(&mut fields, "account_id", make_text_or_null(&t.account_id));
    put(&mut fields, "chatgpt_account_is_fedramp", Json::Bool(t.chatgpt_account_is_fedramp));
    Json::Object(fields)
}

/// What is written to the auth file.
#[derive(Debug)]
pub enum SavePlan {
    /// This text: the file as it was, with the tokens put in.
    Merged(String),
    /// This text: the tokens alone.
    Fresh(String),
    /// Nothing: the file's `tokens` are no object to put tokens into.
    Malformed,
}

/// The value of an auth file, where its text is there and is JSON.
pub open spec fn file_value(text: Option<Seq<char>>) -> Option<JsonSpec> {
    match text {
        Some(t) => json_parse(t),
        None => None,
    }
}

/// The fields of an auth file.
pub open spec fn file_fields(text: Option<Seq<char>>) -> Map<Seq<char>, JsonSpec> {
    match file_value(text) {
        Some(v) => fields_or_none(v),
        None => Map::empty(),
    }
}

/// The `tokens` of an auth file that is there and has some.
pub open spec fn stored_tokens(existing: Option<JsonSpec>) -> Option<JsonSpec> {
    match existing {
        Some(v) => v.get("tokens"@),
        None => None,
    }
}

impl AuthTokens {
    /// The auth file with the tokens put in.
    pub fn merge_into(&self, file: Json, now: &str) -> (r: Json)
        requires
            file@.get("tokens"@) matches Some(v) && takes_fields(v),
        ensures
            r@ == merged_file(file@->Object_0, self@, now@),
    {
        let mut fields: Vec<(String, Json)> = match file.get("tokens") {
            Some(v) => match v.clone() {
                Json::Object(m) => m,
                _ => Vec::new(),
            },
            None => Vec::new(),
        };
        proof {
            assert(entries_view(fields@) =~= fields_or_none(file@->Object_0["tokens"@]));
        }
        put_tokens(&mut fields, self);
        match file {
            Json::Object(entries) => {
                let mut entries = entries;
                put(&mut entries, "tokens", Json::Object(fields));
                put(&mut entries, "last_refresh", Json::text(now));
                Json::Object(entries)
            },
            other => other,
        }
    }

    /// The tokens of the auth file with this text; none where there is no file, or
    /// where it holds no tokens.
    pub fn load(data: Option<&str>) -> (r: Option<AuthTokens>)
        ensures
            match opt_str_view(data) {
                Some(text) => match tokens_in_text(text) {
                    Ok(t) => r matches Some(x) && x@ == t,
                    Err(_) => r is None,
                },
                None => r is None,
            },
    {
        match data {
            Some(text) => match parse_auth_tokens(text) {
                Ok(t) => Some(t),
                Err(_) => None,
            },
            None => None,
        }
    }

    /// The tokens alone are written.
    fn save_fresh(&self) -> (r: SavePlan)
        ensures
            r matches SavePlan::Fresh(text) && tells_all(text@, self@),
    {
        proof {
            lemma_fresh_rereads(self@);
            law_saved_tokens_load_back(self@);
        }
        SavePlan::Fresh(write_json_pretty(&make_fresh_file(self)))
    }

    /// What is written to the auth file whose text is `existing`, at `now`.
    pub fn save_plan(&self, existing: Option<&str>, now: &str) -> (r: SavePlan)
        ensures
            match stored_tokens(file_value(opt_str_view(existing))) {
                Some(v) => if takes_fields(v) {
                    let merged = merged_file(
                        file_fields(opt_str_view(existing)),
                        self@,
                        now@,
                    );
                    r matches SavePlan::Merged(text) && text@ == json_pretty(merged) && (rereadable(
                        merged,
                        READ_DEPTH as nat,
                    ) ==> json_parse(text@) == Some(merged))
                } else {
                    r is Malformed
                },
                None => r matches SavePlan::Fresh(text) && tells_all(text@, self@),
            },
    {
        let file = match existing {
            Some(text) => read_json(text),
            None => None,
        };
        match file {
            Some(value) => {
                let fits = match value.get("tokens") {
                    Some(v) => match v {
                        Json::Object(_) => true,
                        Json::Null => true,
                        _ => false,
                    },
                    None => {
                        return self.save_fresh();
                    },
                };
                if !fits {
                    return SavePlan::Malformed;
                }
                let merged = self.merge_into(value, now);
                SavePlan::Merged(write_json_pretty(&merged))
            },
            None => self.save_fresh(),
        }
    }

    /// What is written to the auth file whose text is `existing`, now.
    pub fn save(&self, existing: Option<&str>) -> (r: SavePlan)
        ensures
            match stored_tokens(file_value(opt_str_view(existing))) {
                Some(v) => if takes_fields(v) {
                    r matches SavePlan::Merged(text) && exists|now: Seq<char>|
                        ({
                            let merged = #[trigger] merged_file(
                                file_fields(opt_str_view(existing)),
                                self@,
                                now,
                            );
                            text@ == json_pretty(merged) && (rereadable(merged, READ_DEPTH as nat)
                                ==> json_parse(text@) == Some(merged))
                        })
                } else {
                    r is Malformed
                },
                None => r matches SavePlan::Fresh(text) && tells_all(text@, self@),
            },
    {
        let now = now_rfc3339();
        self.save_plan(existing, now.as_str())
    }
}

// ---- laws of the auth file --------------------------------------------

/// The keys of an auth file differ from one another.
proof fn lemma_token_keys()
    ensures
        seq![
            "access_token"@,
            "refresh_token"@,
            "id_token"@,
            "token_type"@,
            "expires_in"@,
            "obtained_at"@,
            "account_id"@,
            "chatgpt_account_is_fedramp"@,
            "tokens"@,
            "last_refresh"@,
            RAW_TEXT_KEY@,
        ].no_duplicates(),
{
    reveal_strlit("access_token");
    reveal_strlit("refresh_token");
    reveal_strlit("id_token");
    reveal_strlit("token_type");
    reveal_strlit("expires_in");
    reveal_strlit("obtained_at");
    reveal_strlit("account_id");
    reveal_strlit("chatgpt_account_is_fedramp");
    reveal_strlit("tokens");
    reveal_strlit("last_refresh");
    reveal_strlit("$serde_json::private::RawValue");
    assert("access_token"@.len() == 12 && "access_token"@[0] == 'a');
    assert("refresh_token"@.len() == 13);
    assert("id_token"@.len() == 8);
    assert("token_type"@.len() == 10 && "token_type"@[0] == 't');
    assert("expires_in"@.len() == 10 && "expires_in"@[0] == 'e');
    assert("obtained_at"@.len() == 11);
    assert("account_id"@.len() == 10 && "account_id"@[0] == 'a');
    assert("chatgpt_account_is_fedramp"@.len() == 26);
    assert("tokens"@.len() == 6);
    assert("last_refresh"@.len() == 12 && "last_refresh"@[0] == 'l');
    assert(RAW_TEXT_KEY@.len() == 30);
}

/// The auth file that holds tokens alone can be read back from its text.
proof fn lemma_fresh_rereads(t: TokensSpec)
    ensures
        rereadable(fresh_file(t), READ_DEPTH as nat),
{
    lemma_token_keys();
    let m = fresh_file(t)->Object_0;
    assert forall|k: Seq<char>| m.contains_key(k) implies rereadable(
        #[trigger] m[k],
        (READ_DEPTH - 1) as nat,
    ) by {
    }
}

/// Tokens that were saved where there was no auth file to keep load back as they
/// were, in every field.
pub proof fn law_saved_tokens_load_back(t: TokensSpec)
    ensures
        tokens_in(fresh_file(t)) == Ok::<TokensSpec, AuthFileError>(t),
{
    lemma_token_keys();
}

/// What is read from an auth file that tokens were put into are those tokens:
/// the access token, the refresh token, and the ID token, account and FedRAMP
/// mark where the tokens have them. A refresh token that is absent reads as the
/// empty text. A file that also writes down tokens as they are is left out: those
/// go before the ones that were put in.
pub proof fn law_read_gives_back_what_was_saved(
    file: Map<Seq<char>, JsonSpec>,
    t: TokensSpec,
    now: Seq<char>,
)
    requires
        file.contains_key("tokens"@),
        takes_fields(file["tokens"@]),
        direct_tokens(JsonSpec::Object(file)) is None,
    ensures
        tokens_in(merged_file(file, t, now)) matches Ok(read) && {
            &&& read.access_token == t.access_token
            &&& read.refresh_token == Some(
                match t.refresh_token {
                    Some(r) => r,
                    None => seq![],
                },
            )
            &&& t.id_token is Some ==> read.id_token == t.id_token
            &&& t.account_id is Some ==> read.account_id == t.account_id
            &&& t.is_fedramp ==> read.is_fedramp
            &&& read.obtained_at == Some(now)
        },
{
    lemma_token_keys();
    lemma_merge_is_beside(file, t, now);
    assert(tokens_in(merged_file(file, t, now)) == tokens_in_file(merged_file(file, t, now)));
}

/// Saving into the `tokens` of an auth file does not touch what it writes down
/// beside them.
proof fn lemma_merge_is_beside(file: Map<Seq<char>, JsonSpec>, t: TokensSpec, now: Seq<char>)
    ensures
        direct_tokens(merged_file(file, t, now)) == direct_tokens(JsonSpec::Object(file)),
{
    lemma_token_keys();
    let old_file = JsonSpec::Object(file);
    let new_file = merged_file(file, t, now);
    assert(new_file.get("access_token"@) == old_file.get("access_token"@));
    assert(new_file.get("refresh_token"@) == old_file.get("refresh_token"@));
    assert(new_file.get("id_token"@) == old_file.get("id_token"@));
    assert(new_file.get("token_type"@) == old_file.get("token_type"@));
    assert(new_file.get("expires_in"@) == old_file.get("expires_in"@));
    assert(new_file.get("obtained_at"@) == old_file.get("obtained_at"@));
    assert(new_file.get("account_id"@) == old_file.get("account_id"@));
    assert(new_file.get("chatgpt_account_is_fedramp"@) == old_file.get(
        "chatgpt_account_is_fedramp"@,
    ));
}

/// Saving leaves every other field of the auth file, and of its `tokens`, as it
/// was.
pub proof fn law_save_keeps_the_rest(
    file: Map<Seq<char>, JsonSpec>,
    t: TokensSpec,
    now: Seq<char>,
    k: Seq<char>,
)
    requires
        file.contains_key("tokens"@),
        takes_fields(file["tokens"@]),
    ensures
        k != "tokens"@ && k != "last_refresh"@ ==> merged_file(file, t, now).get(k)
            == JsonSpec::Object(file).get(k),
        k != "access_token"@ && k != "refresh_token"@ && k != "id_token"@ && k != "account_id"@ && k
            != "chatgpt_account_is_fedramp"@ ==> merged_file(file, t, now).get2("tokens"@, k)
            == file["tokens"@].get(k),
{
    lemma_token_keys();
}

// ---- telling the user -------------------------------------------------

/// The line that names the account.
pub open spec fn account_line_of(t: TokensSpec) -> Seq<Seq<char>> {
    match t.account_id {
        Some(a) => seq!["Account ID: "@ + a],
        None => seq![],
    }
}

/// The lines that tell the user about their stored tokens, given whether those
/// are expired.
pub open spec fn status_lines_of(t: TokensSpec, expired: bool) -> Seq<Seq<char>> {
    let head = seq!["Authenticated: yes"@] + account_line_of(t);
    let head = head.push(
        if expired {
            "Token expired: true"@
        } else {
            "Token expired: false"@
        },
    );
    let head = match t.obtained_at {
        Some(o) => head.push("Obtained at: "@ + o),
        None => head,
    };
    if expired {
        head.push(
            if t.refresh_token is Some {
                "Refresh token: present (will auto-refresh)"@
            } else {
                "Refresh token: none (please re-login)"@
            },
        )
    } else {
        head
    }
}

/// Adds a line.
fn add_line(lines: &mut Vec<String>, line: String)
    ensures
        texts(final(lines)@) == texts(old(lines)@).push(line@),
{
    proof {
        crate::text::lemma_texts_push(lines@, line);
    }
    lines.push(line);
}

/// Adds the line that names the account, where it is known.
fn add_account_line(lines: &mut Vec<String>, tokens: &AuthTokens)
    ensures
        texts(final(lines)@) == texts(old(lines)@) + account_line_of(tokens@),
{
    match &tokens.account_id {
        Some(a) => {
            let ghost before = texts(lines@);
            add_line(lines, concat("Account ID: ", a.as_str()));
            proof {
                assert(texts(lines@) =~= before + account_line_of(tokens@));
            }
        },
        None => {
            proof {
                assert(texts(lines@) + account_line_of(tokens@) =~= texts(lines@));
            }
        },
    }
}

/// The lines that tell the user that they are signed in.
pub fn login_lines(first: &str, tokens: &AuthTokens) -> (r: Vec<String>)
    ensures
        texts(r@) == seq![first@] + account_line_of(tokens@),
{
    let mut lines: Vec<String> = Vec::new();
    add_line(&mut lines, first.to_owned());
    proof {
        assert(texts(lines@) =~= seq![first@]);
    }
    add_account_line(&mut lines, tokens);
    lines
}

/// The lines that tell the user about their stored tokens.
pub fn status_lines(tokens: Option<&AuthTokens>, expired: bool) -> (r: Vec<String>)
    ensures
        texts(r@) == match tokens {
            Some(t) => status_lines_of(t@, expired),
            None => seq![
                "Authenticated: no"@,
                "Run `codex-openai-proxy login` to authenticate."@,
            ],
        },
{
    match tokens {
        Some(t) => {
            let mut lines = login_lines("Authenticated: yes", t);
            add_line(
                &mut lines,
                if expired {
                    "Token expired: true".to_owned()
                } else {
                    "Token expired: false".to_owned()
                },
            );
            match &t.obtained_at {
                Some(o) => add_line(&mut lines, concat("Obtained at: ", o.as_str())),
                None => {},
            }
            if expired {
                let line = if t.refresh_token.is_some() {
                    "Refresh token: present (will auto-refresh)"
                } else {
                    "Refresh token: none (please re-login)"
                };
                add_line(&mut lines, line.to_owned());
            }
            lines
        },
        None => {
            let mut lines: Vec<String> = Vec::new();
            add_line(&mut lines, "Authenticated: no".to_owned());
            add_line(&mut lines, "Run `codex-openai-proxy login` to authenticate.".to_owned());
            proof {
                assert(texts(lines@) =~= seq![
                    "Authenticated: no"@,
                    "Run `codex-openai-proxy login` to authenticate."@,
                ]);
            }
            lines
        },
    }
}

} // verus!
