use codex_openai_proxy::json_codec::{read_json, to_value};
use codex_openai_proxy::login::{
    auth_url, callback_code, default_interval, device_code_body, device_poll_body, exchange_form,
    new_completion_id, poll_step, poll_timed_out, random_state, read_interval, refresh_body,
    revoke_form, uuid_short, IntervalError, PkceChallenge, PollStep, DEVICE_MAX_WAIT_NANOS,
};
use serde_json::Value;

const SECOND: u64 = 1_000_000_000;

#[test]
fn verifiers_and_challenges_belong_together() {
    let p = PkceChallenge::from_bytes(&vec![0u8; 3]);
    assert_eq!(p.verifier, "AAAA");
    assert_eq!(p.challenge, "Y8HdlR_-329_2WitTvo5uO1YTxYvRucVEU7hhPjekgE");
    let q = PkceChallenge::from_bytes(&vec![0xfb, 0xff]);
    assert_eq!(q.verifier, "-_8");
    let a = PkceChallenge::generate();
    let b = PkceChallenge::generate();
    assert_eq!(a.verifier.len(), 86);
    assert_eq!(a.challenge.len(), 43);
    assert_ne!(a.verifier, b.verifier);
}

#[test]
fn random_texts_have_their_lengths() {
    assert_eq!(random_state().len(), 43);
    assert_ne!(random_state(), random_state());
    let id = uuid_short();
    assert_eq!(id.len(), 16);
    assert!(id.chars().all(|c| c.is_ascii_digit() || ('a'..='f').contains(&c)));
    let id = new_completion_id();
    assert!(id.starts_with("chatcmpl-"));
    assert_eq!(id.len(), 25);
}

#[test]
fn the_sign_in_address_is_complete() {
    assert_eq!(
        auth_url("CH", "ST"),
        "https://auth.openai.com/oauth/authorize?response_type=code\
         &client_id=app_EMoamEEZ73f0CkXaXp7hrann\
         &redirect_uri=http%3A%2F%2Flocalhost%3A1455%2Fauth%2Fcallback\
         &scope=openid%20profile%20email%20offline_access%20api.connectors.read%20api.connectors.invoke\
         &code_challenge=CH&code_challenge_method=S256\
         &id_token_add_organizations=true&codex_cli_simplified_flow=true\
         &state=ST&originator=codex_cli_rs"
    );
}

#[test]
fn the_code_is_found_in_the_callback() {
    let code = |request: &str| callback_code(request.as_bytes());
    assert_eq!(
        code("GET /auth/callback?code=a%2Fb&state=s HTTP/1.1\r\nHost: x\r\n").as_deref(),
        Some("a/b")
    );
    assert_eq!(code("GET /cb?code=1&code=2 HTTP/1.1").as_deref(), Some("2"));
    assert_eq!(code("GET /cb?code=%ff HTTP/1.1").as_deref(), Some("%ff"));
    assert_eq!(code("GET /cb?code=%zz%4 HTTP/1.1").as_deref(), Some("%zz%4"));
    assert_eq!(code("GET /cb?state=s HTTP/1.1"), None);
    assert_eq!(code("GET /cb HTTP/1.1"), None);
    assert_eq!(code(""), None);
}

#[test]
fn forms_are_percent_encoded() {
    assert_eq!(
        exchange_form("c d", "http://h/é", "v~._-"),
        "grant_type=authorization_code&client_id=app_EMoamEEZ73f0CkXaXp7hrann\
         &code=c%20d&redirect_uri=http%3A%2F%2Fh%2F%C3%A9&code_verifier=v~._-"
    );
    assert_eq!(
        revoke_form("t+k"),
        "client_id=app_EMoamEEZ73f0CkXaXp7hrann&token=t%2Bk"
    );
}

#[test]
fn bodies_name_the_client() {
    let value = |text: &str| serde_json::from_str::<Value>(text).unwrap();
    assert_eq!(
        to_value(&refresh_body("r")),
        value(
            r#"{"grant_type":"refresh_token","client_id":"app_EMoamEEZ73f0CkXaXp7hrann","refresh_token":"r"}"#
        )
    );
    assert_eq!(
        to_value(&device_code_body()),
        value(r#"{"client_id":"app_EMoamEEZ73f0CkXaXp7hrann"}"#)
    );
    assert_eq!(
        to_value(&device_poll_body("d", "u")),
        value(r#"{"device_auth_id":"d","user_code":"u"}"#)
    );
}

#[test]
fn intervals_of_the_wrong_kind_are_refused() {
    let interval = |text: &str| read_interval(read_json(text).as_ref());
    assert_eq!(interval("-1"), Err(IntervalError::Negative));
    assert_eq!(interval(r#""soon""#), Err(IntervalError::NotANumber));
    assert_eq!(interval("2.5"), Err(IntervalError::WrongType));
    assert_eq!(interval("null"), Err(IntervalError::WrongType));
    assert_eq!(interval(r#""+9""#), Ok(9));
    assert_eq!(interval("18446744073709551615"), Ok(u64::MAX));
    assert_eq!(read_interval(None), Ok(5));
    assert_eq!(default_interval(), 5);
    assert_eq!(IntervalError::Negative.message(), "interval cannot be negative");
    assert_eq!(
        IntervalError::NotANumber.message(),
        "interval string must contain a u64"
    );
    assert_eq!(
        IntervalError::WrongType.message(),
        "expected a u64 or a string containing a u64"
    );
}

#[test]
fn polling_waits_until_the_time_is_over() {
    assert_eq!(poll_step(200, 5, 0), PollStep::Authorized);
    assert_eq!(poll_step(403, 5, 0), PollStep::WaitNanos(5 * SECOND));
    assert_eq!(poll_step(404, 0, 0), PollStep::WaitNanos(SECOND));
    assert_eq!(
        poll_step(404, 5, DEVICE_MAX_WAIT_NANOS - 7),
        PollStep::WaitNanos(7)
    );
    assert_eq!(
        poll_step(403, u64::MAX, SECOND),
        PollStep::WaitNanos(DEVICE_MAX_WAIT_NANOS - SECOND)
    );
    assert_eq!(poll_step(403, 5, DEVICE_MAX_WAIT_NANOS), PollStep::TimedOut);
    assert_eq!(poll_step(500, 5, 0), PollStep::Failed);
    assert!(!poll_timed_out(0));
    assert!(poll_timed_out(DEVICE_MAX_WAIT_NANOS));
}
