use base64::engine::general_purpose::URL_SAFE_NO_PAD;
use base64::Engine;
use codex_openai_proxy::auth::{
    assemble_response_tokens, decode_jwt_payload, extract_account_id, extract_chatgpt_account_id,
    extract_chatgpt_account_is_fedramp, is_due, login_lines, parse_auth_tokens,
    parse_token_body, parse_token_response, plan_token, status_lines, token_expiration, AuthFileError, AuthTokens,
    Expiry, SavePlan, TokenPlan,
};
use codex_openai_proxy::clock::Timestamp;
use codex_openai_proxy::config::{AuthPath, REFRESH_MARGIN_SECS};
use codex_openai_proxy::json_codec::read_json;
use codex_openai_proxy::login::read_interval;

fn jwt_with_claims(claims: &str) -> String {
    let header = r#"{"alg":"none"}"#;
    format!(
        "{}.{}.sig",
        URL_SAFE_NO_PAD.encode(header),
        URL_SAFE_NO_PAD.encode(claims)
    )
}

fn tokens(access_token: &str) -> AuthTokens {
    AuthTokens {
        access_token: access_token.to_string(),
        refresh_token: None,
        id_token: None,
        token_type: None,
        expires_in: None,
        obtained_at: None,
        account_id: None,
        chatgpt_account_is_fedramp: false,
    }
}

fn codex_file(id_claims: &str) -> String {
    let access_token = jwt_with_claims(r#"{"sub":"access-sub"}"#);
    let id_token = jwt_with_claims(id_claims);
    format!(
        r#"{{"tokens":{{"access_token":"{access_token}","refresh_token":"refresh","id_token":{{"raw_jwt":"{id_token}"}}}},"last_refresh":"2026-01-01T00:00:00Z"}}"#
    )
}

#[test]
fn parse_codex_auth_json_prefers_chatgpt_account_id_from_id_token() {
    let raw = codex_file(r#"{"https://api.openai.com/auth":{"chatgpt_account_id":"acct_123"}}"#);

    let parsed = parse_auth_tokens(&raw).unwrap();

    assert_eq!(parsed.account_id.as_deref(), Some("acct_123"));
    assert_eq!(parsed.refresh_token.as_deref(), Some("refresh"));
}

#[test]
fn parse_codex_auth_json_reads_fedramp_flag_from_id_token() {
    let raw = codex_file(
        r#"{"https://api.openai.com/auth":{"chatgpt_account_id":"acct_123","chatgpt_account_is_fedramp":true}}"#,
    );

    let parsed = parse_auth_tokens(&raw).unwrap();

    assert!(parsed.chatgpt_account_is_fedramp);
}

#[test]
fn device_interval_accepts_string_or_number() {
    let from_string =
        read_json(r#"{"device_auth_id":"dev","user_code":"CODE","interval":"7"}"#).unwrap();
    let from_number =
        read_json(r#"{"device_auth_id":"dev","user_code":"CODE","interval":3}"#).unwrap();

    assert_eq!(read_interval(from_string.get("interval")), Ok(7));
    assert_eq!(read_interval(from_number.get("interval")), Ok(3));
}

#[test]
fn the_rest_of_a_codex_file_is_read() {
    let parsed = parse_auth_tokens(&codex_file("{}")).unwrap();
    assert_eq!(parsed.token_type.as_deref(), Some("Bearer"));
    assert_eq!(parsed.expires_in, None);
    assert_eq!(parsed.obtained_at.as_deref(), Some("2026-01-01T00:00:00Z"));
    assert_eq!(parsed.account_id.as_deref(), Some("access-sub"));
    assert!(!parsed.chatgpt_account_is_fedramp);
    let text = r#"{"tokens":{"access_token":"a","id_token":"i","account_id":"acc","chatgpt_account_is_fedramp":true}}"#;
    let parsed = parse_auth_tokens(text).unwrap();
    assert_eq!(parsed.id_token.as_deref(), Some("i"));
    assert_eq!(parsed.account_id.as_deref(), Some("acc"));
    assert!(parsed.chatgpt_account_is_fedramp);
    assert_eq!(parsed.refresh_token, None);
}

#[test]
fn files_without_tokens_are_refused() {
    let error = |text: &str| parse_auth_tokens(text).unwrap_err();
    assert_eq!(error("nope"), AuthFileError::NotJson);
    assert_eq!(error("{}"), AuthFileError::MissingTokens);
    assert_eq!(error(r#"{"tokens":{}}"#), AuthFileError::MissingAccessToken);
    assert_eq!(error("{}").message(), "Missing tokens in auth file");
    assert_eq!(
        AuthFileError::MissingAccessToken.message(),
        "Missing access_token in auth file"
    );
}

#[test]
fn tokens_that_stand_alone_are_taken_as_they_are() {
    let text = r#"{"access_token":"direct","expires_in":60,"refresh_token":null,"other":[1],"tokens":{"access_token":"t"}}"#;
    let parsed = parse_auth_tokens(text).unwrap();
    assert_eq!(parsed.access_token, "direct");
    assert_eq!(parsed.refresh_token, None);
    assert_eq!(parsed.token_type, None);
    assert_eq!(parsed.expires_in, Some(60));
    assert!(!parsed.chatgpt_account_is_fedramp);
    let list = r#"["direct",null,"i","Bearer",-1,null,"acc"]"#;
    let parsed = parse_auth_tokens(list).unwrap();
    assert_eq!(parsed.access_token, "direct");
    assert_eq!(parsed.id_token.as_deref(), Some("i"));
    assert_eq!(parsed.expires_in, Some(-1));
    assert_eq!(parsed.account_id.as_deref(), Some("acc"));
    assert_eq!(
        parse_auth_tokens(r#"["direct",null,null]"#).unwrap_err(),
        AuthFileError::MissingTokens
    );
}

#[test]
fn a_field_of_another_kind_leads_to_the_nested_tokens() {
    for field in [
        r#""refresh_token":1"#,
        r#""id_token":{}"#,
        r#""expires_in":1.5"#,
        r#""expires_in":9223372036854775808"#,
        r#""chatgpt_account_is_fedramp":null"#,
        r#""access_token":null"#,
    ] {
        let text = format!(r#"{{"access_token":"direct",{field},"tokens":{{"access_token":"t"}}}}"#);
        assert_eq!(parse_auth_tokens(&text).unwrap().access_token, "t", "{field}");
        let text = format!(r#"{{"access_token":"direct",{field}}}"#);
        assert_eq!(parse_auth_tokens(&text).unwrap_err(), AuthFileError::MissingTokens);
    }
}

#[test]
fn no_file_and_no_tokens_load_as_nothing() {
    assert!(AuthTokens::load(None).is_none());
    assert!(AuthTokens::load(Some("nope")).is_none());
    assert!(AuthTokens::load(Some("{}")).is_none());
    let loaded = AuthTokens::load(Some(r#"{"access_token":"a"}"#)).unwrap();
    assert_eq!(loaded.access_token, "a");
}

#[test]
fn tokens_saved_alone_load_back_in_every_field() {
    let mut full = tokens("a \u{1f600}\"\n");
    full.refresh_token = Some("r".to_string());
    full.id_token = Some("i".to_string());
    full.token_type = Some("Bearer".to_string());
    full.expires_in = Some(i64::MIN);
    full.obtained_at = Some("2026-01-01T00:00:00Z".to_string());
    full.account_id = Some("".to_string());
    full.chatgpt_account_is_fedramp = true;
    let mut late = tokens("b");
    late.expires_in = Some(i64::MAX);
    for t in [full, late, tokens("")] {
        for existing in [None, Some("junk"), Some("{}")] {
            let text = match t.save(existing) {
                SavePlan::Fresh(text) => text,
                other => panic!("{other:?}"),
            };
            let loaded = AuthTokens::load(Some(&text)).unwrap();
            assert_eq!(format!("{loaded:?}"), format!("{t:?}"));
        }
    }
    let text = match tokens("a").save(None) {
        SavePlan::Fresh(text) => text,
        other => panic!("{other:?}"),
    };
    let v: serde_json::Value = serde_json::from_str(&text).unwrap();
    assert_eq!(v["access_token"], "a");
    assert_eq!(v["chatgpt_account_is_fedramp"], false);
    assert_eq!(v.as_object().unwrap().len(), 8);
    assert_eq!(v.as_object().unwrap().values().filter(|x| x.is_null()).count(), 6);
    assert!(text.starts_with("{\n  \""));
}

#[test]
fn claims_are_the_second_of_three_parts() {
    let claims = decode_jwt_payload(&jwt_with_claims(r#"{"a":1}"#)).unwrap();
    assert_eq!(claims.get_u64("a"), Some(1));
    assert!(decode_jwt_payload("a.b").is_none());
    assert!(decode_jwt_payload("a.%.c").is_none());
    assert!(decode_jwt_payload(&format!("a.{}.c", URL_SAFE_NO_PAD.encode("x"))).is_none());
    assert!(decode_jwt_payload("a.b.c.d").is_none());
}

#[test]
fn account_ids_are_found_in_claims() {
    let auth = "https://api.openai.com/auth";
    let token = |claims: &str| jwt_with_claims(claims);
    assert_eq!(
        extract_account_id(&token(&format!(r#"{{"{auth}":"x","sub":"s"}}"#))).as_deref(),
        Some("s")
    );
    assert_eq!(
        extract_account_id(&token(&format!(r#"{{"{auth}":"x","sub":1}}"#))).as_deref(),
        Some("x")
    );
    assert_eq!(
        extract_account_id(&token(&format!(r#"{{"{auth}":{{}},"sub":"s"}}"#))).as_deref(),
        Some("s")
    );
    assert_eq!(extract_account_id(&token("{}")), None);
    assert_eq!(
        extract_chatgpt_account_id(&token(r#"{"chatgpt_account_id":"c","sub":"s"}"#)).as_deref(),
        Some("c")
    );
    assert_eq!(
        extract_chatgpt_account_id(&token(r#"{"sub":"s"}"#)).as_deref(),
        Some("s")
    );
    assert!(extract_chatgpt_account_is_fedramp(&token(
        r#"{"chatgpt_account_is_fedramp":true}"#
    )));
    assert!(!extract_chatgpt_account_is_fedramp(&token(
        r#"{"chatgpt_account_is_fedramp":"yes"}"#
    )));
    assert!(!extract_chatgpt_account_is_fedramp("no token"));
}

#[test]
fn expiry_is_claimed_or_follows_from_the_lifetime() {
    let t = jwt_with_claims(r#"{"exp":1700000000}"#);
    assert_eq!(
        token_expiration(&t),
        Some(Timestamp {
            secs: 1700000000,
            nanos: 0
        })
    );
    assert_eq!(
        token_expiration(&jwt_with_claims(r#"{"exp":9223372036854775807}"#)),
        None
    );
    let mut tok = tokens("opaque");
    assert_eq!(tok.expiry(), Expiry::Unknown);
    tok.obtained_at = Some("2023-11-14T22:13:20Z".to_string());
    assert_eq!(
        tok.expiry(),
        Expiry::At(Timestamp {
            secs: 1700003600,
            nanos: 0
        })
    );
    tok.obtained_at = Some("2023-11-14T23:13:20.5+01:00".to_string());
    tok.expires_in = Some(60);
    assert_eq!(
        tok.expiry(),
        Expiry::At(Timestamp {
            secs: 1700000060,
            nanos: 500_000_000
        })
    );
    tok.obtained_at = Some("yesterday".to_string());
    assert_eq!(tok.expiry(), Expiry::Unknown);
    tok.access_token = t;
    assert_eq!(
        tok.expiry(),
        Expiry::At(Timestamp {
            secs: 1700000000,
            nanos: 0
        })
    );
}

#[test]
fn tokens_are_due_five_minutes_before_they_expire() {
    let at = |secs: i64, nanos: u32| Timestamp { secs, nanos };
    let e = Expiry::At(at(1_000_000, 5));
    assert_eq!(REFRESH_MARGIN_SECS, 300);
    assert!(!is_due(at(999_699, 999_999_999), e));
    assert!(!is_due(at(999_700, 4), e));
    assert!(is_due(at(999_700, 5), e));
    assert!(is_due(at(2_000_000, 0), e));
    assert!(is_due(at(0, 0), Expiry::Unknown));
}

#[test]
fn expired_tokens_are_told_from_good_ones() {
    assert!(tokens(&jwt_with_claims(r#"{"exp":1700000000}"#)).is_expired());
    assert!(!tokens(&jwt_with_claims(r#"{"exp":99999999999}"#)).is_expired());
    assert!(tokens("opaque").is_expired());
    let mut far = tokens("opaque");
    far.obtained_at = Some("2023-11-14T22:13:20Z".to_string());
    far.expires_in = Some(i64::MAX);
    assert_eq!(far.expiry(), Expiry::OutOfRange);
    assert_eq!(far.checked_is_expired(), None);
    assert_eq!(tokens("opaque").checked_is_expired(), Some(true));
}

#[test]
fn expired_tokens_are_refreshed_where_they_can_be() {
    let mut t = tokens("a");
    assert!(matches!(plan_token(&t, false), TokenPlan::Keep));
    assert!(matches!(plan_token(&t, true), TokenPlan::LogIn));
    t.refresh_token = Some("r".to_string());
    assert!(matches!(plan_token(&t, true), TokenPlan::Refresh(r) if r == "r"));
}

#[test]
fn token_responses_are_read() {
    let id = jwt_with_claims(r#"{"chatgpt_account_id":"acc","chatgpt_account_is_fedramp":true}"#);
    let raw = read_json(&format!(
        r#"{{"access_token":"a","refresh_token":"r","id_token":"{id}","token_type":"Bearer","expires_in":10}}"#
    ))
    .unwrap();
    let t = parse_token_response(&raw).unwrap();
    assert_eq!(t.access_token, "a");
    assert_eq!(t.refresh_token.as_deref(), Some("r"));
    assert_eq!(t.id_token.as_deref(), Some(id.as_str()));
    assert_eq!(t.token_type.as_deref(), Some("Bearer"));
    assert_eq!(t.expires_in, Some(10));
    assert_eq!(t.account_id.as_deref(), Some("acc"));
    assert!(t.chatgpt_account_is_fedramp);
    assert!(t.obtained_at.unwrap().starts_with("20"));
    assert_eq!(
        parse_token_response(&read_json("{}").unwrap()).unwrap_err(),
        "Missing access_token in token response"
    );
    let access = read_json(r#"{"sub":"s"}"#);
    let t = assemble_response_tokens(&raw, "a", &None, &access, "now".to_string());
    assert_eq!(t.account_id.as_deref(), Some("s"));
    assert_eq!(t.obtained_at.as_deref(), Some("now"));
}

#[test]
fn what_is_saved_is_read_back() {
    let mut t = tokens("new-access");
    t.refresh_token = Some("new-refresh".to_string());
    t.id_token = Some("new-id".to_string());
    t.account_id = Some("new-account".to_string());
    t.chatgpt_account_is_fedramp = true;
    let existing = r#"{"OPENAI_API_KEY":null,"tokens":{"access_token":"old","extra":[1]}}"#;
    let text = match t.save_plan(Some(existing), "2026-01-02T00:00:00Z") {
        SavePlan::Merged(text) => text,
        other => panic!("{other:?}"),
    };
    let read = parse_auth_tokens(&text).unwrap();
    assert_eq!(read.access_token, "new-access");
    assert_eq!(read.refresh_token, t.refresh_token);
    assert_eq!(read.id_token, t.id_token);
    assert_eq!(read.account_id, t.account_id);
    assert!(read.chatgpt_account_is_fedramp);
    assert_eq!(read.obtained_at.as_deref(), Some("2026-01-02T00:00:00Z"));
    let v: serde_json::Value = serde_json::from_str(&text).unwrap();
    assert_eq!(v["tokens"]["extra"][0], 1);
    assert!(v["OPENAI_API_KEY"].is_null());
    assert!(text.starts_with("{\n  \""));
}

#[test]
fn saving_without_a_refresh_token_empties_it() {
    let t = tokens("a");
    match t.save(Some(r#"{"tokens":null}"#)) {
        SavePlan::Merged(text) => {
            let read = parse_auth_tokens(&text).unwrap();
            assert_eq!(read.refresh_token.as_deref(), Some(""));
            assert_eq!(read.account_id, None);
        }
        other => panic!("{other:?}"),
    }
}

#[test]
fn files_of_another_shape_are_not_merged() {
    let t = tokens("a");
    assert!(matches!(t.save_plan(None, "n"), SavePlan::Fresh(_)));
    assert!(matches!(t.save_plan(Some("junk"), "n"), SavePlan::Fresh(_)));
    assert!(matches!(t.save_plan(Some("{}"), "n"), SavePlan::Fresh(_)));
    assert!(matches!(
        t.save_plan(Some(r#"{"tokens":"x"}"#), "n"),
        SavePlan::Malformed
    ));
}

#[test]
fn the_user_is_told_about_their_tokens() {
    assert_eq!(
        status_lines(None, false),
        vec![
            "Authenticated: no",
            "Run `codex-openai-proxy login` to authenticate."
        ]
    );
    let mut t = tokens("a");
    t.account_id = Some("acc".to_string());
    t.obtained_at = Some("then".to_string());
    assert_eq!(
        status_lines(Some(&t), true),
        vec![
            "Authenticated: yes",
            "Account ID: acc",
            "Token expired: true",
            "Obtained at: then",
            "Refresh token: none (please re-login)"
        ]
    );
    t.refresh_token = Some("r".to_string());
    assert_eq!(
        status_lines(Some(&t), true).last().unwrap(),
        "Refresh token: present (will auto-refresh)"
    );
    assert_eq!(
        status_lines(Some(&tokens("a")), false),
        vec!["Authenticated: yes", "Token expired: false"]
    );
    assert_eq!(
        login_lines("Logged in successfully.", &t),
        vec!["Logged in successfully.", "Account ID: acc"]
    );
}

#[test]
fn tokens_are_stored_at_the_auth_path() {
    assert!(matches!(
        AuthTokens::path(None, false, Some("/home/u")),
        AuthPath::Below { home, path } if home == "/home/u" && path == "auth.json"
    ));
    assert!(matches!(AuthTokens::path(Some("/x"), true, None), AuthPath::At(p) if p == "/x"));
    let copy = tokens("a").clone();
    assert_eq!(copy.access_token, "a");
}

#[test]
fn the_body_of_the_token_endpoint_is_read() {
    let t = parse_token_body(br#"{"access_token":"a","expires_in":5}"#).unwrap();
    assert_eq!((t.access_token.as_str(), t.expires_in), ("a", Some(5)));
    assert_eq!(
        parse_token_body(b"{}").unwrap_err(),
        "Missing access_token in token response"
    );
    assert_eq!(
        parse_token_body(b"<html>").unwrap_err(),
        "Token response is not valid JSON"
    );
}

#[test]
fn expiry_is_the_lifetime_after_the_tokens_were_obtained() {
    let expiry = |obtained: &str, seconds: i64| {
        let mut t = tokens("opaque");
        t.obtained_at = Some(obtained.to_string());
        t.expires_in = Some(seconds);
        t.expiry()
    };
    let at = |secs: i64, nanos: u32| Expiry::At(Timestamp { secs, nanos });
    assert_eq!(expiry("1970-01-01T00:00:10.5Z", 90), at(100, 500_000_000));
    assert_eq!(expiry("1970-01-01T01:00:00+01:00", -7), at(-7, 0));
    let epoch = "1970-01-01T00:00:00Z";
    assert_eq!(expiry(epoch, 8_210_266_876_799), at(8_210_266_876_799, 0));
    assert_eq!(expiry(epoch, 8_210_266_876_800), Expiry::OutOfRange);
    assert_eq!(expiry(epoch, -8_334_601_228_800), at(-8_334_601_228_800, 0));
    assert_eq!(expiry(epoch, -8_334_601_228_801), Expiry::OutOfRange);
    assert_eq!(expiry(epoch, i64::MAX), Expiry::OutOfRange);
    assert_eq!(expiry(epoch, i64::MIN), Expiry::OutOfRange);
}

#[test]
fn an_expiry_outside_the_calendar_is_not_claimed() {
    let claimed = |exp: i64| token_expiration(&jwt_with_claims(&format!("{{\"exp\":{exp}}}")));
    assert!(claimed(8_210_266_876_799).is_some());
    assert!(claimed(8_210_266_876_800).is_none());
    assert!(claimed(-8_334_601_228_800).is_some());
    assert!(claimed(-8_334_601_228_801).is_none());
}
