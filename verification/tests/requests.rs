use axum::http::{HeaderMap, HeaderValue};
use codex_openai_proxy::auth::AuthTokens;
use codex_openai_proxy::config::{
    auth_file_path, codex_user_agent_for_version, default_port, dirs_home, latest_version,
    pinned_version, sanitize_header_token, sanitize_user_agent, terminal_user_agent_token,
    AuthPath, TerminalEnv,
};
use codex_openai_proxy::errors::{error_body, plain_error_text, request_error_body};
use codex_openai_proxy::flow::{AccountFlow, FlowAction, FlowEvent, Phase, RetryFlow};
use codex_openai_proxy::gate::{allow_any_origin, is_let_in, is_preflight};
use codex_openai_proxy::headers::{
    build_auth_headers, can_be_header, copy_codex_passthrough_headers, image_headers,
    parse_header_str, responses_headers, usage_headers,
};
use codex_openai_proxy::json_codec::{read_json, write_json};
use codex_openai_proxy::models::{merge_models, models_url, ModelsCache, UpstreamModel};

fn tokens() -> AuthTokens {
    AuthTokens {
        access_token: "secret".to_string(),
        refresh_token: None,
        id_token: None,
        token_type: None,
        expires_in: None,
        obtained_at: None,
        account_id: Some("acc".to_string()),
        chatgpt_account_is_fedramp: true,
    }
}

fn text<'a>(h: &'a HeaderMap, name: &str) -> Option<&'a str> {
    h.get(name).map(|v| v.to_str().unwrap())
}

#[test]
fn auth_headers_say_who_asks() {
    let h = build_auth_headers(&tokens(), "agent", "1.0");
    assert_eq!(text(&h, "authorization"), Some("Bearer secret"));
    assert_eq!(text(&h, "chatgpt-account-id"), Some("acc"));
    assert_eq!(text(&h, "x-openai-fedramp"), Some("true"));
    assert_eq!(text(&h, "content-type"), Some("application/json"));
    assert_eq!(text(&h, "version"), Some("1.0"));
    assert_eq!(text(&h, "user-agent"), Some("agent"));
    assert_eq!(text(&h, "originator"), Some("codex_cli_rs"));
    assert_eq!(h.len(), 7);
    let mut t = tokens();
    t.account_id = None;
    t.chatgpt_account_is_fedramp = false;
    assert_eq!(build_auth_headers(&t, "agent", "1.0").len(), 5);
    let h = usage_headers(&t, "agent", "1.0");
    assert_eq!(text(&h, "openai-beta"), Some("responses=experimental"));
}

#[test]
fn clients_pass_on_some_headers_but_never_a_token() {
    let mut client = HeaderMap::new();
    client.insert("authorization", HeaderValue::from_static("Bearer theirs"));
    client.insert("openai-beta", HeaderValue::from_static("other"));
    client.insert("openai-project", HeaderValue::from_static("p"));
    client.insert("session_id", HeaderValue::from_bytes(&[0xfe]).unwrap());
    client.append("thread_id", HeaderValue::from_static("one"));
    client.append("thread_id", HeaderValue::from_static("two"));
    client.insert("cookie", HeaderValue::from_static("c"));
    let h = responses_headers(&tokens(), "agent", "1.0", &client);
    assert_eq!(text(&h, "authorization"), Some("Bearer secret"));
    assert_eq!(text(&h, "openai-beta"), Some("other"));
    assert_eq!(text(&h, "openai-project"), Some("p"));
    assert_eq!(h.get("session_id").unwrap().as_bytes(), &[0xfe]);
    assert_eq!(h.get_all("thread_id").iter().count(), 1);
    assert_eq!(text(&h, "thread_id"), Some("one"));
    assert!(h.get("cookie").is_none());
    let h = image_headers(&tokens(), "agent", "1.0", &client);
    assert_eq!(text(&h, "openai-beta"), Some("other"));
    assert!(h.get("openai-project").is_none());
    let mut dst = HeaderMap::new();
    copy_codex_passthrough_headers(&client, &mut dst);
    assert_eq!(dst.len(), 4);
}

#[test]
fn header_texts_are_visible_ascii() {
    assert!(can_be_header("tab\tand é"));
    assert!(!can_be_header("line\n"));
    assert!(!can_be_header("\u{7f}"));
    let mut h = HeaderMap::new();
    h.insert("x", HeaderValue::from_str("é").unwrap());
    h.insert("y", HeaderValue::from_static("a b"));
    assert_eq!(parse_header_str(&h, "x"), None);
    assert_eq!(parse_header_str(&h, "Y").as_deref(), Some("a b"));
}

#[test]
fn the_key_guards_all_but_health() {
    let mut h = HeaderMap::new();
    assert!(is_let_in("/health", Some("k"), &h));
    assert!(is_let_in("/v1/models", None, &h));
    assert!(!is_let_in("/v1/models", Some("k"), &h));
    h.insert("authorization", HeaderValue::from_static("Bearer k"));
    assert!(is_let_in("/v1/models", Some("k"), &h));
    assert!(!is_let_in("/v1/models", Some("K"), &h));
    h.insert("authorization", HeaderValue::from_static("bearer k"));
    assert!(!is_let_in("/v1/models", Some("k"), &h));
    assert!(is_preflight("OPTIONS") && !is_preflight("GET"));
    allow_any_origin(&mut h);
    assert_eq!(text(&h, "access-control-allow-origin"), Some("*"));
}

#[test]
fn user_agents_can_be_sent() {
    assert_eq!(
        codex_user_agent_for_version("1.2", "Linux", "6", Some("x86_64"), "xterm"),
        "codex_cli_rs/1.2 (Linux 6; x86_64) xterm"
    );
    assert_eq!(
        codex_user_agent_for_version("1\n2", "Ubuntu é", "6", None, "t"),
        "codex_cli_rs/1_2 (Ubuntu _ 6; unknown) t"
    );
    assert_eq!(sanitize_user_agent("é".to_string()), "é");
    assert_eq!(sanitize_header_token("a\tb~\u{7f}é"), "a_b~__");
}

#[test]
fn terminals_are_named() {
    let env = |p: &str, v: &str, w: &str, t: &str| {
        let some = |s: &str| {
            if s == "-" {
                None
            } else {
                Some(s.to_string())
            }
        };
        terminal_user_agent_token(&TerminalEnv {
            term_program: some(p),
            term_program_version: some(v),
            wezterm_version: some(w),
            term: some(t),
        })
    };
    assert_eq!(env("iTerm", "3", "-", "-"), "iTerm/3");
    assert_eq!(env("iTerm", " ", "9", "x"), "iTerm");
    assert_eq!(env(" ", "3", "9", "x"), "WezTerm/9");
    assert_eq!(env("-", "3", "-", "xterm é"), "xterm _");
    assert_eq!(env("-", "-", "-", ""), "unknown");
}

#[test]
fn the_environment_is_read() {
    assert_eq!(default_port(None), 8080);
    assert_eq!(default_port(Some("3000")), 3000);
    assert_eq!(default_port(Some("65536")), 8080);
    assert_eq!(default_port(Some("x")), 8080);
    assert_eq!(dirs_home(None), "~");
    assert!(matches!(
        auth_file_path(Some("a/b"), false, None),
        AuthPath::Below { home, path } if home == "~" && path == "a/b"
    ));
    let some = |s: &str| Some(s.to_string());
    assert_eq!(pinned_version(some("a"), some("b")), some("a"));
    assert_eq!(pinned_version(None, some("b")), some("b"));
    assert_eq!(pinned_version(None, None), None);
    let answer = read_json(r#"{"version":"9.9"}"#).unwrap();
    assert_eq!(latest_version(true, Some(&answer)), "9.9");
    assert_eq!(latest_version(false, Some(&answer)), "0.125.0");
    assert_eq!(latest_version(true, read_json("{}").as_ref()), "0.125.0");
    assert_eq!(latest_version(true, None), "0.125.0");
}

#[test]
fn errors_are_reported_as_json() {
    assert_eq!(
        write_json(&error_body("a\"b")),
        r#"{"error":{"message":"a\"b"}}"#
    );
    assert_eq!(
        write_json(&request_error_body("m")),
        r#"{"error":{"message":"m","type":"invalid_request_error"}}"#
    );
    assert_eq!(plain_error_text("m"), r#"{"error":{"message":"m"}}"#);
    assert_eq!(plain_error_text("a\"b"), r#"{"error":{"message":"a\"b"}}"#);
}

fn body(text: &str, fallback: bool) -> FlowEvent {
    FlowEvent::Body(text.to_string(), fallback)
}

#[test]
fn a_refused_token_is_refreshed_once() {
    let (mut f, action) = AccountFlow::start(1);
    assert!(matches!(action, FlowAction::Send(0)));
    assert!(matches!(f.report(FlowEvent::Answered(401)), FlowAction::Refresh(0)));
    assert!(matches!(f.report(FlowEvent::Refreshed), FlowAction::Resend(0)));
    assert!(matches!(f.report(FlowEvent::Answered(401)), FlowAction::ReadBody));
    assert!(
        matches!(f.report(body("no", true)), FlowAction::Reply(401, m) if m == "no")
    );
    assert_eq!(f.phase, Phase::Finished);
    assert!(matches!(f.report(FlowEvent::Refreshed), FlowAction::Wait));
}

#[test]
fn another_account_is_tried_where_there_is_one() {
    let (mut f, _) = AccountFlow::start(3);
    assert!(matches!(
        f.report(FlowEvent::Failed("down".to_string())),
        FlowAction::Send(1)
    ));
    assert!(matches!(f.report(FlowEvent::Answered(429)), FlowAction::ReadBody));
    assert!(matches!(f.report(body("slow", true)), FlowAction::Send(2)));
    assert!(matches!(f.report(FlowEvent::Answered(401)), FlowAction::Refresh(2)));
    assert!(matches!(f.report(FlowEvent::Refreshed), FlowAction::Resend(2)));
    assert!(matches!(
        f.report(FlowEvent::Failed("cut".to_string())),
        FlowAction::Reply(502, m) if m == "Retry failed: cut"
    ));
}

#[test]
fn the_upstreams_answer_reaches_the_client() {
    let (mut f, _) = AccountFlow::start(2);
    assert!(matches!(f.report(FlowEvent::Answered(500)), FlowAction::ReadBody));
    assert!(matches!(f.report(body("bad", false)), FlowAction::Reply(500, m) if m == "bad"));
    let (mut f, _) = AccountFlow::start(1);
    assert!(matches!(f.report(FlowEvent::Answered(200)), FlowAction::Deliver));
    let (mut f, _) = AccountFlow::start(1);
    f.report(FlowEvent::Answered(401));
    assert!(matches!(f.report(FlowEvent::NotRefreshed), FlowAction::ReadBody));
    assert!(matches!(f.report(body("x", false)), FlowAction::Reply(401, _)));
    let (_, action) = AccountFlow::start(0);
    assert!(
        matches!(action, FlowAction::Reply(401, m) if m == "No configured auth accounts are usable")
    );
}

#[test]
fn one_account_is_retried_once() {
    let mut f = RetryFlow::start(false);
    assert!(matches!(f.report(FlowEvent::Answered(401)), FlowAction::Refresh(0)));
    assert!(matches!(f.report(FlowEvent::Refreshed), FlowAction::Resend(0)));
    assert!(matches!(f.report(FlowEvent::Answered(401)), FlowAction::Deliver));
    let mut f = RetryFlow::start(false);
    f.report(FlowEvent::Answered(401));
    assert!(matches!(f.report(FlowEvent::NotRefreshed), FlowAction::Deliver));
    let mut f = RetryFlow::start(true);
    f.report(FlowEvent::Answered(401));
    assert!(
        matches!(f.report(FlowEvent::NotRefreshed), FlowAction::Reply(401, m) if m == "Token refresh failed")
    );
    let mut f = RetryFlow::start(true);
    assert!(
        matches!(f.report(FlowEvent::Failed("e".to_string())), FlowAction::Reply(502, m) if m == "Upstream request failed: e")
    );
    let mut f = RetryFlow::start(true);
    f.report(FlowEvent::Answered(401));
    f.report(FlowEvent::Refreshed);
    assert!(
        matches!(f.report(FlowEvent::Failed("e".to_string())), FlowAction::Reply(502, m) if m == "Retry upstream request failed: e")
    );
    let mut f = RetryFlow::start(true);
    assert!(matches!(f.report(FlowEvent::Answered(404)), FlowAction::Deliver));
}

fn upstream(slug: &str) -> UpstreamModel {
    UpstreamModel {
        slug: slug.to_string(),
        display_name: None,
        context_window: Some(1),
        max_output_tokens: None,
    }
}

#[test]
fn builtin_models_are_added_once() {
    let models = merge_models(vec![upstream("z"), upstream("gpt-image-1"), upstream("a")]);
    let ids: Vec<&str> = models.iter().map(|m| m.id.as_str()).collect();
    assert_eq!(
        ids,
        vec!["z", "gpt-image-1", "a", "gpt-image-2", "gpt-image-1.5", "gpt-image-1-mini"]
    );
    let first = &models[0];
    assert_eq!(
        (first.object, first.created, first.owned_by, first.context_window),
        ("model", 1_700_000_000, "openai", Some(1))
    );
    assert_eq!(models[3].context_window, None);
    assert_eq!(
        models_url("1"),
        "https://chatgpt.com/backend-api/codex/models?client_version=1"
    );
}

#[test]
fn models_are_kept_for_five_minutes() {
    let mut cache = ModelsCache::new();
    assert!(cache.get(0).is_none());
    cache.store(merge_models(vec![]), 1_000);
    assert_eq!(cache.get(1_000 + 299_999_999_999).unwrap().len(), 4);
    assert!(cache.get(1_000 + 300_000_000_000).is_none());
}
