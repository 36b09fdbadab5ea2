use axum::http::{HeaderMap, HeaderValue};
use codex_openai_proxy::json::{Json, JsonNumber};
use codex_openai_proxy::json_codec::to_value;
use codex_openai_proxy::usage::{
    build_usage, dedupe_rate_limits, header_name_to_limit_id, normalize_limit_id,
    parse_all_rate_limits, parse_flag, parse_header_bool, parse_header_f64, parse_header_i64,
    parse_rate_limit_events, usage_body, usage_url, RateLimitSnapshot,
};

fn percent(n: &JsonNumber) -> f64 {
    to_value(&Json::Number(n.clone())).as_f64().unwrap()
}

fn headers(pairs: &[(&'static str, &'static str)]) -> HeaderMap {
    let mut h = HeaderMap::new();
    for (name, value) in pairs {
        h.insert(*name, HeaderValue::from_static(value));
    }
    h
}

fn ids(v: &[RateLimitSnapshot]) -> Vec<&str> {
    v.iter().map(|s| s.limit_id.as_str()).collect()
}

#[test]
fn parses_header_rate_limits() {
    let mut headers = HeaderMap::new();
    headers.insert(
        "x-codex-primary-used-percent",
        HeaderValue::from_static("42"),
    );
    headers.insert(
        "x-codex-primary-window-minutes",
        HeaderValue::from_static("300"),
    );
    headers.insert(
        "x-codex-primary-reset-at",
        HeaderValue::from_static("1700000000"),
    );
    headers.insert(
        "x-codex-credits-has-credits",
        HeaderValue::from_static("true"),
    );
    headers.insert(
        "x-codex-credits-unlimited",
        HeaderValue::from_static("false"),
    );

    let snapshots = parse_all_rate_limits(&headers);

    assert_eq!(snapshots.len(), 1);
    assert_eq!(snapshots[0].limit_id, "codex");
    assert_eq!(percent(&snapshots[0].primary.as_ref().unwrap().used_percent), 42.0);
    assert!(snapshots[0].credits.as_ref().unwrap().has_credits);
}

#[test]
fn parses_sse_rate_limit_events() {
    let raw = r#"event: codex.rate_limits
data: {"type":"codex.rate_limits","rate_limits":{"primary":{"used_percent":12,"window_minutes":60,"reset_at":1700000000},"secondary":null},"credits":{"has_credits":true,"unlimited":false,"balance":"123"}}

data: [DONE]
"#;

    let snapshots = parse_rate_limit_events(raw);

    assert_eq!(snapshots.len(), 1);
    assert_eq!(snapshots[0].limit_id, "codex");
    assert_eq!(
        snapshots[0].primary.as_ref().unwrap().resets_at,
        Some(1700000000)
    );
    assert_eq!(
        snapshots[0].credits.as_ref().unwrap().balance.as_deref(),
        Some("123")
    );
}

#[test]
fn other_limits_follow_in_order() {
    let h = headers(&[
        ("x-zeta-primary-used-percent", "1.5"),
        ("x-alpha-beta-primary-used-percent", "2"),
        ("x-alpha-beta-limit-name", "  Alpha "),
        ("x-alpha-beta-secondary-used-percent", "3"),
        ("x-empty-primary-used-percent", "0"),
    ]);
    let v = parse_all_rate_limits(&h);
    assert_eq!(ids(&v), vec!["codex", "alpha_beta", "zeta"]);
    assert!(v[0].primary.is_none());
    assert_eq!(v[1].limit_name.as_deref(), Some("Alpha"));
    assert_eq!(percent(&v[1].secondary.as_ref().unwrap().used_percent), 3.0);
    assert_eq!(percent(&v[2].primary.as_ref().unwrap().used_percent), 1.5);
}

#[test]
fn a_window_that_tells_nothing_is_left_out() {
    let window = |pairs: &[(&'static str, &'static str)]| {
        parse_all_rate_limits(&headers(pairs))
            .remove(0)
            .primary
            .map(|w| (percent(&w.used_percent), w.window_minutes, w.resets_at))
    };
    assert_eq!(window(&[("x-codex-primary-used-percent", "-0.0")]), None);
    assert_eq!(
        window(&[
            ("x-codex-primary-used-percent", "0"),
            ("x-codex-primary-window-minutes", "0")
        ]),
        None
    );
    assert_eq!(
        window(&[
            ("x-codex-primary-used-percent", "0"),
            ("x-codex-primary-reset-at", "0")
        ]),
        Some((0.0, None, Some(0)))
    );
    assert_eq!(
        window(&[
            ("x-codex-primary-used-percent", "0"),
            ("x-codex-primary-window-minutes", "-5")
        ]),
        Some((0.0, Some(-5), None))
    );
    assert_eq!(window(&[("x-codex-primary-used-percent", "inf")]), None);
    assert_eq!(window(&[("x-codex-primary-reset-at", "5")]), None);
}

#[test]
fn credits_need_both_flags() {
    let h = headers(&[
        ("x-codex-credits-has-credits", "1"),
        ("x-codex-credits-unlimited", "FALSE"),
        ("x-codex-credits-balance", " 7 "),
    ]);
    let c = parse_all_rate_limits(&h).remove(0).credits.unwrap();
    assert!(c.has_credits && !c.unlimited);
    assert_eq!(c.balance.as_deref(), Some("7"));
    let h = headers(&[("x-codex-credits-has-credits", "1")]);
    assert!(parse_all_rate_limits(&h).remove(0).credits.is_none());
}

#[test]
fn header_values_are_read_by_kind() {
    let h = headers(&[("a", "12"), ("b", "x"), ("c", "0")]);
    assert_eq!(parse_header_i64(&h, "A"), Some(12));
    assert_eq!(parse_header_i64(&h, "b"), None);
    assert_eq!(parse_header_i64(&h, "none"), None);
    assert_eq!(parse_header_f64(&h, "a").map(|f| f.to_bits()), Some(12.0f64.to_bits()));
    assert_eq!(parse_header_bool(&h, "c"), Some(false));
    assert_eq!(parse_flag("True"), Some(true));
    assert_eq!(parse_flag("yes"), None);
    let mut raw = HeaderMap::new();
    raw.insert("d", HeaderValue::from_bytes(&[0xff]).unwrap());
    assert_eq!(parse_header_i64(&raw, "d"), None);
}

#[test]
fn limit_ids_are_normalized() {
    assert_eq!(normalize_limit_id(" GPT-5-Codex "), "gpt_5_codex");
    assert_eq!(
        header_name_to_limit_id("x-a-b-primary-used-percent").as_deref(),
        Some("a_b")
    );
    assert_eq!(header_name_to_limit_id("a-primary-used-percent"), None);
    assert_eq!(header_name_to_limit_id("x-a-secondary-used-percent"), None);
}

#[test]
fn events_name_their_limit() {
    let one = |data: &str| parse_rate_limit_events(&format!("data: {data}")).pop();
    let s = one(r#"{"type":"codex.rate_limits","metered_limit_name":"A-b","limit_name":"z"}"#);
    assert_eq!(s.unwrap().limit_id, "a_b");
    let s = one(r#"{"type":"codex.rate_limits","limit_name":"z"}"#).unwrap();
    assert_eq!(s.limit_id, "z");
    assert!(s.primary.is_none() && s.credits.is_none());
    let s = one(r#"{"type":"codex.rate_limits","metered_limit_name":1,"limit_name":"z"}"#);
    assert_eq!(s.unwrap().limit_id, "codex");
    assert!(one(r#"{"type":"other"}"#).is_none());
    assert!(one("{").is_none());
}

#[test]
fn the_first_snapshot_of_a_limit_is_kept() {
    let h = headers(&[("x-codex-primary-used-percent", "42")]);
    let raw = "data: {\"type\":\"codex.rate_limits\",\"rate_limits\":{\"primary\":{\"used_percent\":1}}}\n\
               data: {\"type\":\"codex.rate_limits\",\"limit_name\":\"other\"}\n";
    let u = build_usage(parse_all_rate_limits(&h), raw);
    assert_eq!(u.object, "codex.usage");
    assert_eq!(ids(&u.rate_limits), vec!["codex", "other"]);
    assert_eq!(
        percent(&u.rate_limits[0].primary.as_ref().unwrap().used_percent),
        42.0
    );
    let mut again = u.rate_limits;
    dedupe_rate_limits(&mut again);
    assert_eq!(again.len(), 2);
}

#[test]
fn empty_headers_do_not_hide_events() {
    let raw = "data: {\"type\":\"codex.rate_limits\",\"rate_limits\":{\"primary\":{\"used_percent\":12,\"window_minutes\":60,\"reset_at\":1700000000}}}\n";
    let u = build_usage(parse_all_rate_limits(&HeaderMap::new()), raw);
    assert_eq!(ids(&u.rate_limits), vec!["codex"]);
    let w = u.rate_limits[0].primary.as_ref().unwrap();
    assert_eq!(percent(&w.used_percent), 12.0);
    assert_eq!((w.window_minutes, w.resets_at), (Some(60), Some(1700000000)));
    let u = build_usage(parse_all_rate_limits(&HeaderMap::new()), "");
    assert_eq!(ids(&u.rate_limits), vec!["codex"]);
    let other = "data: {\"type\":\"codex.rate_limits\",\"limit_name\":\"other\"}\n";
    let u = build_usage(parse_all_rate_limits(&HeaderMap::new()), other);
    assert_eq!(ids(&u.rate_limits), vec!["codex", "other"]);
}

#[test]
fn usage_is_asked_for_with_a_short_request() {
    assert_eq!(
        usage_url("1.2"),
        "https://chatgpt.com/backend-api/codex/responses?client_version=1.2"
    );
    let expected: serde_json::Value = serde_json::from_str(
        r#"{"model":"gpt-5.5","instructions":"","input":[{"type":"message","role":"user","content":[{"type":"input_text","text":"hi"}]}],"store":false,"stream":true}"#,
    )
    .unwrap();
    assert_eq!(to_value(&usage_body()), expected);
}
