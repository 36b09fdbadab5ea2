use codex_openai_proxy::json::Json;
use codex_openai_proxy::proxy::{
    collect_sse_to_json, next_sse_frame, sanitize_responses_body, sanitize_value,
    stream_content_type, transform_response_sse_frame, ResponseSseTransform,
};
use codex_openai_proxy::json_codec::{read_json, to_value};
use axum::http::HeaderValue;
use serde_json::Value;

fn text(bytes: Vec<u8>) -> String {
    String::from_utf8(bytes).unwrap()
}

const ITEM: &str = r#"data: {"type":"response.output_item.done","item":{"id":"msg_1","type":"message","role":"assistant","content":[{"type":"output_text","text":"ok"}]}}"#;

#[test]
fn collect_sse_to_json_reconstructs_missing_completed_output() {
    let mut raw = String::new();
    raw.push_str("event: response.output_item.done\n");
    raw.push_str(ITEM);
    raw.push_str("\n\n");
    raw.push_str("event: response.completed\n");
    raw.push_str(r#"data: {"type":"response.completed","response":{"id":"resp_1","object":"response","status":"completed","output":[]}}"#);
    raw.push_str("\n\n");

    let body = collect_sse_to_json(raw.as_bytes());
    let parsed: Value = serde_json::from_slice(&body).unwrap();

    assert_eq!(parsed["id"], "resp_1");
    assert_eq!(parsed["output"][0]["id"], "msg_1");
    assert_eq!(parsed["output"][0]["content"][0]["text"], "ok");
}

#[test]
fn streaming_transform_injects_output_into_completed_event() {
    let mut output_items: Vec<Json> = Vec::new();

    let item_frame = format!("event: response.output_item.done\n{ITEM}");
    let completed_frame = format!(
        "event: response.completed\n{}",
        r#"data: {"type":"response.completed","response":{"id":"resp_1","object":"response","status":"completed"}}"#,
    );

    let item_out = text(transform_response_sse_frame(
        item_frame.as_bytes(),
        &mut output_items,
    ));
    let completed_out = text(transform_response_sse_frame(
        completed_frame.as_bytes(),
        &mut output_items,
    ));

    let completed_data = completed_out
        .lines()
        .find_map(|line| line.strip_prefix("data: "))
        .expect("completed data line");
    let completed: Value = serde_json::from_str(completed_data).unwrap();

    assert!(item_out.contains("response.output_item.done"));
    assert_eq!(completed["response"]["output"][0]["id"], "msg_1");
    assert_eq!(
        completed["response"]["output"][0]["content"][0]["text"],
        "ok"
    );
}

#[test]
fn sanitize_responses_body_adds_required_instructions_and_store() {
    let (body, stream_requested) = sanitize_responses_body(
        br#"{"model":"gpt-5.5","input":[],"stream":true,"safety_identifier":"sid"}"#,
    );
    let parsed: Value = serde_json::from_slice(&body).unwrap();

    assert!(stream_requested);
    assert_eq!(parsed["instructions"], Value::String(String::new()));
    assert!(parsed.get("safety_identifier").is_none());
    assert_eq!(parsed["store"], false);
}

#[test]
fn sanitize_responses_body_preserves_existing_instructions() {
    let (body, _) = sanitize_responses_body(br#"{"model":"gpt-5.5","instructions":"be direct"}"#);
    let parsed: Value = serde_json::from_slice(&body).unwrap();

    assert_eq!(parsed["instructions"], "be direct");
}

#[test]
fn sanitize_responses_body_preserves_existing_store() {
    let (body, _) = sanitize_responses_body(br#"{"model":"gpt-5.5","store":true}"#);
    let parsed: Value = serde_json::from_slice(&body).unwrap();

    assert_eq!(parsed["store"], true);
}

#[test]
fn what_is_not_an_object_is_passed_on() {
    assert_eq!(
        sanitize_responses_body(b"not json"),
        (b"not json".to_vec(), false)
    );
    assert_eq!(sanitize_responses_body(b"[1]"), (b"[1]".to_vec(), false));
    let bad = vec![0xffu8, 0x7b];
    assert_eq!(sanitize_responses_body(&bad), (bad.clone(), false));
}

#[test]
fn sanitizing_forces_stream_and_is_done_once() {
    let (a, stream) = sanitize_value(read_json(r#"{"stream":false,"x":[1,2.5]}"#).unwrap());
    assert!(!stream);
    let first = to_value(&a);
    let expected: Value = serde_json::from_str(
        r#"{"stream":true,"x":[1,2.5],"instructions":"","store":false}"#,
    )
    .unwrap();
    assert_eq!(first, expected);
    let (b, stream) = sanitize_value(a);
    assert!(stream);
    assert_eq!(to_value(&b), first);
}

#[test]
fn frames_end_at_the_first_blank_line() {
    assert_eq!(next_sse_frame(b"a\n\nb\r\n\r\n"), Some((1, 2)));
    assert_eq!(next_sse_frame(b"a\r\n\r\nb\n\n"), Some((1, 4)));
    assert_eq!(next_sse_frame("é\n\n".as_bytes()), Some((2, 2)));
    assert_eq!(next_sse_frame(b"a\nb"), None);
    assert_eq!(next_sse_frame(b""), None);
}

fn all_frames(pieces: &[&[u8]]) -> Vec<Vec<u8>> {
    let mut t = ResponseSseTransform::new();
    let mut out: Vec<Vec<u8>> = Vec::new();
    for p in pieces {
        out.extend(t.on_bytes(p));
    }
    out.extend(t.on_end());
    out
}

#[test]
fn pieces_do_not_change_the_frames() {
    let body = format!(
        "event: ä\n{ITEM}\n\ndata: {}\r\n\r\n: note\n\ndata: [DONE]",
        r#"{"type":"response.completed","response":{"id":"r"}}"#
    );
    let raw = body.as_bytes();
    let whole = all_frames(&[raw]);
    assert_eq!(whole.len(), 4);
    for at in 0..raw.len() {
        assert_eq!(all_frames(&[&raw[..at], &raw[at..]]), whole);
    }
    assert_eq!(text(whole[0].clone()), format!("event: ä\n{ITEM}\n\n"));
    let completed = text(whole[1].clone());
    assert!(completed.contains("msg_1") && completed.ends_with("}\r\n\r\n"));
    assert_eq!(whole[2], b": note\n\n");
    assert_eq!(whole[3], b"data: [DONE]");
}

#[test]
fn streams_come_back_verbatim() {
    for body in [
        &b": ping\r\n\r\ndata: { \"b\" : 1, \"a\":1.0 }\r\n\r\nid: 7"[..],
        &b"data: {\"type\":\"response.completed\",\"response\":{\"output\":[ 1 ]}}\n\n\n\n"[..],
        &b"data: {\"type\":\"response.completed\",\"response\":{ }}\n\n"[..],
        &b"data: \xff\xfe\n\ndata: {oops\n\ndata: [DONE] \r\r\n\n"[..],
        &b""[..],
    ] {
        assert_eq!(all_frames(&[body]).concat(), body);
        assert_eq!(all_frames(&[&body[..body.len() / 2], &body[body.len() / 2..]]).concat(), body);
    }
}

#[test]
fn an_output_that_is_there_stays() {
    let mut items: Vec<Json> = Vec::new();
    transform_response_sse_frame(ITEM.as_bytes(), &mut items);
    assert_eq!(items.len(), 1);
    let line = br#"data: {"type":"response.completed","response":{"output":[1]}}"#;
    assert_eq!(transform_response_sse_frame(line, &mut items), line);
}

#[test]
fn lines_without_events_are_kept_word_for_word() {
    let mut items: Vec<Json> = Vec::new();
    let frame = b"id: 7\r\ndata: {oops\ndata: [DONE] ";
    assert_eq!(transform_response_sse_frame(frame, &mut items), frame);
}

#[test]
fn no_response_is_reported() {
    let body = collect_sse_to_json(b"data: {\"type\":\"x\"}\n");
    assert_eq!(
        String::from_utf8(body).unwrap(),
        r#"{"error":{"message":"Upstream did not return a response"}}"#
    );
}

#[test]
fn the_last_response_is_collected() {
    let body = collect_sse_to_json(
        b"data: {\"response\":{\"id\":1}}\ndata: {\"response\":{\"id\":2}}\ndata: [DONE]\n",
    );
    assert_eq!(String::from_utf8(body).unwrap(), r#"{"id":2}"#);
}

#[test]
fn the_content_type_is_the_upstreams() {
    assert_eq!(stream_content_type(None), "text/event-stream");
    let own = HeaderValue::from_static("application/json");
    assert_eq!(stream_content_type(Some(own.clone())), own);
}
