use codex_openai_proxy::chat_collect::{collect_completion, collect_completion_at};
use codex_openai_proxy::chat_reply::{read_usage, ChatCompletionChunk, Usage};
use codex_openai_proxy::chat_stream::{
    final_stream_chunk, render_frames, translate_stream_chunk, translate_stream_chunk_at,
    ChatStream, Piece,
};
use codex_openai_proxy::json_codec::read_json;

fn chunk(p: &Piece) -> &ChatCompletionChunk {
    match p {
        Piece::Chunk(c) => c,
        Piece::Done => panic!("end mark"),
    }
}

fn is_done(p: &Piece) -> bool {
    matches!(p, Piece::Done)
}

const TEXT: &str = "data: {\"type\":\"response.created\"}\n\n\
    : ping\n\
    data: {\"type\":\"response.output_text.delta\",\"delta\":\"Hel\"}\n\n\
    data: {\"type\":\"response.output_text.delta\",\"delta\":\"lo\"}\n\n\
    data: not json\n\n\
    data: {\"type\":\"response.completed\",\"response\":{\"usage\":{\"input_tokens\":3,\"output_tokens\":4}}}\n\n";

const CALL: &str = "data: {\"type\":\"response.output_item.added\",\"item\":{\"type\":\"function_call\",\"call_id\":\"c1\",\"name\":\"f\"}}\n\n\
    data: {\"type\":\"response.function_call_arguments.delta\",\"delta\":\"{}\"}\n\n\
    data: {\"type\":\"response.output_item.done\",\"item\":{\"type\":\"function_call\",\"call_id\":\"c1\",\"name\":\"f\",\"arguments\":\"{}\"}}\n\n\
    data: {\"type\":\"response.completed\"}\n\n";

#[test]
fn text_events_become_chunks() {
    let t = translate_stream_chunk_at(TEXT.as_bytes(), "id", "m", 7, false, false, true);
    assert!(t.completed && !t.saw_tool_call && !t.saw_function_arg_delta);
    assert_eq!(t.output.len(), 6);
    let first = chunk(&t.output[0]);
    assert_eq!(
        (first.id.as_str(), first.object, first.created, first.model.as_str()),
        ("id", "chat.completion.chunk", 7, "m")
    );
    assert_eq!(first.choices[0].delta.role.as_deref(), Some("assistant"));
    assert_eq!(chunk(&t.output[1]).choices[0].delta.content.as_deref(), Some("Hel"));
    assert_eq!(chunk(&t.output[2]).choices[0].delta.content.as_deref(), Some("lo"));
    assert_eq!(chunk(&t.output[3]).choices[0].finish_reason.as_deref(), Some("stop"));
    assert!(chunk(&t.output[4]).choices.is_empty());
    assert_eq!(
        chunk(&t.output[4]).usage,
        Some(Usage {
            prompt_tokens: 3,
            completion_tokens: 4,
            total_tokens: 7
        })
    );
    assert!(is_done(&t.output[5]));
}

#[test]
fn usage_chunk_is_left_out_where_not_asked_for() {
    let t = translate_stream_chunk(TEXT.as_bytes(), "id", "m", false, false, false);
    assert_eq!(t.output.len(), 5);
    assert!(chunk(&t.output[3]).usage.is_none());
    assert!(is_done(&t.output[4]));
    assert!(chunk(&t.output[0]).created > 1_600_000_000);
}

#[test]
fn arguments_are_not_sent_twice() {
    let t = translate_stream_chunk_at(CALL.as_bytes(), "id", "m", 0, false, false, false);
    assert!(t.completed && t.saw_tool_call && t.saw_function_arg_delta);
    assert_eq!(t.output.len(), 4);
    let calls = chunk(&t.output[0]).choices[0].delta.tool_calls.as_ref().unwrap();
    assert_eq!(calls[0].id.as_deref(), Some("c1"));
    assert_eq!(calls[0].call_type.as_deref(), Some("function"));
    let f = calls[0].function.as_ref().unwrap();
    assert_eq!((f.name.as_deref(), f.arguments.as_deref()), (Some("f"), Some("")));
    let calls = chunk(&t.output[1]).choices[0].delta.tool_calls.as_ref().unwrap();
    assert_eq!(calls[0].id, None);
    assert_eq!(
        calls[0].function.as_ref().unwrap().arguments.as_deref(),
        Some("{}")
    );
    assert_eq!(
        chunk(&t.output[2]).choices[0].finish_reason.as_deref(),
        Some("tool_calls")
    );
}

#[test]
fn finished_call_without_deltas_sends_its_arguments() {
    let done = "data: {\"type\":\"response.output_item.done\",\"item\":{\"type\":\"function_call\",\"id\":\"i1\",\"name\":\"f\",\"arguments\":\"[1]\"}}\n\n";
    let t = translate_stream_chunk_at(done.as_bytes(), "id", "m", 0, false, false, false);
    let calls = chunk(&t.output[0]).choices[0].delta.tool_calls.as_ref().unwrap();
    assert_eq!(calls[0].id.as_deref(), Some("i1"));
    assert_eq!(
        calls[0].function.as_ref().unwrap().arguments.as_deref(),
        Some("[1]")
    );
    let t = translate_stream_chunk_at(done.as_bytes(), "id", "m", 0, false, true, false);
    assert!(t.output.is_empty() && t.saw_tool_call);
}

#[test]
fn incomplete_replies_end_for_length() {
    let raw = "data: {\"type\":\"response.incomplete\"}\n";
    let t = translate_stream_chunk_at(raw.as_bytes(), "id", "m", 0, true, false, false);
    assert_eq!(
        chunk(&t.output[0]).choices[0].finish_reason.as_deref(),
        Some("length")
    );
    assert!(t.completed);
}

#[test]
fn cutting_between_lines_changes_nothing() {
    let at = CALL.find("data: {\"type\":\"response.output_item.done\"").unwrap();
    let whole = translate_stream_chunk_at(CALL.as_bytes(), "id", "m", 0, false, false, false);
    let a = translate_stream_chunk_at(CALL[..at].as_bytes(), "id", "m", 0, false, false, false);
    let b = translate_stream_chunk_at(
        CALL[at..].as_bytes(),
        "id",
        "m",
        0,
        a.saw_tool_call,
        a.saw_function_arg_delta,
        false,
    );
    let mut parts: Vec<String> = a.output.iter().map(|p| format!("{p:?}")).collect();
    parts.extend(b.output.iter().map(|p| format!("{p:?}")));
    let all: Vec<String> = whole.output.iter().map(|p| format!("{p:?}")).collect();
    assert_eq!(parts, all);
}

#[test]
fn a_stream_without_end_is_ended_once() {
    let mut s = ChatStream::new("id", "m", false);
    assert_eq!(
        s.on_chunk_at(b"data: {\"type\":\"response.output_text.delta\",\"delta\":\"x\"}\n", 1)
            .len(),
        1
    );
    assert!(s.on_chunk(b"event: x\n").is_empty());
    let end = s.on_end_at(2).unwrap();
    assert_eq!(
        chunk(&end[0]).choices[0].finish_reason.as_deref(),
        Some("stop")
    );
    assert!(is_done(&end[1]));
    assert!(s.on_end().is_none());
}

#[test]
fn a_completed_stream_is_not_ended_again() {
    let mut s = ChatStream::new("id", "m", false);
    s.on_chunk_at(CALL.as_bytes(), 1);
    assert!(s.saw_completed && s.saw_tool_call);
    assert!(s.on_end_at(2).is_none());
}

#[test]
fn a_failed_stream_reports_and_closes() {
    let mut s = ChatStream::new("id", "m", false);
    assert_eq!(
        s.on_failure("cut"),
        "data: {\"error\":{\"message\":\"Stream error: cut\"}}\n\n"
    );
    assert!(s.on_end_at(2).is_none());
    assert_eq!(
        s.on_failure("a \"quote\""),
        "data: {\"error\":{\"message\":\"Stream error: a \\\"quote\\\"\"}}\n\n"
    );
}

fn sent(pieces: &[&[u8]]) -> Vec<String> {
    let mut s = ChatStream::new("id", "m", true);
    let mut out: Vec<String> = Vec::new();
    for p in pieces {
        out.extend(s.on_chunk_at(p, 3).iter().map(|p| format!("{p:?}")));
    }
    while let Some(end) = s.on_end_at(3) {
        out.extend(end.iter().map(|p| format!("{p:?}")));
    }
    out
}

#[test]
fn cutting_anywhere_changes_nothing() {
    let open = "data: {\"type\":\"response.output_text.delta\",\"delta\":\"äö\"}\r\n\r\ndata: [DONE]";
    for raw in [TEXT.as_bytes(), CALL.as_bytes(), open.as_bytes()] {
        let whole = sent(&[raw]);
        assert!(whole.len() > 1);
        for at in 0..raw.len() {
            assert_eq!(sent(&[&raw[..at], &raw[at..]]), whole);
        }
        let bytes: Vec<&[u8]> = raw.chunks(1).collect();
        assert_eq!(sent(&bytes), whole);
    }
    assert_eq!(sent(&[b"data: [DO", b"NE]"]), vec!["Done"]);
}

#[test]
fn an_end_mark_of_the_upstream_is_passed_on() {
    let mut s = ChatStream::new("id", "m", false);
    let out = s.on_chunk_at(b"data: [DONE]\n\n", 1);
    assert!(out.len() == 1 && is_done(&out[0]));
    assert!(s.on_end_at(2).is_none());
}

#[test]
fn frames_are_written_one_after_the_other() {
    let frames = render_frames(&vec![Some("{}".to_string()), None]);
    assert_eq!(frames, "data: {}\n\ndata: [DONE]\n\n");
    assert_eq!(render_frames(&vec![]), "");
}

#[test]
fn usage_counts_are_summed() {
    let u = read_usage(&read_json(r#"{"input_tokens":2,"output_tokens":5}"#).unwrap());
    assert_eq!(u.total_tokens, 7);
    let u = read_usage(&read_json(r#"{"input_tokens":-1}"#).unwrap());
    assert_eq!((u.prompt_tokens, u.total_tokens), (0, 0));
    let end = final_stream_chunk("id", "m", 1, None, "stop", true);
    assert_eq!(end.len(), 3);
    assert!(chunk(&end[1]).usage.is_none());
}

#[test]
fn text_is_collected_into_one_reply() {
    let r = collect_completion_at(TEXT.as_bytes(), "id", "m", 9);
    assert_eq!((r.id.as_str(), r.object, r.created), ("id", "chat.completion", 9));
    let choice = &r.choices[0];
    assert_eq!(choice.message.role, "assistant");
    assert_eq!(choice.message.content.as_deref(), Some("Hello"));
    assert!(choice.message.tool_calls.is_none());
    assert_eq!(choice.finish_reason, "stop");
    assert_eq!(r.usage.total_tokens, 7);
}

#[test]
fn calls_are_collected_into_one_reply() {
    let r = collect_completion(CALL.as_bytes(), "id", "m");
    let choice = &r.choices[0];
    assert!(choice.message.content.is_none());
    let calls = choice.message.tool_calls.as_ref().unwrap();
    assert_eq!(calls.len(), 1);
    assert_eq!(
        (
            calls[0].id.as_str(),
            calls[0].call_type.as_str(),
            calls[0].function.name.as_str(),
            calls[0].function.arguments.as_str()
        ),
        ("c1", "function", "f", "{}")
    );
    assert_eq!(choice.finish_reason, "tool_calls");
    assert_eq!(r.usage.total_tokens, 0);
}

#[test]
fn arguments_of_a_finished_call_fill_an_empty_one() {
    let raw = "data: {\"type\":\"response.output_item.added\",\"item\":{\"type\":\"function_call\",\"call_id\":\"c1\",\"name\":\"f\"}}\n\
        data: {\"type\":\"response.output_item.done\",\"item\":{\"type\":\"function_call\",\"call_id\":\"c1\",\"arguments\":\"[2]\"}}\n\
        data: {\"type\":\"response.incomplete\"}\n";
    let r = collect_completion_at(raw.as_bytes(), "id", "m", 0);
    let calls = r.choices[0].message.tool_calls.as_ref().unwrap();
    assert_eq!(calls[0].function.arguments, "[2]");
    assert_eq!(r.choices[0].finish_reason, "length");
}

#[test]
fn an_empty_body_collects_to_an_empty_reply() {
    let r = collect_completion_at(b"", "id", "m", 0);
    assert!(r.choices[0].message.content.is_none());
    assert_eq!(r.choices[0].finish_reason, "stop");
}
