use codex_openai_proxy::chat::{
    build_responses_body, extract_text, extract_text_val, parse_reasoning_suffix,
    translate_content, wants_usage, ChatMessage, ChatRequest, FunctionCall, FunctionDef,
    StreamOptions, ToolCall, ToolDef,
};
use codex_openai_proxy::json::{Json, JsonNumber};
use codex_openai_proxy::json_codec::{read_json, to_value};
use serde_json::Value;

fn request(messages: Vec<ChatMessage>) -> ChatRequest {
    ChatRequest {
        model: "gpt-5.5".to_string(),
        messages,
        stream: true,
        temperature: None,
        top_p: None,
        max_tokens: None,
        max_completion_tokens: None,
        stop: None,
        n: None,
        stream_options: None,
        tools: None,
        tool_choice: None,
        parallel_tool_calls: None,
        reasoning_effort: None,
        frequency_penalty: None,
        presence_penalty: None,
        logprobs: None,
        response_format: None,
        seed: None,
        user: None,
        service_tier: None,
    }
}

fn message(role: &str, content: &str) -> ChatMessage {
    ChatMessage {
        role: role.to_string(),
        content: Some(Json::Str(content.to_string())),
        tool_calls: None,
        tool_call_id: None,
        name: None,
    }
}

fn assistant_tool_call_message(content: Option<&str>) -> ChatMessage {
    ChatMessage {
        role: "assistant".to_string(),
        content: content.map(|s| Json::Str(s.to_string())),
        tool_calls: Some(vec![ToolCall {
            id: "call_123".to_string(),
            call_type: Some("function".to_string()),
            function: FunctionCall {
                name: "lookup".to_string(),
                arguments: r#"{"query":"status"}"#.to_string(),
            },
        }]),
        tool_call_id: None,
        name: None,
    }
}

fn body_of(req: &ChatRequest) -> Value {
    to_value(&build_responses_body(req))
}

fn number(text: &str) -> Option<JsonNumber> {
    match read_json(text) {
        Some(Json::Number(n)) => Some(n),
        _ => None,
    }
}

fn value(text: &str) -> Value {
    serde_json::from_str(text).unwrap()
}

#[test]
fn chat_translation_always_includes_instructions() {
    let body = body_of(&request(vec![message("user", "hello")]));

    assert_eq!(body["instructions"], Value::String(String::new()));
    assert_eq!(body["input"][0]["role"], "user");
}

#[test]
fn chat_translation_uses_system_message_as_instructions() {
    let body = body_of(&request(vec![
        message("system", "be direct"),
        message("user", "hello"),
    ]));

    assert_eq!(body["instructions"], "be direct");
    assert_eq!(body["input"].as_array().unwrap().len(), 1);
}

#[test]
fn chat_translation_uses_developer_message_as_instructions() {
    let body = body_of(&request(vec![
        message("developer", "follow the repo instructions"),
        message("user", "hello"),
    ]));

    assert_eq!(body["instructions"], "follow the repo instructions");
    assert_eq!(body["input"].as_array().unwrap().len(), 1);
    assert_eq!(body["input"][0]["content"][0]["text"], "hello");
}

#[test]
fn chat_translation_omits_unsupported_token_caps() {
    let mut req = request(vec![message("user", "title this")]);
    req.max_tokens = Some(12);
    req.max_completion_tokens = Some(8);

    let body = body_of(&req);

    assert!(body.get("max_output_tokens").is_none());
}

#[test]
fn chat_translation_omits_unsupported_sampling_params() {
    let mut req = request(vec![message("user", "title this")]);
    req.temperature = number("0.1");
    req.top_p = number("0.2");
    assert!(req.temperature.is_some() && req.top_p.is_some());

    let body = body_of(&req);

    assert!(body.get("temperature").is_none());
    assert!(body.get("top_p").is_none());
}

#[test]
fn chat_translation_puts_assistant_tool_calls_at_top_level() {
    let body = body_of(&request(vec![
        message("user", "check status"),
        assistant_tool_call_message(Some("I will check.")),
        ChatMessage {
            role: "tool".to_string(),
            content: Some(Json::Str(r#"{"status":"ok"}"#.to_string())),
            tool_calls: None,
            tool_call_id: Some("call_123".to_string()),
            name: None,
        },
    ]));

    assert_eq!(body["input"][1]["type"], "message");
    assert_eq!(body["input"][1]["content"][0]["type"], "output_text");
    assert_eq!(body["input"][2]["type"], "function_call");
    assert_eq!(body["input"][2]["call_id"], "call_123");
    assert!(body["input"][2].get("content").is_none());
    assert_eq!(body["input"][3]["type"], "function_call_output");
}

#[test]
fn chat_translation_omits_empty_assistant_message_for_tool_only_turn() {
    let body = body_of(&request(vec![
        message("user", "check status"),
        assistant_tool_call_message(None),
    ]));

    assert_eq!(body["input"].as_array().unwrap().len(), 2);
    assert_eq!(body["input"][1]["type"], "function_call");
}

#[test]
fn reasoning_suffixes_are_split_off() {
    for effort in ["none", "minimal", "low", "medium", "high", "xhigh"] {
        let (model, found) = parse_reasoning_suffix(&format!("gpt-5.5-{effort}"));
        assert_eq!(model, "gpt-5.5");
        assert_eq!(found.as_deref(), Some(effort));
    }
    assert_eq!(parse_reasoning_suffix("gpt-5.5"), ("gpt-5.5".to_string(), None));
    assert_eq!(parse_reasoning_suffix("high"), ("high".to_string(), None));
    assert_eq!(
        parse_reasoning_suffix("m-low-high"),
        ("m-low".to_string(), Some("high".to_string()))
    );
    assert_eq!(
        parse_reasoning_suffix("-low"),
        (String::new(), Some("low".to_string()))
    );
}

#[test]
fn explicit_effort_wins_over_the_suffix() {
    let mut req = request(vec![message("user", "hello")]);
    req.model = "gpt-5.5-low".to_string();
    assert_eq!(body_of(&req)["reasoning"], value(r#"{"effort":"low"}"#));
    req.reasoning_effort = Some("high".to_string());
    let body = body_of(&req);
    assert_eq!(body["reasoning"], value(r#"{"effort":"high"}"#));
    assert_eq!(body["model"], "gpt-5.5");
    req.model = "gpt-5.5".to_string();
    req.reasoning_effort = None;
    assert!(body_of(&req).get("reasoning").is_none());
}

#[test]
fn a_full_request_is_translated_field_by_field() {
    let mut req = request(vec![
        message("system", "one"),
        message("developer", "two"),
        message("user", "hello"),
        message("stranger", "hey"),
    ]);
    req.stop = read_json(r#""END""#);
    req.parallel_tool_calls = Some(false);
    req.tools = Some(vec![
        ToolDef {
            tool_type: "function".to_string(),
            function: Some(FunctionDef {
                name: "lookup".to_string(),
                description: None,
                parameters: read_json(r#"{"type":"object"}"#),
            }),
        },
        ToolDef {
            tool_type: "web".to_string(),
            function: None,
        },
    ]);
    req.tool_choice = read_json(r#"{"type":"function","function":{"name":"lookup"}}"#);
    assert_eq!(
        body_of(&req),
        value(
            r#"{
              "model": "gpt-5.5",
              "instructions": "one\n\ntwo",
              "input": [
                {"type":"message","role":"user","content":[{"type":"input_text","text":"hello"}]},
                {"type":"message","role":"user","content":[{"type":"input_text","text":"hey"}]}
              ],
              "stream": true,
              "store": false,
              "stop": ["END"],
              "tools": [{"type":"function","name":"lookup","description":null,"parameters":{"type":"object"}}],
              "tool_choice": {"type":"function","name":"lookup"},
              "parallel_tool_calls": false
            }"#
        )
    );
}

#[test]
fn stop_lists_are_kept_and_other_stops_left_out() {
    let mut req = request(vec![]);
    req.stop = read_json(r#"["a","b"]"#);
    assert_eq!(body_of(&req)["stop"], value(r#"["a","b"]"#));
    req.stop = read_json("7");
    assert!(body_of(&req).get("stop").is_none());
}

#[test]
fn tool_choice_none_offers_no_tools() {
    let mut req = request(vec![]);
    req.tools = Some(vec![ToolDef {
        tool_type: "function".to_string(),
        function: Some(FunctionDef {
            name: "lookup".to_string(),
            description: Some("finds".to_string()),
            parameters: None,
        }),
    }]);
    req.tool_choice = read_json(r#""none""#);
    assert_eq!(body_of(&req)["tools"], value("[]"));
    req.tool_choice = read_json(r#""auto""#);
    let body = body_of(&req);
    assert_eq!(body["tools"][0]["name"], "lookup");
    assert_eq!(body["tools"][0]["description"], "finds");
    assert_eq!(body["tools"][0]["parameters"], Value::Null);
    assert!(body.get("tool_choice").is_none());
    req.tool_choice = read_json(r#"{"type":"web"}"#);
    assert!(body_of(&req).get("tool_choice").is_none());
    req.tools = Some(vec![]);
    assert!(body_of(&req).get("tools").is_none());
}

#[test]
fn content_parts_become_input_parts() {
    let content = read_json(
        r#"[{"type":"text","text":"a"},{"type":"image_url","image_url":{"url":"u"}},{"type":"x","k":1}]"#,
    );
    assert_eq!(
        to_value(&translate_content(&content, "input_text")),
        value(
            r#"[{"type":"input_text","text":"a"},{"type":"input_image","image_url":"u"},{"type":"x","k":1}]"#
        )
    );
    assert_eq!(
        to_value(&translate_content(&None, "input_text")),
        value(r#"[{"type":"input_text","text":""}]"#)
    );
    assert_eq!(
        to_value(&translate_content(&read_json("true"), "input_text")),
        value(r#"[{"type":"input_text","text":"true"}]"#)
    );
}

#[test]
fn text_of_content_is_gathered() {
    assert_eq!(extract_text(&None), "");
    assert_eq!(extract_text(&read_json(r#""hi""#)), "hi");
    assert_eq!(
        extract_text(&read_json(r#"[{"text":"a"},{"no":1},{"text":"b"}]"#)),
        "ab"
    );
    assert_eq!(extract_text(&read_json("null")), "null");
    assert_eq!(extract_text_val(&Json::Null), "");
    assert_eq!(extract_text_val(&read_json(r#"{"a":1}"#).unwrap()), r#"{"a":1}"#);
}

#[test]
fn a_tool_message_without_call_id_has_a_null_one() {
    let body = body_of(&request(vec![message("tool", "done")]));
    assert_eq!(
        body["input"][0],
        value(r#"{"type":"function_call_output","call_id":null,"output":"done"}"#)
    );
}

#[test]
fn usage_is_wanted_only_where_asked_for() {
    let mut req = request(vec![]);
    assert!(!wants_usage(&req));
    req.stream_options = Some(StreamOptions { include_usage: None });
    assert!(!wants_usage(&req));
    req.stream_options = Some(StreamOptions {
        include_usage: Some(true),
    });
    assert!(wants_usage(&req));
}
