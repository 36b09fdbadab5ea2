use base64::engine::general_purpose::STANDARD;
use base64::Engine;
use codex_openai_proxy::images::{
    build_images_response, build_responses_request, build_tool_json, collect_images,
    collect_images_at, edit_kind, extract_images_from_completed, extract_usage, image_answer,
    image_stream_failure, is_json_content, mime_type_from_output_format, plan_edit,
    plan_edit_form, plan_generation, resolve_image_model, resolve_main_model,
    resolve_response_format, stream_images, EditKind, ImageAnswer, ImageStream, ImageToolParams,
    ImagesEditsJsonRequest, ImagesGenerationsRequest, InputImage, MaskInput,
};
use codex_openai_proxy::json::Json;
use codex_openai_proxy::json_codec::{read_json, to_value};
use codex_openai_proxy::multipart::{extract_attr, extract_boundary, parse_multipart};
use serde_json::Value;

fn value(text: &str) -> Value {
    serde_json::from_str(text).unwrap()
}

fn generation(prompt: &str) -> ImagesGenerationsRequest {
    ImagesGenerationsRequest {
        prompt: prompt.to_string(),
        model: None,
        n: None,
        size: None,
        quality: None,
        background: None,
        output_format: None,
        output_compression: None,
        response_format: None,
        stream: None,
        partial_images: None,
        moderation: None,
    }
}

fn edit(prompt: &str, urls: &[&str]) -> ImagesEditsJsonRequest {
    ImagesEditsJsonRequest {
        prompt: prompt.to_string(),
        images: urls
            .iter()
            .map(|u| InputImage {
                image_url: u.to_string(),
            })
            .collect(),
        model: None,
        size: None,
        quality: None,
        background: None,
        output_format: None,
        output_compression: None,
        input_fidelity: None,
        response_format: None,
        stream: None,
        partial_images: None,
        moderation: None,
        mask: None,
    }
}

const COMPLETED: &str = r#"{"type":"response.completed","response":{"created_at":77,"output":[
    {"type":"message"},
    {"type":"image_generation_call","result":"  "},
    {"type":"image_generation_call","result":"QUJD","revised_prompt":"cat","output_format":"webp","size":"1x1","background":"opaque","quality":"high"},
    {"type":"image_generation_call","result":"REVG"}],
    "tool_usage":{"image_gen":{"total":5}}}}"#;

fn completed_line() -> String {
    format!("data: {}\n\n", COMPLETED.replace('\n', " "))
}

#[test]
fn models_are_resolved() {
    assert_eq!(resolve_image_model(Some(" m ")), "m");
    assert_eq!(resolve_image_model(Some("  ")), "gpt-image-2");
    assert_eq!(resolve_image_model(None), "gpt-image-2");
    assert_eq!(resolve_main_model("gpt-image-2"), "gpt-5.4-mini");
    assert_eq!(resolve_main_model("a/b/c"), "a/b/gpt-5.4-mini");
    assert_eq!(resolve_main_model(" /c"), "gpt-5.4-mini");
}

#[test]
fn formats_are_resolved() {
    assert_eq!(resolve_response_format(Some(" URL ")), "url");
    assert_eq!(resolve_response_format(Some("")), "b64_json");
    assert_eq!(resolve_response_format(None), "b64_json");
    assert_eq!(mime_type_from_output_format(" JPG "), "image/jpeg");
    assert_eq!(mime_type_from_output_format("jpeg"), "image/jpeg");
    assert_eq!(mime_type_from_output_format("WebP"), "image/webp");
    assert_eq!(mime_type_from_output_format("gif"), "image/png");
}

#[test]
fn the_tool_has_the_settings_that_are_given() {
    let mut params = ImageToolParams {
        size: None,
        quality: None,
        background: None,
        output_format: None,
        output_compression: None,
        partial_images: None,
        input_fidelity: None,
        moderation: None,
        mask_image_url: None,
    };
    assert_eq!(
        to_value(&build_tool_json("generate", "m", &params)),
        value(r#"{"type":"image_generation","action":"generate","model":"m"}"#)
    );
    params.size = Some("1x1".to_string());
    params.quality = Some("low".to_string());
    params.background = Some("b".to_string());
    params.output_format = Some("png".to_string());
    params.output_compression = Some(50);
    params.partial_images = Some(2);
    params.input_fidelity = Some("high".to_string());
    params.moderation = Some("auto".to_string());
    params.mask_image_url = Some("u".to_string());
    assert_eq!(
        to_value(&build_tool_json("edit", "m", &params)),
        value(
            r#"{"type":"image_generation","action":"edit","model":"m","size":"1x1","quality":"low","background":"b","output_format":"png","output_compression":50,"partial_images":2,"input_fidelity":"high","moderation":"auto","input_image_mask":{"image_url":"u"}}"#
        )
    );
}

#[test]
fn the_request_holds_the_prompt_and_the_images() {
    let tool = read_json(r#"{"t":1}"#).unwrap();
    let images = vec![" a ".to_string(), "  ".to_string()];
    assert_eq!(
        to_value(&build_responses_request("p", &images, &tool, "main")),
        value(
            r#"{"model":"main","instructions":"","input":[{"type":"message","role":"user","content":[{"type":"input_text","text":"p"},{"type":"input_image","image_url":" a "}]}],"tools":[{"t":1}],"tool_choice":{"type":"image_generation"},"parallel_tool_calls":true,"include":["reasoning.encrypted_content"],"reasoning":{"effort":"medium","summary":"auto"},"stream":true,"store":false}"#
        )
    );
}

#[test]
fn finished_images_are_found() {
    let event = read_json(COMPLETED).unwrap();
    let images = extract_images_from_completed(&event);
    assert_eq!(images.len(), 2);
    assert_eq!(images[0].result, "QUJD");
    assert_eq!(images[0].revised_prompt, "cat");
    assert_eq!(images[1].output_format, "");
    assert_eq!(to_value(&extract_usage(&event).unwrap()), value(r#"{"total":5}"#));
    let none = read_json(r#"{"response":{"output":7}}"#).unwrap();
    assert!(extract_images_from_completed(&none).is_empty());
    assert!(extract_usage(&none).is_none());
}

#[test]
fn images_are_answered_in_the_format_asked_for() {
    let event = read_json(COMPLETED).unwrap();
    let images = extract_images_from_completed(&event);
    assert_eq!(
        to_value(&build_images_response(&images, "url", 9, &None)),
        value(
            r#"{"created":9,"data":[{"url":"data:image/webp;base64,QUJD","revised_prompt":"cat"},{"url":"data:image/png;base64,REVG"}],"background":"opaque","output_format":"webp","quality":"high","size":"1x1"}"#
        )
    );
    assert_eq!(
        to_value(&build_images_response(&vec![], "url", 9, &Some(Json::Null))),
        value(r#"{"created":9,"data":[]}"#)
    );
}

#[test]
fn images_are_collected() {
    let body = collect_images_at(completed_line().as_bytes(), "b64_json", 1).unwrap();
    assert_eq!(
        to_value(&body),
        value(
            r#"{"created":77,"data":[{"b64_json":"QUJD","revised_prompt":"cat"},{"b64_json":"REVG"}],"background":"opaque","output_format":"webp","quality":"high","size":"1x1","usage":{"total":5}}"#
        )
    );
    assert_eq!(
        collect_images(b"data: {\"type\":\"response.completed\"}\n", "url").unwrap_err(),
        "Upstream did not return image output"
    );
}

#[test]
fn images_are_streamed() {
    let partial = "data: {\"type\":\"response.image_generation_call.partial_image\",\"partial_image_b64\":\"QQ\",\"partial_image_index\":3,\"output_format\":\"jpg\"}\n";
    assert_eq!(
        stream_images(partial.as_bytes(), "url", "image_edit"),
        "event: image_edit.partial_image\ndata: {\"partial_image_index\":3,\"type\":\"image_edit.partial_image\",\"url\":\"data:image/jpeg;base64,QQ\"}\n\n"
    );
    let text = stream_images(completed_line().as_bytes(), "b64_json", "image_generation");
    let events: Vec<&str> = text.split("\n\n").filter(|s| !s.is_empty()).collect();
    assert_eq!(events.len(), 2);
    assert!(events[0].starts_with("event: image_generation.completed\ndata: "));
    let data = events[0].split("data: ").nth(1).unwrap();
    assert_eq!(
        value(data),
        value(
            r#"{"type":"image_generation.completed","b64_json":"QUJD","revised_prompt":"cat","usage":{"total":5}}"#
        )
    );
    assert_eq!(
        stream_images(b"data: {\"type\":\"response.completed\"}\n", "url", "x"),
        "event: error\ndata: {\"error\":{\"message\":\"Upstream did not return image output\"}}\n\n"
    );
    assert_eq!(stream_images(b"data: {\"type\":\"response.image_generation_call.partial_image\",\"partial_image_b64\":\" \"}\n", "url", "x"), "");
    assert_eq!(stream_images(b"data: [DONE]\n", "url", "x"), "");
    assert_eq!(
        image_stream_failure("cut"),
        "event: error\ndata: {\"error\":{\"message\":\"Stream error: cut\"}}\n\n"
    );
}

#[test]
fn generations_are_planned() {
    let mut req = generation("  a cat ");
    req.model = Some("pre/img".to_string());
    req.response_format = Some("URL".to_string());
    req.stream = Some(true);
    req.size = Some("2x2".to_string());
    let plan = plan_generation(&req).unwrap();
    assert_eq!((plan.response_format.as_str(), plan.stream, plan.prefix), ("url", true, "image_generation"));
    let body = to_value(&plan.body);
    assert_eq!(body["model"], "pre/gpt-5.4-mini");
    assert_eq!(body["input"][0]["content"][0]["text"], "a cat");
    assert_eq!(body["tools"][0]["action"], "generate");
    assert_eq!(body["tools"][0]["model"], "pre/img");
    assert_eq!(body["tools"][0]["size"], "2x2");
    assert_eq!(
        plan_generation(&generation(" \n")).unwrap_err(),
        "prompt is required"
    );
}

#[test]
fn edits_are_planned() {
    let mut req = edit("p", &[" u1 ", " ", "u2"]);
    req.mask = Some(MaskInput {
        image_url: Some(" m ".to_string()),
    });
    let plan = plan_edit(&req).unwrap();
    assert_eq!((plan.stream, plan.prefix), (false, "image_edit"));
    let body = to_value(&plan.body);
    assert_eq!(body["input"][0]["content"][1]["image_url"], "u1");
    assert_eq!(body["input"][0]["content"][2]["image_url"], "u2");
    assert_eq!(body["tools"][0]["action"], "edit");
    assert_eq!(body["tools"][0]["input_image_mask"]["image_url"], "m");
    req.mask = Some(MaskInput {
        image_url: Some(" ".to_string()),
    });
    let body = to_value(&plan_edit(&req).unwrap().body);
    assert!(body["tools"][0].get("input_image_mask").is_none());
    assert_eq!(
        plan_edit(&edit("p", &[" "])).unwrap_err(),
        "images[].image_url is required"
    );
    assert_eq!(plan_edit(&edit("", &["u"])).unwrap_err(), "prompt is required");
}

fn form() -> String {
    [
        "--b\r\nContent-Disposition: form-data; name=\"prompt\"\r\n\r\n a cat \r\n",
        "--b\r\nContent-Disposition: form-data; name=\"image\"; filename=\"a.png\"\r\nContent-Type: image/png\r\n\r\nABC\r\n",
        "--b\r\nContent-Disposition: form-data; name=\"stream\"\r\n\r\ntrue\r\n",
        "--b\r\nContent-Disposition: form-data; name=\"partial_images\"\r\n\r\n 2\r\n",
        "--b--\r\n",
    ]
    .concat()
}

#[test]
fn forms_are_parsed() {
    let fields = parse_multipart(form().as_bytes(), "b");
    assert_eq!(fields.get("prompt"), Some(" a cat"));
    assert_eq!(fields.get("image"), Some("data:image/png;base64,QUJD"));
    assert_eq!(fields.get("none"), None);
    let fields = parse_multipart(
        b"--b\nContent-Disposition: form-data; name=\"f\"; filename=\"x\"\n\nA\n--b\nContent-Disposition: form-data; name=\"k\"\n\n1\n--b\nContent-Disposition: form-data; name=\"k\"\n\n2--\n--b\nX: y\n\nlost\n--b--",
        "b",
    );
    assert_eq!(fields.get("f"), Some("data:application/octet-stream;base64,QQ=="));
    assert_eq!(fields.get("k"), Some("2"));
    assert_eq!(fields.entries.len(), 3);
}

#[test]
fn form_edits_are_planned() {
    let plan = plan_edit_form(form().as_bytes(), Some("b")).unwrap();
    assert!(plan.stream);
    assert_eq!(plan.response_format, "b64_json");
    let body = to_value(&plan.body);
    assert_eq!(body["model"], "gpt-5.4-mini");
    assert_eq!(body["input"][0]["content"][0]["text"], "a cat");
    assert_eq!(
        body["input"][0]["content"][1]["image_url"],
        "data:image/png;base64,QUJD"
    );
    assert_eq!(body["tools"][0]["partial_images"], 2);
    assert_eq!(
        plan_edit_form(b"", None).unwrap_err(),
        "Invalid Content-Type: missing multipart boundary"
    );
    assert_eq!(
        plan_edit_form(b"", Some("b")).unwrap_err(),
        "prompt is required"
    );
    let no_image = "--b\r\nContent-Disposition: form-data; name=\"prompt\"\r\n\r\np\r\n--b--";
    assert_eq!(
        plan_edit_form(no_image.as_bytes(), Some("b")).unwrap_err(),
        "image is required"
    );
}

#[test]
fn attributes_and_boundaries_are_found() {
    assert_eq!(
        extract_boundary("multipart/form-data; boundary=\"x y\"").as_deref(),
        Some("x y")
    );
    assert_eq!(extract_boundary("a; boundary=1; boundary=2").as_deref(), Some("1"));
    assert_eq!(extract_boundary("a"), None);
    assert_eq!(extract_attr("a; name=\"n\"; x", "name").as_deref(), Some("n"));
    assert_eq!(extract_attr("name=\"", "name"), None);
    assert_eq!(extract_attr("name=n", "name"), None);
    assert_eq!(extract_attr("filename=\"f\"", "name").as_deref(), Some("f"));
}

#[test]
fn content_types_tell_json_from_forms() {
    assert!(matches!(
        edit_kind(Some("Application/JSON; charset=utf-8")),
        EditKind::Json
    ));
    let boundary = |header: Option<&str>| match edit_kind(header) {
        EditKind::Form(b) => b,
        EditKind::Json => panic!("not a form"),
    };
    assert_eq!(boundary(Some("multipart/form-data; boundary=AbC")).as_deref(), Some("AbC"));
    assert_eq!(boundary(Some("Multipart/Form-Data; Boundary=\"AbC\"")).as_deref(), Some("AbC"));
    assert_eq!(boundary(Some("multipart/form-data")), None);
    assert_eq!(boundary(None), None);
    assert!(is_json_content("application/json") && !is_json_content("text/plain"));
}

#[test]
fn a_boundary_with_capitals_is_found_in_the_body() {
    let body = "--AbC\r\nContent-Disposition: form-data; name=\"prompt\"\r\n\r\np\r\n\
        --AbC\r\nContent-Disposition: form-data; name=\"image\"; filename=\"a.png\"\r\n\r\nX\r\n--AbC--\r\n";
    let boundary = match edit_kind(Some("multipart/form-data; boundary=AbC")) {
        EditKind::Form(b) => b,
        EditKind::Json => panic!("not a form"),
    };
    let plan = plan_edit_form(body.as_bytes(), boundary.as_deref()).unwrap();
    let sent = to_value(&plan.body);
    assert_eq!(sent["input"][0]["content"][0]["text"], "p");
    assert_eq!(sent["input"][0]["content"].as_array().unwrap().len(), 2);
    assert_eq!(sent["tools"][0]["action"], "edit");
}

fn upload(content: &[u8]) -> Option<String> {
    let mut body = b"--B\r\nContent-Disposition: form-data; name=\"image\"; filename=\"a.png\"\r\nContent-Type: image/png\r\n\r\n".to_vec();
    body.extend_from_slice(content);
    body.extend_from_slice(b"\r\n--B--\r\n");
    parse_multipart(&body, "B").get_owned("image")
}

#[test]
fn uploaded_bytes_come_through() {
    assert_eq!(upload(b"\x89P").as_deref(), Some("data:image/png;base64,iVA="));
    for content in [
        &b" -- \r\n"[..],
        &b"\r\n\r\n--\n"[..],
        &b"\x89PNG\r\n\x1a\n\0\xff\xc3"[..],
    ] {
        let url = upload(content).unwrap();
        let data = url.strip_prefix("data:image/png;base64,").unwrap();
        assert_eq!(STANDARD.decode(data).unwrap(), content);
    }
}

#[test]
fn empty_uploads_are_left_out() {
    for content in [&b""[..], &b"  \t"[..], &b"\r\n\r\n"[..]] {
        assert_eq!(upload(content), None);
    }
    let body = b"--B\r\nContent-Disposition: form-data; name=\"prompt\"\r\n\r\np\r\n--B\r\nContent-Disposition: form-data; name=\"image\"; filename=\"\"\r\nContent-Type: application/octet-stream\r\n\r\n\r\n--B--\r\n";
    match plan_edit_form(body, Some("B")) {
        Err(message) => assert_eq!(message, "image is required"),
        Ok(_) => panic!("an empty upload is no image"),
    }
}

#[test]
fn white_space_around_a_part_makes_no_blank_line() {
    let fields = parse_multipart(
        b"--b\r\n\r\nContent-Disposition: form-data; name=\"prompt\"\r\n\r\nhi\r\n--b--\r\n",
        "b",
    );
    assert_eq!(fields.get("prompt"), Some("hi"));
    let fields = parse_multipart(
        b"--b\nContent-Disposition: form-data; name=\"f\"; filename=\"x\"\n\nab\r\n\r\n--b--\n",
        "b",
    );
    assert_eq!(
        fields.get("f"),
        Some("data:application/octet-stream;base64,YWINCg==")
    );
}

#[test]
fn of_two_parts_in_one_field_the_later_counts() {
    let fields = parse_multipart(
        b"x--b\r\nContent-Disposition: form-data; name=\"f\"\r\n\r\none\r\n--b\r\nContent-Disposition: form-data; name=\"f\"; filename=\"x\"\r\n\r\n-b--\r\n--b--\r\n",
        "b",
    );
    assert_eq!(
        fields.get("f"),
        Some("data:application/octet-stream;base64,LWItLQ==")
    );
}

#[test]
fn blank_text_fields_are_left_out() {
    let fields = parse_multipart(
        b"--b\r\nContent-Disposition: form-data; name=\"size\"\r\n\r\n \r\n--b\r\nContent-Disposition: form-data; name=\"model\"\r\n\r\nm \r\n--b--\r\n",
        "b",
    );
    assert_eq!(fields.get("size"), None);
    assert_eq!(fields.get("model"), Some("m"));
}

#[test]
fn the_upstreams_status_decides_the_answer() {
    assert_eq!(image_answer(429, true), ImageAnswer::Error(429));
    assert_eq!(image_answer(500, false), ImageAnswer::Error(500));
    assert_eq!(image_answer(199, true), ImageAnswer::Error(199));
    assert_eq!(image_answer(300, true), ImageAnswer::Error(300));
    assert_eq!(image_answer(200, true), ImageAnswer::Stream);
    assert_eq!(image_answer(299, false), ImageAnswer::Collect);
}

#[test]
fn cutting_an_image_stream_anywhere_changes_nothing() {
    let raw = format!("{}data: [DONE]", completed_line());
    let raw = raw.as_bytes();
    let whole = stream_images(raw, "url", "image_edit");
    for at in 0..raw.len() {
        let mut s = ImageStream::new("url", "image_edit");
        let mut out = s.on_chunk(&raw[..at]);
        out.push_str(&s.on_chunk(&raw[at..]));
        out.push_str(&s.on_end());
        assert_eq!(out, whole);
        assert_eq!(s.on_end(), "");
    }
    let line = completed_line();
    let open = line.trim_end().as_bytes();
    let mut s = ImageStream::new("url", "image_edit");
    assert_eq!(s.on_chunk(open), "");
    assert_eq!(s.on_end(), stream_images(open, "url", "image_edit"));
}
