//! The image endpoints: requests turned into Responses requests with an
//! image-generation tool, and the upstream's events turned into images.

use vstd::prelude::*;

use crate::bytes::{
    flat, lemma_last_feed, lemma_whole_lines_cut, open_line, take_whole_lines, whole_lines,
    LINE_FEED,
};
use crate::clock::now_epoch;
use crate::errors::{error_body, error_of};
use crate::flow::is_success;
use crate::image_laws::{
    does_edit, does_form, does_generation, law_edit_is_planned_as_asked,
    law_form_is_planned_as_asked, law_generation_is_planned_as_asked,
};
use crate::json::{
    array_of, entries_view, items_view, lemma_items_push, opt_owned, put, Json, JsonNumber,
    JsonSpec, NumberSpec,
};
use crate::json_codec::{json_text, write_json};
use crate::multipart::{
    boundary_of, extract_boundary, field, form_of, parse_multipart, FormFields,
};
use crate::sse::{body_events, law_lines_split, read_body_events};
use crate::text::{
    bool_text, chars_of, concat, concat3, contains, contains_text, copy_opt, is_empty, lowercase,
    opt_str_view, opt_view, parse_bool, parse_u64, rfind_char, rfind_chars, str_eq,
    string_of_range, texts, trim, trimmed, u64_text,
};

verus! {

pub const DEFAULT_IMAGES_MAIN_MODEL: &'static str = "gpt-5.4-mini";

pub const DEFAULT_IMAGES_TOOL_MODEL: &'static str = "gpt-image-2";

// ---- requests ---------------------------------------------------------

/// A request to generate images.
#[derive(Debug)]
pub struct ImagesGenerationsRequest {
    pub prompt: String,
    pub model: Option<String>,
    pub n: Option<u64>,
    pub size: Option<String>,
    pub quality: Option<String>,
    pub background: Option<String>,
    pub output_format: Option<String>,
    pub output_compression: Option<u64>,
    pub response_format: Option<String>,
    pub stream: Option<bool>,
    pub partial_images: Option<u64>,
    pub moderation: Option<String>,
}

/// A request to edit images, as JSON.
#[derive(Debug)]
pub struct ImagesEditsJsonRequest {
    pub prompt: String,
    pub images: Vec<InputImage>,
    pub model: Option<String>,
    pub size: Option<String>,
    pub quality: Option<String>,
    pub background: Option<String>,
    pub output_format: Option<String>,
    pub output_compression: Option<u64>,
    pub input_fidelity: Option<String>,
    pub response_format: Option<String>,
    pub stream: Option<bool>,
    pub partial_images: Option<u64>,
    pub moderation: Option<String>,
    pub mask: Option<MaskInput>,
}

#[derive(Debug)]
pub struct InputImage {
    pub image_url: String,
}

#[derive(Debug)]
pub struct MaskInput {
    pub image_url: Option<String>,
}

/// The settings of the image-generation tool.
#[derive(Debug)]
pub struct ImageToolParams {
    pub size: Option<String>,
    pub quality: Option<String>,
    pub background: Option<String>,
    pub output_format: Option<String>,
    pub output_compression: Option<u64>,
    pub partial_images: Option<u64>,
    pub input_fidelity: Option<String>,
    pub moderation: Option<String>,
    pub mask_image_url: Option<String>,
}

/// What the settings of the tool are.
#[verifier::ext_equal]
pub struct ParamsSpec {
    pub size: Option<Seq<char>>,
    pub quality: Option<Seq<char>>,
    pub background: Option<Seq<char>>,
    pub output_format: Option<Seq<char>>,
    pub output_compression: Option<u64>,
    pub partial_images: Option<u64>,
    pub input_fidelity: Option<Seq<char>>,
    pub moderation: Option<Seq<char>>,
    pub mask_image_url: Option<Seq<char>>,
}

impl View for ImageToolParams {
    type V = ParamsSpec;

    open spec fn view(&self) -> ParamsSpec {
        ParamsSpec {
            size: opt_view(self.size),
            quality: opt_view(self.quality),
            background: opt_view(self.background),
            output_format: opt_view(self.output_format),
            output_compression: self.output_compression,
            partial_images: self.partial_images,
            input_fidelity: opt_view(self.input_fidelity),
            moderation: opt_view(self.moderation),
            mask_image_url: opt_view(self.mask_image_url),
        }
    }
}

// ---- models and formats -----------------------------------------------

/// The image model: the one asked for, else the default.
pub open spec fn image_model_of(requested: Option<Seq<char>>) -> Seq<char> {
    match requested {
        Some(m) if trim(m).len() > 0 => trim(m),
        _ => DEFAULT_IMAGES_TOOL_MODEL@,
    }
}

/// The model that drives the tool: the default, behind what precedes the last
/// slash of the image model.
pub open spec fn main_model_of(image_model: Seq<char>) -> Seq<char> {
    match rfind_char(image_model, '/') {
        Some(i) if trim(image_model.take(i)).len() > 0 => trim(image_model.take(i)) + "/"@
            + DEFAULT_IMAGES_MAIN_MODEL@,
        _ => DEFAULT_IMAGES_MAIN_MODEL@,
    }
}

/// The format of the response: the one asked for, in lower case, else `b64_json`.
pub open spec fn response_format_of(fmt: Option<Seq<char>>) -> Seq<char> {
    match fmt {
        Some(f) if trim(f).len() > 0 => lowercase(trim(f)),
        _ => "b64_json"@,
    }
}

/// The media type of an image, given its format in lower case.
pub open spec fn mime_of_lower(lower: Seq<char>) -> Seq<char> {
    let t = trim(lower);
    if t == "jpg"@ || t == "jpeg"@ {
        "image/jpeg"@
    } else if t == "webp"@ {
        "image/webp"@
    } else {
        "image/png"@
    }
}

/// The media type of an image.
pub open spec fn mime_of(fmt: Seq<char>) -> Seq<char> {
    mime_of_lower(lowercase(fmt))
}

/// The image model: the one asked for, else the default.
pub fn resolve_image_model(requested: Option<&str>) -> (r: String)
    ensures
        r@ == image_model_of(opt_str_view(requested)),
{
    match requested {
        Some(m) => {
            let t = trimmed(m);
            if is_empty(t.as_str()) {
                DEFAULT_IMAGES_TOOL_MODEL.to_owned()
            } else {
                t
            }
        },
        None => DEFAULT_IMAGES_TOOL_MODEL.to_owned(),
    }
}

/// The model that drives the tool.
pub fn resolve_main_model(image_model: &str) -> (r: String)
    ensures
        r@ == main_model_of(image_model@),
{
    let v = chars_of(image_model);
    match rfind_chars(&v, '/') {
        Some(i) => {
            let head = string_of_range(&v, 0, i);
            proof {
                assert(image_model@.subrange(0, i as int) =~= image_model@.take(i as int));
            }
            let prefix = trimmed(head.as_str());
            if is_empty(prefix.as_str()) {
                DEFAULT_IMAGES_MAIN_MODEL.to_owned()
            } else {
                concat3(prefix.as_str(), "/", DEFAULT_IMAGES_MAIN_MODEL)
            }
        },
        None => DEFAULT_IMAGES_MAIN_MODEL.to_owned(),
    }
}

/// The format of the response.
pub fn resolve_response_format(fmt: Option<&str>) -> (r: String)
    ensures
        r@ == response_format_of(opt_str_view(fmt)),
{
    match fmt {
        Some(f) => {
            let t = trimmed(f);
            if is_empty(t.as_str()) {
                "b64_json".to_owned()
            } else {
                t.as_str().to_lowercase()
            }
        },
        None => "b64_json".to_owned(),
    }
}

/// The media type of an image, given its format in lower case.
pub fn mime_type_of_lower(lower: &str) -> (r: &'static str)
    ensures
        r@ == mime_of_lower(lower@),
{
    let t = trimmed(lower);
    if str_eq(t.as_str(), "jpg") || str_eq(t.as_str(), "jpeg") {
        "image/jpeg"
    } else if str_eq(t.as_str(), "webp") {
        "image/webp"
    } else {
        "image/png"
    }
}

/// The media type of an image.
pub fn mime_type_from_output_format(fmt: &str) -> (r: &'static str)
    ensures
        r@ == mime_of(fmt@),
{
    let lower = fmt.to_lowercase();
    mime_type_of_lower(lower.as_str())
}

// ---- the request to the upstream --------------------------------------

/// The fields with a text, where there is one.
pub open spec fn with_text(
    m: Map<Seq<char>, JsonSpec>,
    key: Seq<char>,
    text: Option<Seq<char>>,
) -> Map<Seq<char>, JsonSpec> {
    match text {
        Some(t) => m.insert(key, JsonSpec::Str(t)),
        None => m,
    }
}

/// The fields with a number, where there is one.
pub open spec fn with_number(
    m: Map<Seq<char>, JsonSpec>,
    key: Seq<char>,
    n: Option<u64>,
) -> Map<Seq<char>, JsonSpec> {
    match n {
        Some(v) => m.insert(key, JsonSpec::Number(NumberSpec::Int(v as int))),
        None => m,
    }
}

/// The fields with a mask, where there is one.
pub open spec fn with_mask(
    m: Map<Seq<char>, JsonSpec>,
    url: Option<Seq<char>>,
) -> Map<Seq<char>, JsonSpec> {
    match url {
        Some(u) => m.insert(
            "input_image_mask"@,
            JsonSpec::Object(map!["image_url"@ => JsonSpec::Str(u)]),
        ),
        None => m,
    }
}

/// The fields of the image-generation tool.
pub open spec fn tool_fields(
    action: Seq<char>,
    image_model: Seq<char>,
    p: ParamsSpec,
) -> Map<Seq<char>, JsonSpec> {
    let t = map![
        "type"@ => JsonSpec::Str("image_generation"@),
        "action"@ => JsonSpec::Str(action),
        "model"@ => JsonSpec::Str(image_model),
    ];
    let t = with_text(t, "size"@, p.size);
    let t = with_text(t, "quality"@, p.quality);
    let t = with_text(t, "background"@, p.background);
    let t = with_text(t, "output_format"@, p.output_format);
    let t = with_number(t, "output_compression"@, p.output_compression);
    let t = with_number(t, "partial_images"@, p.partial_images);
    let t = with_text(t, "input_fidelity"@, p.input_fidelity);
    let t = with_text(t, "moderation"@, p.moderation);
    with_mask(t, p.mask_image_url)
}

/// Adds a text, where there is one.
fn put_text(entries: &mut Vec<(String, Json)>, key: &str, text: &Option<String>)
    ensures
        entries_view(final(entries)@) == with_text(
            entries_view(old(entries)@),
            key@,
            opt_view(*text),
        ),
{
    match text {
        Some(t) => put(entries, key, Json::text(t.as_str())),
        None => {},
    }
}

/// Adds a number, where there is one.
fn put_number(entries: &mut Vec<(String, Json)>, key: &str, n: Option<u64>)
    ensures
        entries_view(final(entries)@) == with_number(entries_view(old(entries)@), key@, n),
{
    match n {
        Some(v) => put(entries, key, Json::Number(JsonNumber::Unsigned(v))),
        None => {},
    }
}

/// The image-generation tool.
pub fn build_tool_json(action: &str, image_model: &str, params: &ImageToolParams) -> (r: Json)
    ensures
        r@ == JsonSpec::Object(tool_fields(action@, image_model@, params@)),
{
    let mut t: Vec<(String, Json)> = Vec::new();
    put(&mut t, "type", Json::text("image_generation"));
    put(&mut t, "action", Json::text(action));
    put(&mut t, "model", Json::text(image_model));
    put_text(&mut t, "size", &params.size);
    put_text(&mut t, "quality", &params.quality);
    put_text(&mut t, "background", &params.background);
    put_text(&mut t, "output_format", &params.output_format);
    put_number(&mut t, "output_compression", params.output_compression);
    put_number(&mut t, "partial_images", params.partial_images);
    put_text(&mut t, "input_fidelity", &params.input_fidelity);
    put_text(&mut t, "moderation", &params.moderation);
    match &params.mask_image_url {
        Some(u) => {
            let mut mask: Vec<(String, Json)> = Vec::new();
            put(&mut mask, "image_url", Json::text(u.as_str()));
            put(&mut t, "input_image_mask", Json::Object(mask));
        },
        None => {},
    }
    Json::Object(t)
}

/// The part that holds the prompt.
pub open spec fn prompt_part(prompt: Seq<char>) -> JsonSpec {
    JsonSpec::Object(
        map!["type"@ => JsonSpec::Str("input_text"@), "text"@ => JsonSpec::Str(prompt)],
    )
}

/// The part that names an image.
pub open spec fn input_image_part(url: Seq<char>) -> JsonSpec {
    JsonSpec::Object(
        map!["type"@ => JsonSpec::Str("input_image"@), "image_url"@ => JsonSpec::Str(url)],
    )
}

/// The parts of the message: the prompt, then the images that have an address.
pub open spec fn image_content(prompt: Seq<char>, images: Seq<Seq<char>>) -> Seq<JsonSpec>
    decreases images.len(),
{
    if images.len() == 0 {
        seq![prompt_part(prompt)]
    } else if trim(images.last()).len() > 0 {
        image_content(prompt, images.drop_last()).push(input_image_part(images.last()))
    } else {
        image_content(prompt, images.drop_last())
    }
}

/// The request to the upstream for images.
pub open spec fn image_request(
    prompt: Seq<char>,
    images: Seq<Seq<char>>,
    tool: JsonSpec,
    main_model: Seq<char>,
) -> JsonSpec {
    JsonSpec::Object(
        map![
            "model"@ => JsonSpec::Str(main_model),
            "instructions"@ => JsonSpec::Str(seq![]),
            "input"@ => JsonSpec::Array(seq![
                JsonSpec::Object(map![
                    "type"@ => JsonSpec::Str("message"@),
                    "role"@ => JsonSpec::Str("user"@),
                    "content"@ => JsonSpec::Array(image_content(prompt, images)),
                ]),
            ]),
            "tools"@ => JsonSpec::Array(seq![tool]),
            "tool_choice"@ => JsonSpec::Object(
                map!["type"@ => JsonSpec::Str("image_generation"@)],
            ),
            "parallel_tool_calls"@ => JsonSpec::Bool(true),
            "include"@ => JsonSpec::Array(seq![JsonSpec::Str("reasoning.encrypted_content"@)]),
            "reasoning"@ => JsonSpec::Object(map![
                "effort"@ => JsonSpec::Str("medium"@),
                "summary"@ => JsonSpec::Str("auto"@),
            ]),
            "stream"@ => JsonSpec::Bool(true),
            "store"@ => JsonSpec::Bool(false),
        ],
    )
}

/// The message with the prompt and the images.
fn make_image_message(prompt: &str, images: &Vec<String>) -> (r: Json)
    ensures
        r@ == JsonSpec::Object(
            map![
                "type"@ => JsonSpec::Str("message"@),
                "role"@ => JsonSpec::Str("user"@),
                "content"@ => JsonSpec::Array(image_content(prompt@, texts(images@))),
            ],
        ),
{
    let ghost all = texts(images@);
    let mut part: Vec<(String, Json)> = Vec::new();
    put(&mut part, "type", Json::text("input_text"));
    put(&mut part, "text", Json::text(prompt));
    let mut content: Vec<Json> = Vec::new();
    content.push(Json::Object(part));
    proof {
        assert(items_view(content@) =~= image_content(prompt@, all.take(0)));
    }
    let mut i: usize = 0;
    while i < images.len()
        invariant
            i <= images@.len(),
            all == texts(images@),
            items_view(content@) == image_content(prompt@, all.take(i as int)),
        decreases images@.len() - i,
    {
        proof {
            assert(all.take(i + 1).drop_last() =~= all.take(i as int));
            assert(all.take(i + 1).last() == images@[i as int]@);
        }
        let t = trimmed(images[i].as_str());
        if !is_empty(t.as_str()) {
            let mut e: Vec<(String, Json)> = Vec::new();
            put(&mut e, "type", Json::text("input_image"));
            put(&mut e, "image_url", Json::text(images[i].as_str()));
            let item = Json::Object(e);
            proof {
                lemma_items_push(content@, item);
            }
            content.push(item);
        }
        i = i + 1;
    }
    proof {
        assert(all.take(all.len() as int) =~= all);
    }
    let mut message: Vec<(String, Json)> = Vec::new();
    put(&mut message, "type", Json::text("message"));
    put(&mut message, "role", Json::text("user"));
    put(&mut message, "content", Json::Array(content));
    Json::Object(message)
}

/// The request to the upstream for images.
pub fn build_responses_request(
    prompt: &str,
    images: &Vec<String>,
    tool_json: &Json,
    main_model: &str,
) -> (r: Json)
    ensures
        r@ == image_request(prompt@, texts(images@), tool_json@, main_model@),
{
    let mut choice: Vec<(String, Json)> = Vec::new();
    put(&mut choice, "type", Json::text("image_generation"));
    let mut reasoning: Vec<(String, Json)> = Vec::new();
    put(&mut reasoning, "effort", Json::text("medium"));
    put(&mut reasoning, "summary", Json::text("auto"));
    proof {
        reveal_strlit("");
        assert(""@ =~= seq![]);
    }
    let mut body: Vec<(String, Json)> = Vec::new();
    put(&mut body, "model", Json::text(main_model));
    put(&mut body, "instructions", Json::text(""));
    put(&mut body, "input", array_of(make_image_message(prompt, images)));
    put(&mut body, "tools", array_of(tool_json.clone()));
    put(&mut body, "tool_choice", Json::Object(choice));
    put(&mut body, "parallel_tool_calls", Json::Bool(true));
    put(&mut body, "include", array_of(Json::text("reasoning.encrypted_content")));
    put(&mut body, "reasoning", Json::Object(reasoning));
    put(&mut body, "stream", Json::Bool(true));
    put(&mut body, "store", Json::Bool(false));
    Json::Object(body)
}

// ---- images in the upstream's events ----------------------------------

/// An image that the upstream made.
#[derive(Debug)]
pub struct ImageCallResult {
    pub result: String,
    pub revised_prompt: String,
    pub output_format: String,
    pub size: String,
    pub background: String,
    pub quality: String,
}

/// What an image that the upstream made is.
#[verifier::ext_equal]
pub struct ImageSpec {
    pub result: Seq<char>,
    pub revised_prompt: Seq<char>,
    pub output_format: Seq<char>,
    pub size: Seq<char>,
    pub background: Seq<char>,
    pub quality: Seq<char>,
}

impl View for ImageCallResult {
    type V = ImageSpec;

    open spec fn view(&self) -> ImageSpec {
        ImageSpec {
            result: self.result@,
            revised_prompt: self.revised_prompt@,
            output_format: self.output_format@,
            size: self.size@,
            background: self.background@,
            quality: self.quality@,
        }
    }
}

/// What several images are.
pub open spec fn images_view(v: Seq<ImageCallResult>) -> Seq<ImageSpec> {
    v.map_values(|i: ImageCallResult| i@)
}

/// The image of an output item: a finished call of the tool with data in it.
pub open spec fn image_of(item: JsonSpec) -> Option<ImageSpec> {
    match item.get_str("result"@) {
        Some(result) => if item.get_str("type"@) == Some("image_generation_call"@) && trim(
            result,
        ).len() > 0 {
            Some(
                ImageSpec {
                    result,
                    revised_prompt: item.str_or_empty("revised_prompt"@),
                    output_format: item.str_or_empty("output_format"@),
                    size: item.str_or_empty("size"@),
                    background: item.str_or_empty("background"@),
                    quality: item.str_or_empty("quality"@),
                },
            )
        } else {
            None
        },
        None => None,
    }
}

/// The images of several output items.
pub open spec fn images_of(items: Seq<JsonSpec>) -> Seq<ImageSpec>
    decreases items.len(),
{
    if items.len() == 0 {
        seq![]
    } else {
        match image_of(items.last()) {
            Some(i) => images_of(items.drop_last()).push(i),
            None => images_of(items.drop_last()),
        }
    }
}

/// The images of a completed response.
pub open spec fn completed_images(payload: JsonSpec) -> Seq<ImageSpec> {
    match payload.get2("response"@, "output"@) {
        Some(JsonSpec::Array(items)) => images_of(items),
        _ => seq![],
    }
}

/// The usage that a completed response reports.
pub open spec fn image_usage(payload: JsonSpec) -> Option<JsonSpec> {
    match payload.get2("response"@, "tool_usage"@) {
        Some(u) => u.get("image_gen"@),
        None => None,
    }
}

/// The image of an output item.
fn read_image(item: &Json) -> (r: Option<ImageCallResult>)
    ensures
        match r {
            Some(i) => image_of(item@) == Some(i@),
            None => image_of(item@) is None,
        },
{
    match item.get_str("result") {
        Some(result) => {
            let t = trimmed(result);
            if item.has_str("type", "image_generation_call") && !is_empty(t.as_str()) {
                Some(
                    ImageCallResult {
                        result: result.to_owned(),
                        revised_prompt: item.str_or_empty("revised_prompt"),
                        output_format: item.str_or_empty("output_format"),
                        size: item.str_or_empty("size"),
                        background: item.str_or_empty("background"),
                        quality: item.str_or_empty("quality"),
                    },
                )
            } else {
                None
            }
        },
        None => None,
    }
}

/// The images of a completed response.
pub fn extract_images_from_completed(payload: &Json) -> (r: Vec<ImageCallResult>)
    ensures
        images_view(r@) == completed_images(payload@),
{
    let mut out: Vec<ImageCallResult> = Vec::new();
    proof {
        assert(images_view(out@) =~= seq![]);
    }
    match payload.get2("response", "output") {
        Some(Json::Array(items)) => {
            let ghost all = items_view(items@);
            let mut i: usize = 0;
            while i < items.len()
                invariant
                    i <= items@.len(),
                    all == items_view(items@),
                    images_view(out@) == images_of(all.take(i as int)),
                decreases items@.len() - i,
            {
                proof {
                    assert(all.take(i + 1).drop_last() =~= all.take(i as int));
                    assert(all.take(i + 1).last() == items@[i as int]@);
                }
                match read_image(&items[i]) {
                    Some(image) => {
                        let ghost before = out@;
                        out.push(image);
                        proof {
                            assert(images_view(out@) =~= images_view(before).push(image@));
                        }
                    },
                    None => {},
                }
                i = i + 1;
            }
            proof {
                assert(all.take(all.len() as int) =~= all);
            }
        },
        _ => {},
    }
    out
}

/// The usage that a completed response reports.
pub fn extract_usage(payload: &Json) -> (r: Option<Json>)
    ensures
        opt_owned(r) == image_usage(payload@),
{
    match payload.get2("response", "tool_usage") {
        Some(u) => match u.get("image_gen") {
            Some(g) => Some(g.clone()),
            None => None,
        },
        None => None,
    }
}

// ---- the answer -------------------------------------------------------

/// An image as a data URL.
pub open spec fn data_url(mime: Seq<char>, data: Seq<char>) -> Seq<char> {
    "data:"@ + mime + ";base64,"@ + data
}

/// The fields with the data of an image, as a URL or bare.
pub open spec fn with_image(
    m: Map<Seq<char>, JsonSpec>,
    response_format: Seq<char>,
    output_format: Seq<char>,
    data: Seq<char>,
) -> Map<Seq<char>, JsonSpec> {
    if response_format == "url"@ {
        m.insert("url"@, JsonSpec::Str(data_url(mime_of(output_format), data)))
    } else {
        m.insert("b64_json"@, JsonSpec::Str(data))
    }
}

/// The fields with a text, where it is not empty.
pub open spec fn with_filled(
    m: Map<Seq<char>, JsonSpec>,
    key: Seq<char>,
    text: Seq<char>,
) -> Map<Seq<char>, JsonSpec> {
    if text.len() > 0 {
        m.insert(key, JsonSpec::Str(text))
    } else {
        m
    }
}

/// The fields with a value, where there is one.
pub open spec fn with_value(
    m: Map<Seq<char>, JsonSpec>,
    key: Seq<char>,
    value: Option<JsonSpec>,
) -> Map<Seq<char>, JsonSpec> {
    match value {
        Some(v) => m.insert(key, v),
        None => m,
    }
}

/// An image in the answer.
pub open spec fn answer_image(image: ImageSpec, response_format: Seq<char>) -> JsonSpec {
    let m = with_image(Map::empty(), response_format, image.output_format, image.result);
    JsonSpec::Object(with_filled(m, "revised_prompt"@, image.revised_prompt))
}

/// The answer to a request for images. What the first image says of itself
/// stands for all.
pub open spec fn images_answer(
    images: Seq<ImageSpec>,
    response_format: Seq<char>,
    created: u64,
    usage: Option<JsonSpec>,
) -> JsonSpec {
    let m = map![
        "created"@ => JsonSpec::Number(NumberSpec::Int(created as int)),
        "data"@ => JsonSpec::Array(
            images.map_values(|i: ImageSpec| answer_image(i, response_format)),
        ),
    ];
    if images.len() == 0 {
        JsonSpec::Object(m)
    } else {
        let first = images[0];
        let m = with_filled(m, "background"@, first.background);
        let m = with_filled(m, "output_format"@, first.output_format);
        let m = with_filled(m, "quality"@, first.quality);
        let m = with_filled(m, "size"@, first.size);
        JsonSpec::Object(with_value(m, "usage"@, usage))
    }
}

/// Adds the data of an image, as a URL or bare.
fn put_image(
    entries: &mut Vec<(String, Json)>,
    response_format: &str,
    output_format: &str,
    data: &str,
)
    ensures
        entries_view(final(entries)@) == with_image(
            entries_view(old(entries)@),
            response_format@,
            output_format@,
            data@,
        ),
{
    if str_eq(response_format, "url") {
        let mime = mime_type_from_output_format(output_format);
        let mut url = concat3("data:", mime, ";base64,");
        url.append(data);
        put(entries, "url", Json::Str(url));
    } else {
        put(entries, "b64_json", Json::text(data));
    }
}

/// Adds a text, where it is not empty.
fn put_filled(entries: &mut Vec<(String, Json)>, key: &str, text: &str)
    ensures
        entries_view(final(entries)@) == with_filled(entries_view(old(entries)@), key@, text@),
{
    if !is_empty(text) {
        put(entries, key, Json::text(text));
    }
}

/// Adds a value, where there is one.
fn put_value(entries: &mut Vec<(String, Json)>, key: &str, value: &Option<Json>)
    ensures
        entries_view(final(entries)@) == with_value(
            entries_view(old(entries)@),
            key@,
            opt_owned(*value),
        ),
{
    match value {
        Some(v) => put(entries, key, v.clone()),
        None => {},
    }
}

/// The images in the answer.
fn make_answer_images(results: &Vec<ImageCallResult>, response_format: &str) -> (r: Vec<Json>)
    ensures
        items_view(r@) == images_view(results@).map_values(
            |i: ImageSpec| answer_image(i, response_format@),
        ),
{
    let ghost all = images_view(results@).map_values(
        |i: ImageSpec| answer_image(i, response_format@),
    );
    let mut out: Vec<Json> = Vec::new();
    let mut i: usize = 0;
    proof {
        assert(items_view(out@) =~= all.take(0));
    }
    while i < results.len()
        invariant
            i <= results@.len(),
            all == images_view(results@).map_values(
                |i: ImageSpec| answer_image(i, response_format@),
            ),
            items_view(out@) == all.take(i as int),
        decreases results@.len() - i,
    {
        let image = &results[i];
        let mut e: Vec<(String, Json)> = Vec::new();
        put_image(&mut e, response_format, image.output_format.as_str(), image.result.as_str());
        put_filled(&mut e, "revised_prompt", image.revised_prompt.as_str());
        let item = Json::Object(e);
        proof {
            lemma_items_push(out@, item);
            assert(all[i as int] == item@);
            assert(all.take(i + 1) =~= all.take(i as int).push(item@));
        }
        out.push(item);
        i = i + 1;
    }
    proof {
        assert(all.take(all.len() as int) =~= all);
    }
    out
}

/// The answer to a request for images.
pub fn build_images_response(
    results: &Vec<ImageCallResult>,
    response_format: &str,
    created: u64,
    usage: &Option<Json>,
) -> (r: Json)
    ensures
        r@ == images_answer(
            images_view(results@),
            response_format@,
            created,
            opt_owned(*usage),
        ),
{
    let mut resp: Vec<(String, Json)> = Vec::new();
    put(&mut resp, "created", Json::Number(JsonNumber::Unsigned(created)));
    put(&mut resp, "data", Json::Array(make_answer_images(results, response_format)));
    if results.len() > 0 {
        let first = &results[0];
        put_filled(&mut resp, "background", first.background.as_str());
        put_filled(&mut resp, "output_format", first.output_format.as_str());
        put_filled(&mut resp, "quality", first.quality.as_str());
        put_filled(&mut resp, "size", first.size.as_str());
        put_value(&mut resp, "usage", usage);
    }
    Json::Object(resp)
}

// ---- the answer in one piece ------------------------------------------

/// The time, images and usage of the last completed response among events.
#[verifier::ext_equal]
pub struct CollectedSpec {
    pub created: u64,
    pub images: Seq<ImageSpec>,
    pub usage: Option<JsonSpec>,
}

/// What several events give; `now` is the time where no response tells it.
pub open spec fn collected_images(events: Seq<JsonSpec>, now: u64) -> CollectedSpec
    decreases events.len(),
{
    if events.len() == 0 {
        CollectedSpec { created: now, images: seq![], usage: None }
    } else {
        let before = collected_images(events.drop_last(), now);
        let event = events.last();
        if event.get_str("type"@) == Some("response.completed"@) {
            CollectedSpec {
                created: match event.get2("response"@, "created_at"@) {
                    Some(v) => match v.as_u64() {
                        Some(t) => t,
                        None => before.created,
                    },
                    None => before.created,
                },
                images: completed_images(event),
                usage: image_usage(event),
            }
        } else {
            before
        }
    }
}

/// The answer to a request for images in one piece, made at a given time: the
/// images of the last completed response, or an error where it has none.
pub fn collect_images_at(raw: &[u8], response_format: &str, now: u64) -> (r: Result<Json, String>)
    ensures
        ({
            let c = collected_images(body_events(raw@), now);
            match r {
                Ok(j) => c.images.len() > 0 && j@ == images_answer(
                    c.images,
                    response_format@,
                    c.created,
                    c.usage,
                ),
                Err(e) => c.images.len() == 0 && e@ == "Upstream did not return image output"@,
            }
        }),
{
    let events = read_body_events(raw);
    collect_image_events(&events, response_format, now)
}

/// The answer to a request for images in one piece, from the upstream's events.
pub fn collect_image_events(events: &Vec<Json>, response_format: &str, now: u64) -> (r: Result<
    Json,
    String,
>)
    ensures
        ({
            let c = collected_images(items_view(events@), now);
            match r {
                Ok(j) => c.images.len() > 0 && j@ == images_answer(
                    c.images,
                    response_format@,
                    c.created,
                    c.usage,
                ),
                Err(e) => c.images.len() == 0 && e@ == "Upstream did not return image output"@,
            }
        }),
{
    let ghost all = items_view(events@);
    let mut results: Vec<ImageCallResult> = Vec::new();
    let mut created: u64 = now;
    let mut usage: Option<Json> = None;
    let mut i: usize = 0;
    proof {
        assert(images_view(results@) =~= collected_images(all.take(0), now).images);
    }
    while i < events.len()
        invariant
            i <= events@.len(),
            all == items_view(events@),
            images_view(results@) == collected_images(all.take(i as int), now).images,
            created == collected_images(all.take(i as int), now).created,
            opt_owned(usage) == collected_images(all.take(i as int), now).usage,
        decreases events@.len() - i,
    {
        let event = &events[i];
        proof {
            assert(all.take(i + 1).drop_last() =~= all.take(i as int));
            assert(all.take(i + 1).last() == event@);
        }
        if event.has_str("type", "response.completed") {
            match event.get2("response", "created_at") {
                Some(v) => match v.as_u64() {
                    Some(t) => {
                        created = t;
                    },
                    None => {},
                },
                None => {},
            }
            results = extract_images_from_completed(event);
            usage = extract_usage(event);
        }
        i = i + 1;
    }
    proof {
        assert(all.take(all.len() as int) =~= all);
        assert(images_view(results@).len() == results@.len());
    }
    if results.len() == 0 {
        return Err("Upstream did not return image output".to_owned());
    }
    Ok(build_images_response(&results, response_format, created, &usage))
}

/// The answer to a request for images in one piece, made now.
pub fn collect_images(raw: &[u8], response_format: &str) -> (r: Result<Json, String>)
    ensures
        exists|now: u64|
            ({
                let c = #[trigger] collected_images(body_events(raw@), now);
                match r {
                    Ok(j) => c.images.len() > 0 && j@ == images_answer(
                        c.images,
                        response_format@,
                        c.created,
                        c.usage,
                    ),
                    Err(e) => c.images.len() == 0 && e@
                        == "Upstream did not return image output"@,
                }
            }),
{
    collect_images_at(raw, response_format, now_epoch())
}

// ---- the answer as a stream -------------------------------------------

/// A named event with a payload.
pub open spec fn named_event(name: Seq<char>, payload: JsonSpec) -> Seq<char> {
    "event: "@ + name + "\ndata: "@ + json_text(payload) + "\n\n"@
}

/// The event for an image in the making; `prefix` names the endpoint.
pub open spec fn partial_event(
    event: JsonSpec,
    response_format: Seq<char>,
    prefix: Seq<char>,
) -> Seq<char> {
    match event.get_str("partial_image_b64"@) {
        Some(data) => if trim(data).len() > 0 {
            let name = prefix + ".partial_image"@;
            let index = match event.get_u64("partial_image_index"@) {
                Some(n) => n,
                None => 0,
            };
            let m = map![
                "type"@ => JsonSpec::Str(name),
                "partial_image_index"@ => JsonSpec::Number(NumberSpec::Int(index as int)),
            ];
            let m = with_image(m, response_format, event.str_or_empty("output_format"@), data);
            named_event(name, JsonSpec::Object(m))
        } else {
            seq![]
        },
        None => seq![],
    }
}

/// The event for a finished image.
pub open spec fn completed_event(
    image: ImageSpec,
    usage: Option<JsonSpec>,
    response_format: Seq<char>,
    prefix: Seq<char>,
) -> Seq<char> {
    let name = prefix + ".completed"@;
    let m = map!["type"@ => JsonSpec::Str(name)];
    let m = with_image(m, response_format, image.output_format, image.result);
    let m = with_filled(m, "revised_prompt"@, image.revised_prompt);
    named_event(name, JsonSpec::Object(with_value(m, "usage"@, usage)))
}

/// The events for several finished images.
pub open spec fn completed_events(
    images: Seq<ImageSpec>,
    usage: Option<JsonSpec>,
    response_format: Seq<char>,
    prefix: Seq<char>,
) -> Seq<char>
    decreases images.len(),
{
    if images.len() == 0 {
        seq![]
    } else {
        completed_events(images.drop_last(), usage, response_format, prefix) + completed_event(
            images.last(),
            usage,
            response_format,
            prefix,
        )
    }
}

/// What is sent to the client for an event.
pub open spec fn image_event_text(
    event: JsonSpec,
    response_format: Seq<char>,
    prefix: Seq<char>,
) -> Seq<char> {
    let kind = event.str_or_empty("type"@);
    if kind == "response.image_generation_call.partial_image"@ {
        partial_event(event, response_format, prefix)
    } else if kind == "response.completed"@ {
        if completed_images(event).len() == 0 {
            named_event("error"@, error_of("Upstream did not return image output"@))
        } else {
            completed_events(
                completed_images(event),
                image_usage(event),
                response_format,
                prefix,
            )
        }
    } else {
        seq![]
    }
}

/// What is sent to the client for several events.
pub open spec fn image_stream_text(
    events: Seq<JsonSpec>,
    response_format: Seq<char>,
    prefix: Seq<char>,
) -> Seq<char>
    decreases events.len(),
{
    if events.len() == 0 {
        seq![]
    } else {
        image_stream_text(events.drop_last(), response_format, prefix) + image_event_text(
            events.last(),
            response_format,
            prefix,
        )
    }
}

/// A named event with a payload.
fn write_event(name: &str, payload: &Json) -> (r: String)
    ensures
        r@ == named_event(name@, payload@),
{
    let mut out = concat3("event: ", name, "\ndata: ");
    let text = write_json(payload);
    out.append(text.as_str());
    out.append("\n\n");
    out
}

/// The event for an image in the making.
fn write_partial(event: &Json, response_format: &str, prefix: &str) -> (r: String)
    ensures
        r@ == partial_event(event@, response_format@, prefix@),
{
    match event.get_str("partial_image_b64") {
        Some(data) => {
            let t = trimmed(data);
            if is_empty(t.as_str()) {
                return String::new();
            }
            let name = concat(prefix, ".partial_image");
            let index: u64 = match event.get_u64("partial_image_index") {
                Some(n) => n,
                None => 0,
            };
            let format = event.str_or_empty("output_format");
            let mut e: Vec<(String, Json)> = Vec::new();
            put(&mut e, "type", Json::text(name.as_str()));
            put(&mut e, "partial_image_index", Json::Number(JsonNumber::Unsigned(index)));
            put_image(&mut e, response_format, format.as_str(), data);
            let payload = Json::Object(e);
            write_event(name.as_str(), &payload)
        },
        None => String::new(),
    }
}

/// The event for a finished image.
fn write_completed(
    image: &ImageCallResult,
    usage: &Option<Json>,
    response_format: &str,
    prefix: &str,
) -> (r: String)
    ensures
        r@ == completed_event(image@, opt_owned(*usage), response_format@, prefix@),
{
    let name = concat(prefix, ".completed");
    let mut e: Vec<(String, Json)> = Vec::new();
    put(&mut e, "type", Json::text(name.as_str()));
    put_image(&mut e, response_format, image.output_format.as_str(), image.result.as_str());
    put_filled(&mut e, "revised_prompt", image.revised_prompt.as_str());
    put_value(&mut e, "usage", usage);
    let payload = Json::Object(e);
    write_event(name.as_str(), &payload)
}

/// The events for several finished images.
fn write_all_completed(
    images: &Vec<ImageCallResult>,
    usage: &Option<Json>,
    response_format: &str,
    prefix: &str,
) -> (r: String)
    ensures
        r@ == completed_events(
            images_view(images@),
            opt_owned(*usage),
            response_format@,
            prefix@,
        ),
{
    let ghost all = images_view(images@);
    let mut out = String::new();
    let mut i: usize = 0;
    proof {
        assert(out@ =~= completed_events(
            all.take(0),
            opt_owned(*usage),
            response_format@,
            prefix@,
        ));
    }
    while i < images.len()
        invariant
            i <= images@.len(),
            all == images_view(images@),
            out@ == completed_events(
                all.take(i as int),
                opt_owned(*usage),
                response_format@,
                prefix@,
            ),
        decreases images@.len() - i,
    {
        proof {
            assert(all.take(i + 1).drop_last() =~= all.take(i as int));
            assert(all.take(i + 1).last() == images@[i as int]@);
        }
        let text = write_completed(&images[i], usage, response_format, prefix);
        out.append(text.as_str());
        i = i + 1;
    }
    proof {
        assert(all.take(all.len() as int) =~= all);
    }
    out
}

/// What is sent to the client for an event.
fn write_image_event(event: &Json, response_format: &str, prefix: &str) -> (r: String)
    ensures
        r@ == image_event_text(event@, response_format@, prefix@),
{
    let kind = event.str_or_empty("type");
    if str_eq(kind.as_str(), "response.image_generation_call.partial_image") {
        write_partial(event, response_format, prefix)
    } else if str_eq(kind.as_str(), "response.completed") {
        let results = extract_images_from_completed(event);
        proof {
            assert(images_view(results@).len() == results@.len());
        }
        if results.len() == 0 {
            let payload = error_body("Upstream did not return image output");
            write_event("error", &payload)
        } else {
            let usage = extract_usage(event);
            write_all_completed(&results, &usage, response_format, prefix)
        }
    } else {
        String::new()
    }
}

/// What is sent to the client for several events.
pub fn write_image_events(events: &Vec<Json>, response_format: &str, prefix: &str) -> (r: String)
    ensures
        r@ == image_stream_text(items_view(events@), response_format@, prefix@),
{
    let ghost all = items_view(events@);
    let mut out = String::new();
    let mut i: usize = 0;
    proof {
        assert(out@ =~= image_stream_text(all.take(0), response_format@, prefix@));
    }
    while i < events.len()
        invariant
            i <= events@.len(),
            all == items_view(events@),
            out@ == image_stream_text(all.take(i as int), response_format@, prefix@),
        decreases events@.len() - i,
    {
        proof {
            assert(all.take(i + 1).drop_last() =~= all.take(i as int));
            assert(all.take(i + 1).last() == events@[i as int]@);
        }
        let text = write_image_event(&events[i], response_format, prefix);
        out.append(text.as_str());
        i = i + 1;
    }
    proof {
        assert(all.take(all.len() as int) =~= all);
    }
    out
}

/// What is sent to the client for complete lines of the upstream's stream.
pub fn stream_images(chunk: &[u8], response_format: &str, prefix: &str) -> (r: String)
    ensures
        r@ == image_stream_text(body_events(chunk@), response_format@, prefix@),
{
    let events = read_body_events(chunk);
    write_image_events(&events, response_format, prefix)
}

/// A stream of images in progress: what came of a line that is not complete yet,
/// the format of the images, and how the events are named.
#[derive(Debug)]
pub struct ImageStream {
    pub pending: Vec<u8>,
    pub response_format: String,
    pub prefix: &'static str,
}

/// What a stream of images in progress is.
#[verifier::ext_equal]
pub struct ImageStreamSpec {
    pub pending: Seq<u8>,
    pub response_format: Seq<char>,
    pub prefix: Seq<char>,
}

impl View for ImageStream {
    type V = ImageStreamSpec;

    open spec fn view(&self) -> ImageStreamSpec {
        ImageStreamSpec {
            pending: self.pending@,
            response_format: self.response_format@,
            prefix: self.prefix@,
        }
    }
}

impl ImageStreamSpec {
    /// A stream of which nothing came.
    pub open spec fn fresh(response_format: Seq<char>, prefix: Seq<char>) -> Self {
        ImageStreamSpec { pending: seq![], response_format, prefix }
    }

    /// What is sent to the client for bytes.
    pub open spec fn text_for(self, bytes: Seq<u8>) -> Seq<char> {
        image_stream_text(body_events(bytes), self.response_format, self.prefix)
    }

    /// The stream after more bytes, and what is sent for them: lines are taken up
    /// once they are complete.
    pub open spec fn with_chunk(self, bytes: Seq<u8>) -> (Self, Seq<char>) {
        let all = self.pending + bytes;
        (
            ImageStreamSpec { pending: open_line(all), ..self },
            self.text_for(whole_lines(all)),
        )
    }

    /// The stream after its end, and what is sent for what was left of a line.
    pub open spec fn ended(self) -> (Self, Seq<char>) {
        (ImageStreamSpec { pending: seq![], ..self }, self.text_for(self.pending))
    }
}

impl ImageStream {
    /// A stream of which nothing came.
    pub fn new(response_format: &str, prefix: &'static str) -> (r: ImageStream)
        ensures
            r@ == ImageStreamSpec::fresh(response_format@, prefix@),
    {
        ImageStream { pending: Vec::new(), response_format: response_format.to_owned(), prefix }
    }

    /// Bytes arrived: the text to send, which may be empty.
    pub fn on_chunk(&mut self, chunk: &[u8]) -> (r: String)
        ensures
            (final(self)@, r@) == old(self)@.with_chunk(chunk@),
    {
        let ready = take_whole_lines(&mut self.pending, chunk);
        stream_images(ready.as_slice(), self.response_format.as_str(), self.prefix)
    }

    /// The stream ended: the text to send for what was left of a line, which may
    /// be empty.
    pub fn on_end(&mut self) -> (r: String)
        ensures
            (final(self)@, r@) == old(self)@.ended(),
    {
        let mut rest: Vec<u8> = Vec::new();
        std::mem::swap(&mut self.pending, &mut rest);
        stream_images(rest.as_slice(), self.response_format.as_str(), self.prefix)
    }
}

/// What is sent to the client where reading the upstream failed.
pub fn image_stream_failure(message: &str) -> (r: String)
    ensures
        r@ == named_event("error"@, error_of("Stream error: "@ + message@)),
{
    let text = concat("Stream error: ", message);
    let payload = error_body(text.as_str());
    write_event("error", &payload)
}

// ---- the answer as a whole --------------------------------------------

/// How a request for images is answered once the upstream answered.
#[derive(Debug, Clone, Copy, PartialEq, Eq, Structural)]
pub enum ImageAnswer {
    /// With the upstream's status, and its body as the message of an error.
    Error(u16),
    /// With status 200, and a stream of events.
    Stream,
    /// With the images in one piece, or status 502 where there are none.
    Collect,
}

/// How a request for images is answered, given the upstream's status and whether
/// the client asked to stream.
pub fn image_answer(status: u16, stream: bool) -> (r: ImageAnswer)
    ensures
        !is_success(status) ==> r == ImageAnswer::Error(status),
        is_success(status) && stream ==> r == ImageAnswer::Stream,
        is_success(status) && !stream ==> r == ImageAnswer::Collect,
{
    if !(200 <= status && status < 300) {
        ImageAnswer::Error(status)
    } else if stream {
        ImageAnswer::Stream
    } else {
        ImageAnswer::Collect
    }
}

// ---- plans ------------------------------------------------------------

/// What is done for a request for images: what is sent to the upstream, the
/// format of the images, whether they are streamed, and how the events of the
/// stream are named.
#[derive(Debug)]
pub struct ImagesPlan {
    pub body: Json,
    pub response_format: String,
    pub stream: bool,
    pub prefix: &'static str,
}

/// What a plan is.
#[verifier::ext_equal]
pub struct PlanSpec {
    pub body: JsonSpec,
    pub response_format: Seq<char>,
    pub stream: bool,
    pub prefix: Seq<char>,
}

impl View for ImagesPlan {
    type V = PlanSpec;

    open spec fn view(&self) -> PlanSpec {
        PlanSpec {
            body: self.body@,
            response_format: self.response_format@,
            stream: self.stream,
            prefix: self.prefix@,
        }
    }
}

/// The plan for a prompt, images, settings and what else was asked for.
pub open spec fn plan_of(
    action: Seq<char>,
    prefix: Seq<char>,
    prompt: Seq<char>,
    images: Seq<Seq<char>>,
    model: Option<Seq<char>>,
    params: ParamsSpec,
    response_format: Option<Seq<char>>,
    stream: bool,
) -> PlanSpec {
    let image_model = image_model_of(model);
    PlanSpec {
        body: image_request(
            trim(prompt),
            images,
            JsonSpec::Object(tool_fields(action, image_model, params)),
            main_model_of(image_model),
        ),
        response_format: response_format_of(response_format),
        stream,
        prefix,
    }
}

/// The text, borrowed, where there is one.
fn borrow_text(s: &Option<String>) -> (r: Option<&str>)
    ensures
        opt_str_view(r) == opt_view(*s),
{
    match s {
        Some(t) => Some(t.as_str()),
        None => None,
    }
}

/// Makes a plan.
fn make_plan(
    action: &str,
    prefix: &'static str,
    prompt: &str,
    images: &Vec<String>,
    model: Option<&str>,
    params: &ImageToolParams,
    response_format: Option<&str>,
    stream: bool,
) -> (r: ImagesPlan)
    ensures
        r@ == plan_of(
            action@,
            prefix@,
            prompt@,
            texts(images@),
            opt_str_view(model),
            params@,
            opt_str_view(response_format),
            stream,
        ),
{
    let text = trimmed(prompt);
    let image_model = resolve_image_model(model);
    let main_model = resolve_main_model(image_model.as_str());
    let tool = build_tool_json(action, image_model.as_str(), params);
    let body = build_responses_request(text.as_str(), images, &tool, main_model.as_str());
    ImagesPlan { body, response_format: resolve_response_format(response_format), stream, prefix }
}

/// The settings that a request to generate images asks for.
pub open spec fn generation_params(req: ImagesGenerationsRequest) -> ParamsSpec {
    ParamsSpec {
        size: opt_view(req.size),
        quality: opt_view(req.quality),
        background: opt_view(req.background),
        output_format: opt_view(req.output_format),
        output_compression: req.output_compression,
        partial_images: req.partial_images,
        input_fidelity: None,
        moderation: opt_view(req.moderation),
        mask_image_url: None,
    }
}

/// The plan for a request to generate images; an error where the prompt is
/// blank.
pub fn plan_generation(req: &ImagesGenerationsRequest) -> (r: Result<ImagesPlan, String>)
    ensures
        match r {
            Ok(plan) => trim(req.prompt@).len() > 0 && plan@ == plan_of(
                "generate"@,
                "image_generation"@,
                req.prompt@,
                seq![],
                opt_view(req.model),
                generation_params(*req),
                opt_view(req.response_format),
                req.stream == Some(true),
            ) && does_generation(plan@, *req),
            Err(e) => trim(req.prompt@).len() == 0 && e@ == "prompt is required"@,
        },
{
    let prompt = trimmed(req.prompt.as_str());
    if is_empty(prompt.as_str()) {
        return Err("prompt is required".to_owned());
    }
    let params = ImageToolParams {
        size: copy_opt(&req.size),
        quality: copy_opt(&req.quality),
        background: copy_opt(&req.background),
        output_format: copy_opt(&req.output_format),
        output_compression: req.output_compression,
        partial_images: req.partial_images,
        input_fidelity: None,
        moderation: copy_opt(&req.moderation),
        mask_image_url: None,
    };
    let stream = match req.stream {
        Some(b) => b,
        None => false,
    };
    let images: Vec<String> = Vec::new();
    proof {
        assert(texts(images@) =~= seq![]);
        law_generation_is_planned_as_asked(*req);
    }
    Ok(
        make_plan(
            "generate",
            "image_generation",
            req.prompt.as_str(),
            &images,
            borrow_text(&req.model),
            &params,
            borrow_text(&req.response_format),
            stream,
        ),
    )
}

/// The addresses of several images, without white space around them; blank ones
/// are left out.
pub open spec fn image_urls(images: Seq<InputImage>) -> Seq<Seq<char>>
    decreases images.len(),
{
    if images.len() == 0 {
        seq![]
    } else {
        let url = trim(images.last().image_url@);
        if url.len() > 0 {
            image_urls(images.drop_last()).push(url)
        } else {
            image_urls(images.drop_last())
        }
    }
}

/// The address of a mask, where it names one.
pub open spec fn mask_url(mask: Option<MaskInput>) -> Option<Seq<char>> {
    match mask {
        Some(m) => match m.image_url {
            Some(u) => if trim(u@).len() > 0 {
                Some(trim(u@))
            } else {
                None
            },
            None => None,
        },
        None => None,
    }
}

/// The settings that a request to edit images asks for.
pub open spec fn edit_params(req: ImagesEditsJsonRequest) -> ParamsSpec {
    ParamsSpec {
        size: opt_view(req.size),
        quality: opt_view(req.quality),
        background: opt_view(req.background),
        output_format: opt_view(req.output_format),
        output_compression: req.output_compression,
        partial_images: req.partial_images,
        input_fidelity: opt_view(req.input_fidelity),
        moderation: opt_view(req.moderation),
        mask_image_url: mask_url(req.mask),
    }
}

/// The addresses of several images.
fn read_image_urls(images: &Vec<InputImage>) -> (r: Vec<String>)
    ensures
        texts(r@) == image_urls(images@),
{
    let mut out: Vec<String> = Vec::new();
    let mut i: usize = 0;
    proof {
        assert(texts(out@) =~= image_urls(images@.take(0)));
    }
    while i < images.len()
        invariant
            i <= images@.len(),
            texts(out@) == image_urls(images@.take(i as int)),
        decreases images@.len() - i,
    {
        proof {
            assert(images@.take(i + 1).drop_last() =~= images@.take(i as int));
        }
        let url = trimmed(images[i].image_url.as_str());
        if !is_empty(url.as_str()) {
            proof {
                crate::text::lemma_texts_push(out@, url);
            }
            out.push(url);
        }
        i = i + 1;
    }
    proof {
        assert(images@.take(images@.len() as int) =~= images@);
    }
    out
}

/// The plan for a request to edit images; an error where the prompt is blank or
/// no image has an address.
pub fn plan_edit(req: &ImagesEditsJsonRequest) -> (r: Result<ImagesPlan, String>)
    ensures
        match r {
            Ok(plan) => trim(req.prompt@).len() > 0 && image_urls(req.images@).len() > 0 && plan@
                == plan_of(
                "edit"@,
                "image_edit"@,
                req.prompt@,
                image_urls(req.images@),
                opt_view(req.model),
                edit_params(*req),
                opt_view(req.response_format),
                req.stream == Some(true),
            ) && does_edit(plan@, *req),
            Err(e) => if trim(req.prompt@).len() == 0 {
                e@ == "prompt is required"@
            } else {
                image_urls(req.images@).len() == 0 && e@ == "images[].image_url is required"@
            },
        },
{
    let prompt = trimmed(req.prompt.as_str());
    if is_empty(prompt.as_str()) {
        return Err("prompt is required".to_owned());
    }
    let images = read_image_urls(&req.images);
    proof {
        assert(texts(images@).len() == images@.len());
    }
    if images.len() == 0 {
        return Err("images[].image_url is required".to_owned());
    }
    let mask_image_url = match &req.mask {
        Some(m) => match &m.image_url {
            Some(u) => {
                let t = trimmed(u.as_str());
                if is_empty(t.as_str()) {
                    None
                } else {
                    Some(t)
                }
            },
            None => None,
        },
        None => None,
    };
    let params = ImageToolParams {
        size: copy_opt(&req.size),
        quality: copy_opt(&req.quality),
        background: copy_opt(&req.background),
        output_format: copy_opt(&req.output_format),
        output_compression: req.output_compression,
        partial_images: req.partial_images,
        input_fidelity: copy_opt(&req.input_fidelity),
        moderation: copy_opt(&req.moderation),
        mask_image_url,
    };
    let stream = match req.stream {
        Some(b) => b,
        None => false,
    };
    proof {
        law_edit_is_planned_as_asked(*req);
    }
    Ok(
        make_plan(
            "edit",
            "image_edit",
            req.prompt.as_str(),
            &images,
            borrow_text(&req.model),
            &params,
            borrow_text(&req.response_format),
            stream,
        ),
    )
}

/// The number that a field holds, white space around it apart.
pub open spec fn number_field(m: Map<Seq<char>, Seq<char>>, name: Seq<char>) -> Option<u64> {
    match field(m, name) {
        Some(v) => u64_text(trim(v)),
        None => None,
    }
}

/// Whether a field holds `true`, white space around it apart.
pub open spec fn flag_field(m: Map<Seq<char>, Seq<char>>, name: Seq<char>) -> bool {
    match field(m, name) {
        Some(v) => bool_text(trim(v)) == Some(true),
        None => false,
    }
}

/// The settings that a form asks for.
pub open spec fn form_params(m: Map<Seq<char>, Seq<char>>) -> ParamsSpec {
    ParamsSpec {
        size: field(m, "size"@),
        quality: field(m, "quality"@),
        background: field(m, "background"@),
        output_format: field(m, "output_format"@),
        output_compression: number_field(m, "output_compression"@),
        partial_images: number_field(m, "partial_images"@),
        input_fidelity: field(m, "input_fidelity"@),
        moderation: field(m, "moderation"@),
        mask_image_url: field(m, "mask"@),
    }
}

/// The images that a form holds.
pub open spec fn form_images(m: Map<Seq<char>, Seq<char>>) -> Seq<Seq<char>> {
    let a = match field(m, "image[]"@) {
        Some(v) => seq![v],
        None => seq![],
    };
    match field(m, "image"@) {
        Some(v) => a.push(v),
        None => a,
    }
}

/// The prompt that a form holds, or the empty text.
pub open spec fn form_prompt(m: Map<Seq<char>, Seq<char>>) -> Seq<char> {
    match field(m, "prompt"@) {
        Some(v) => v,
        None => seq![],
    }
}

/// The number that a field holds.
fn read_number_field(fields: &FormFields, name: &str) -> (r: Option<u64>)
    ensures
        r == number_field(fields@, name@),
{
    match fields.get(name) {
        Some(v) => {
            let t = trimmed(v);
            parse_u64(t.as_str())
        },
        None => None,
    }
}

/// Whether a field holds `true`.
fn read_flag_field(fields: &FormFields, name: &str) -> (r: bool)
    ensures
        r == flag_field(fields@, name@),
{
    match fields.get(name) {
        Some(v) => {
            let t = trimmed(v);
            match parse_bool(t.as_str()) {
                Some(b) => b,
                None => false,
            }
        },
        None => false,
    }
}

/// The images that a form holds.
fn read_form_images(fields: &FormFields) -> (r: Vec<String>)
    ensures
        texts(r@) == form_images(fields@),
{
    let mut out: Vec<String> = Vec::new();
    proof {
        assert(texts(out@) =~= seq![]);
    }
    match fields.get_owned("image[]") {
        Some(v) => {
            out.push(v);
            proof {
                assert(texts(out@) =~= seq![v@]);
            }
        },
        None => {},
    }
    match fields.get_owned("image") {
        Some(v) => {
            proof {
                crate::text::lemma_texts_push(out@, v);
            }
            out.push(v);
        },
        None => {},
    }
    out
}

/// The plan for the fields of a form; an error where the prompt is blank or no
/// image is there.
pub fn plan_edit_fields(fields: &FormFields) -> (r: Result<ImagesPlan, String>)
    ensures
        match r {
            Ok(plan) => trim(form_prompt(fields@)).len() > 0 && form_images(fields@).len() > 0
                && plan@ == plan_of(
                "edit"@,
                "image_edit"@,
                form_prompt(fields@),
                form_images(fields@),
                field(fields@, "model"@),
                form_params(fields@),
                field(fields@, "response_format"@),
                flag_field(fields@, "stream"@),
            ) && does_form(plan@, fields@),
            Err(e) => if trim(form_prompt(fields@)).len() == 0 {
                e@ == "prompt is required"@
            } else {
                form_images(fields@).len() == 0 && e@ == "image is required"@
            },
        },
{
    let prompt = match fields.get_owned("prompt") {
        Some(v) => v,
        None => String::new(),
    };
    let text = trimmed(prompt.as_str());
    if is_empty(text.as_str()) {
        return Err("prompt is required".to_owned());
    }
    let images = read_form_images(fields);
    proof {
        assert(texts(images@).len() == images@.len());
    }
    if images.len() == 0 {
        return Err("image is required".to_owned());
    }
    let params = ImageToolParams {
        size: fields.get_owned("size"),
        quality: fields.get_owned("quality"),
        background: fields.get_owned("background"),
        output_format: fields.get_owned("output_format"),
        output_compression: read_number_field(fields, "output_compression"),
        partial_images: read_number_field(fields, "partial_images"),
        input_fidelity: fields.get_owned("input_fidelity"),
        moderation: fields.get_owned("moderation"),
        mask_image_url: fields.get_owned("mask"),
    };
    proof {
        law_form_is_planned_as_asked(fields@);
    }
    Ok(
        make_plan(
            "edit",
            "image_edit",
            prompt.as_str(),
            &images,
            fields.get("model"),
            &params,
            fields.get("response_format"),
            read_flag_field(fields, "stream"),
        ),
    )
}

/// The plan for a form whose parts are kept apart by `boundary`; an error where
/// there is no boundary, the prompt is blank or no image is there.
pub fn plan_edit_form(body: &[u8], boundary: Option<&str>) -> (r: Result<ImagesPlan, String>)
    ensures
        match opt_str_view(boundary) {
            None => r matches Err(e) && e@ == "Invalid Content-Type: missing multipart boundary"@,
            Some(b) => {
                let m = form_of(body@, b);
                match r {
                    Ok(plan) => trim(form_prompt(m)).len() > 0 && form_images(m).len() > 0 && plan@
                        == plan_of(
                        "edit"@,
                        "image_edit"@,
                        form_prompt(m),
                        form_images(m),
                        field(m, "model"@),
                        form_params(m),
                        field(m, "response_format"@),
                        flag_field(m, "stream"@),
                    ),
                    Err(e) => if trim(form_prompt(m)).len() == 0 {
                        e@ == "prompt is required"@
                    } else {
                        form_images(m).len() == 0 && e@ == "image is required"@
                    },
                }
            },
        },
{
    match boundary {
        Some(b) => {
            let fields = parse_multipart(body, b);
            plan_edit_fields(&fields)
        },
        None => Err("Invalid Content-Type: missing multipart boundary".to_owned()),
    }
}

/// What the body of a request to edit images is.
#[derive(Debug)]
pub enum EditKind {
    Json,
    /// A form, with the boundary that its content type names, as it was sent.
    Form(Option<String>),
}

/// The content type that a header gives, or the empty text.
pub open spec fn content_type_of(header: Option<Seq<char>>) -> Seq<char> {
    match header {
        Some(h) => h,
        None => seq![],
    }
}

/// What the body of a request to edit images is, as its content type tells:
/// JSON where that is named, in whatever case, else a form.
pub fn edit_kind(header: Option<&str>) -> (r: EditKind)
    ensures
        ({
            let ct = content_type_of(opt_str_view(header));
            match r {
                EditKind::Json => contains_text(lowercase(ct), "application/json"@),
                EditKind::Form(b) => !contains_text(lowercase(ct), "application/json"@)
                    && opt_view(b) == boundary_of(ct),
            }
        }),
{
    let ct = match header {
        Some(h) => h.to_owned(),
        None => String::new(),
    };
    let lower = ct.as_str().to_lowercase();
    if is_json_content(lower.as_str()) {
        EditKind::Json
    } else {
        EditKind::Form(extract_boundary(ct.as_str()))
    }
}

/// Whether a content type in lower case says that the request is JSON.
pub fn is_json_content(content_type: &str) -> (r: bool)
    ensures
        r == contains_text(content_type@, "application/json"@),
{
    contains(content_type, "application/json")
}

// ---- laws -------------------------------------------------------------

/// Every image that is answered with has data in it.
pub proof fn law_images_have_data(items: Seq<JsonSpec>, i: int)
    requires
        0 <= i < images_of(items).len(),
    ensures
        trim(images_of(items)[i].result).len() > 0,
    decreases items.len(),
{
    if items.len() > 0 {
        let rest = images_of(items.drop_last());
        if i < rest.len() {
            law_images_have_data(items.drop_last(), i);
        }
    }
}

/// A chunk of the stream is answered the same whether its events are taken at
/// once or in two parts.
pub proof fn law_image_stream_splits(
    a: Seq<JsonSpec>,
    b: Seq<JsonSpec>,
    response_format: Seq<char>,
    prefix: Seq<char>,
)
    ensures
        image_stream_text(a + b, response_format, prefix) == image_stream_text(
            a,
            response_format,
            prefix,
        ) + image_stream_text(b, response_format, prefix),
    decreases b.len(),
{
    if b.len() == 0 {
        assert(a + b =~= a);
        assert(image_stream_text(a, response_format, prefix) + image_stream_text(
            b,
            response_format,
            prefix,
        ) =~= image_stream_text(a, response_format, prefix));
    } else {
        law_image_stream_splits(a, b.drop_last(), response_format, prefix);
        assert((a + b).drop_last() =~= a + b.drop_last());
        assert((a + b).last() == b.last());
        let x = image_stream_text(a, response_format, prefix);
        let y = image_stream_text(b.drop_last(), response_format, prefix);
        let z = image_event_text(b.last(), response_format, prefix);
        assert((x + y) + z =~= x + (y + z));
    }
}

/// Lines of the stream that are cut at the end of a line are answered as the two
/// parts are, one after the other.
pub proof fn law_image_lines_split(
    a: Seq<u8>,
    b: Seq<u8>,
    response_format: Seq<char>,
    prefix: Seq<char>,
)
    requires
        a.len() == 0 || a.last() == LINE_FEED,
    ensures
        image_stream_text(body_events(a + b), response_format, prefix) == image_stream_text(
            body_events(a),
            response_format,
            prefix,
        ) + image_stream_text(body_events(b), response_format, prefix),
{
    law_lines_split(a, b);
    law_image_stream_splits(body_events(a), body_events(b), response_format, prefix);
}

/// The stream of images after several chunks, and what is sent for them.
pub open spec fn image_chunks(s: ImageStreamSpec, chunks: Seq<Seq<u8>>) -> (
    ImageStreamSpec,
    Seq<char>,
)
    decreases chunks.len(),
{
    if chunks.len() == 0 {
        (s, seq![])
    } else {
        let before = image_chunks(s, chunks.drop_last());
        let next = before.0.with_chunk(chunks.last());
        (next.0, before.1 + next.1)
    }
}

/// Several chunks are taken up as the complete lines of all of them.
proof fn lemma_image_chunks(
    response_format: Seq<char>,
    prefix: Seq<char>,
    chunks: Seq<Seq<u8>>,
)
    ensures
        ({
            let s = ImageStreamSpec::fresh(response_format, prefix);
            &&& image_chunks(s, chunks).0 == (ImageStreamSpec {
                pending: open_line(flat(chunks)),
                ..s
            })
            &&& image_chunks(s, chunks).1 == s.text_for(whole_lines(flat(chunks)))
        }),
    decreases chunks.len(),
{
    let s = ImageStreamSpec::fresh(response_format, prefix);
    let all = flat(chunks);
    if chunks.len() == 0 {
        assert(whole_lines(all) =~= seq![]);
        assert(open_line(all) =~= seq![]);
        assert(body_events(whole_lines(all)) =~= seq![]);
    } else {
        let before = flat(chunks.drop_last());
        let last = chunks.last();
        lemma_image_chunks(response_format, prefix, chunks.drop_last());
        lemma_last_feed(before);
        lemma_whole_lines_cut(before, last);
        law_image_lines_split(
            whole_lines(before),
            whole_lines(open_line(before) + last),
            response_format,
            prefix,
        );
    }
}

/// Wherever the network cuts the upstream's stream, the client is sent what the
/// stream as a whole is answered with; so two ways to cut the same bytes send the
/// same text.
pub proof fn law_image_cuts_do_not_matter(
    response_format: Seq<char>,
    prefix: Seq<char>,
    chunks: Seq<Seq<u8>>,
)
    ensures
        ({
            let end = image_chunks(ImageStreamSpec::fresh(response_format, prefix), chunks);
            end.1 + end.0.ended().1 == image_stream_text(
                body_events(flat(chunks)),
                response_format,
                prefix,
            )
        }),
{
    let all = flat(chunks);
    lemma_image_chunks(response_format, prefix, chunks);
    lemma_last_feed(all);
    law_image_lines_split(whole_lines(all), open_line(all), response_format, prefix);
}

} // verus!
