//! What holds of the image endpoints as a whole: the request of the client and that to
//! the upstream, the events of the upstream and what the client gets.

use vstd::prelude::*;

use crate::chat_laws::{is_kind, said};
use crate::images::{
    collected_images, completed_events, completed_images, edit_params, flag_field, form_images,
    form_params, form_prompt, generation_params, image_content, image_event_text, image_model_of,
    image_stream_text, image_urls, image_usage, images_answer, images_of, main_model_of, mask_url,
    mime_of, plan_of, response_format_of, ImageSpec, ImagesEditsJsonRequest,
    ImagesGenerationsRequest, InputImage, MaskInput, PlanSpec,
};
use crate::json::{JsonSpec, NumberSpec};
use crate::json_codec::json_text;
use crate::text::{lowercase, opt_view, trim, u64_text};

verus! {

// ---- keys -------------------------------------------------------------

/// The keys of the tool.
proof fn lemma_tool_keys()
    ensures
        seq![
            "type"@,
            "action"@,
            "model"@,
            "size"@,
            "quality"@,
            "background"@,
            "output_format"@,
            "output_compression"@,
            "partial_images"@,
            "input_fidelity"@,
            "moderation"@,
            "input_image_mask"@,
        ].no_duplicates(),
{
    reveal_strlit("type");
    reveal_strlit("action");
    reveal_strlit("model");
    reveal_strlit("size");
    reveal_strlit("quality");
    reveal_strlit("background");
    reveal_strlit("output_format");
    reveal_strlit("output_compression");
    reveal_strlit("partial_images");
    reveal_strlit("input_fidelity");
    reveal_strlit("moderation");
    reveal_strlit("input_image_mask");
    assert("type"@.len() == 4 && "type"@[0] == 't');
    assert("action"@.len() == 6);
    assert("model"@.len() == 5);
    assert("size"@.len() == 4 && "size"@[0] == 's');
    assert("quality"@.len() == 7);
    assert("background"@.len() == 10 && "background"@[0] == 'b');
    assert("output_format"@.len() == 13);
    assert("output_compression"@.len() == 18);
    assert("partial_images"@.len() == 14 && "partial_images"@[0] == 'p');
    assert("input_fidelity"@.len() == 14 && "input_fidelity"@[0] == 'i');
    assert("moderation"@.len() == 10 && "moderation"@[0] == 'm');
    assert("input_image_mask"@.len() == 16);
}

/// The keys of the request to the upstream.
proof fn lemma_request_keys()
    ensures
        seq![
            "model"@,
            "instructions"@,
            "input"@,
            "tools"@,
            "tool_choice"@,
            "parallel_tool_calls"@,
            "include"@,
            "reasoning"@,
            "stream"@,
            "store"@,
        ].no_duplicates(),
        seq!["type"@, "role"@, "content"@].no_duplicates(),
        "effort"@ != "summary"@,
{
    reveal_strlit("model");
    reveal_strlit("instructions");
    reveal_strlit("input");
    reveal_strlit("tools");
    reveal_strlit("tool_choice");
    reveal_strlit("parallel_tool_calls");
    reveal_strlit("include");
    reveal_strlit("reasoning");
    reveal_strlit("stream");
    reveal_strlit("store");
    reveal_strlit("type");
    reveal_strlit("role");
    reveal_strlit("content");
    reveal_strlit("effort");
    reveal_strlit("summary");
    assert("model"@.len() == 5 && "model"@[0] == 'm');
    assert("instructions"@.len() == 12);
    assert("input"@.len() == 5 && "input"@[0] == 'i');
    assert("tools"@.len() == 5 && "tools"@[0] == 't');
    assert("tool_choice"@.len() == 11);
    assert("parallel_tool_calls"@.len() == 19);
    assert("include"@.len() == 7);
    assert("reasoning"@.len() == 9);
    assert("stream"@.len() == 6);
    assert("store"@.len() == 5 && "store"@[0] == 's');
    assert("type"@.len() == 4 && "type"@[0] == 't');
    assert("role"@.len() == 4 && "role"@[0] == 'r');
    assert("content"@.len() == 7);
    assert("effort"@.len() == 6 && "summary"@.len() == 7);
}

/// Values without duplicates differ from one another.
proof fn lemma_apart(keys: Seq<Seq<char>>)
    requires
        keys.no_duplicates(),
    ensures
        forall|i: int, j: int|
            0 <= i < j < keys.len() ==> #[trigger] keys[i] != #[trigger] keys[j],
{
}

// ---- what is asked of the upstream ------------------------------------

/// The one tool of a plan.
pub open spec fn tool_in(plan: PlanSpec) -> JsonSpec {
    plan.body.get("tools"@)->0->Array_0[0]
}

/// The tool has this text under a key, and lacks the key where there is none.
pub open spec fn has_text(tool: JsonSpec, key: Seq<char>, text: Option<Seq<char>>) -> bool {
    match text {
        Some(t) => tool.get_str(key) == Some(t),
        None => tool.get(key) is None,
    }
}

/// The tool has this number under a key, and lacks the key where there is none.
pub open spec fn has_number(tool: JsonSpec, key: Seq<char>, n: Option<u64>) -> bool {
    match n {
        Some(v) => tool.get(key) == Some(JsonSpec::Number(NumberSpec::Int(v as int))),
        None => tool.get(key) is None,
    }
}

/// The tool has a mask at this address, and none where there is none.
pub open spec fn has_mask(tool: JsonSpec, url: Option<Seq<char>>) -> bool {
    match url {
        Some(u) => tool.get2("input_image_mask"@, "image_url"@) == Some(JsonSpec::Str(u)),
        None => tool.get("input_image_mask"@) is None,
    }
}

/// The plan asks the upstream for images: with one tool, which has to be used, and one
/// message of the user with these parts.
pub open spec fn asks_for_images(
    plan: PlanSpec,
    action: Seq<char>,
    image_model: Seq<char>,
    parts: Seq<JsonSpec>,
) -> bool {
    let body = plan.body;
    &&& body.get("tools"@) matches Some(JsonSpec::Array(v)) && v.len() == 1
    &&& tool_in(plan).get_str("type"@) == Some("image_generation"@)
    &&& tool_in(plan).get_str("action"@) == Some(action)
    &&& tool_in(plan).get_str("model"@) == Some(image_model)
    &&& body.get2("tool_choice"@, "type"@) == Some(JsonSpec::Str("image_generation"@))
    &&& body.get_str("model"@) == Some(main_model_of(image_model))
    &&& body.get_str("instructions"@) == Some(Seq::<char>::empty())
    &&& body.get_bool("parallel_tool_calls"@) == Some(true)
    &&& body.get_bool("stream"@) == Some(true)
    &&& body.get_bool("store"@) == Some(false)
    &&& body.get2("reasoning"@, "effort"@) == Some(JsonSpec::Str("medium"@))
    &&& body.get2("reasoning"@, "summary"@) == Some(JsonSpec::Str("auto"@))
    &&& body.get("include"@) matches Some(JsonSpec::Array(v)) && v.len() == 1 && v[0]
        == JsonSpec::Str("reasoning.encrypted_content"@)
    &&& body.get("input"@) matches Some(JsonSpec::Array(v)) && v.len() == 1 && {
        &&& v[0].get_str("type"@) == Some("message"@)
        &&& v[0].get_str("role"@) == Some("user"@)
        &&& v[0].get("content"@) == Some(JsonSpec::Array(parts))
    }
}

/// The plan of a request is what it was asked to be.
proof fn lemma_plan(
    action: Seq<char>,
    prefix: Seq<char>,
    prompt: Seq<char>,
    images: Seq<Seq<char>>,
    model: Option<Seq<char>>,
    params: crate::images::ParamsSpec,
    response_format: Option<Seq<char>>,
    stream: bool,
)
    ensures
        ({
            let plan = plan_of(
                action,
                prefix,
                prompt,
                images,
                model,
                params,
                response_format,
                stream,
            );
            let tool = tool_in(plan);
            &&& asks_for_images(
                plan,
                action,
                image_model_of(model),
                image_content(trim(prompt), images),
            )
            &&& plan.stream == stream
            &&& plan.prefix == prefix
            &&& plan.response_format == response_format_of(response_format)
            &&& has_text(tool, "size"@, params.size)
            &&& has_text(tool, "quality"@, params.quality)
            &&& has_text(tool, "background"@, params.background)
            &&& has_text(tool, "output_format"@, params.output_format)
            &&& has_number(tool, "output_compression"@, params.output_compression)
            &&& has_number(tool, "partial_images"@, params.partial_images)
            &&& has_text(tool, "input_fidelity"@, params.input_fidelity)
            &&& has_text(tool, "moderation"@, params.moderation)
            &&& has_mask(tool, params.mask_image_url)
        }),
{
    lemma_tool_keys();
    lemma_request_keys();
    let keys = seq![
        "type"@,
        "action"@,
        "model"@,
        "size"@,
        "quality"@,
        "background"@,
        "output_format"@,
        "output_compression"@,
        "partial_images"@,
        "input_fidelity"@,
        "moderation"@,
        "input_image_mask"@,
    ];
    lemma_apart(keys);
    assert(keys[0] == "type"@ && keys[1] == "action"@ && keys[2] == "model"@ && keys[3] == "size"@
        && keys[4] == "quality"@ && keys[5] == "background"@ && keys[6] == "output_format"@
        && keys[7] == "output_compression"@ && keys[8] == "partial_images"@ && keys[9]
        == "input_fidelity"@ && keys[10] == "moderation"@ && keys[11] == "input_image_mask"@);
    let body = seq![
        "model"@,
        "instructions"@,
        "input"@,
        "tools"@,
        "tool_choice"@,
        "parallel_tool_calls"@,
        "include"@,
        "reasoning"@,
        "stream"@,
        "store"@,
    ];
    lemma_apart(body);
    assert(body[0] == "model"@ && body[1] == "instructions"@ && body[2] == "input"@ && body[3]
        == "tools"@ && body[4] == "tool_choice"@ && body[5] == "parallel_tool_calls"@ && body[6]
        == "include"@ && body[7] == "reasoning"@ && body[8] == "stream"@ && body[9] == "store"@);
    let message = seq!["type"@, "role"@, "content"@];
    lemma_apart(message);
    assert(message[0] == "type"@ && message[1] == "role"@ && message[2] == "content"@);
    let plan = plan_of(action, prefix, prompt, images, model, params, response_format, stream);
    let image_model = image_model_of(model);
    assert(tool_in(plan) == JsonSpec::Object(
        crate::images::tool_fields(action, image_model, params),
    ));
}

/// The plan for a request to generate images.
pub open spec fn generation_plan(req: ImagesGenerationsRequest) -> PlanSpec {
    plan_of(
        "generate"@,
        "image_generation"@,
        req.prompt@,
        seq![],
        opt_view(req.model),
        generation_params(req),
        opt_view(req.response_format),
        req.stream == Some(true),
    )
}

/// The plan does what a request to generate images asks for: the tool has under each
/// key just what the request has under that name, the prompt stands in the message
/// without white space around it, and the images are answered as was asked.
pub open spec fn does_generation(plan: PlanSpec, req: ImagesGenerationsRequest) -> bool {
    let tool = tool_in(plan);
    &&& asks_for_images(
        plan,
        "generate"@,
        image_model_of(opt_view(req.model)),
        image_content(trim(req.prompt@), seq![]),
    )
    &&& has_text(tool, "size"@, opt_view(req.size))
    &&& has_text(tool, "quality"@, opt_view(req.quality))
    &&& has_text(tool, "background"@, opt_view(req.background))
    &&& has_text(tool, "output_format"@, opt_view(req.output_format))
    &&& has_number(tool, "output_compression"@, req.output_compression)
    &&& has_number(tool, "partial_images"@, req.partial_images)
    &&& has_text(tool, "moderation"@, opt_view(req.moderation))
    &&& tool.get("input_fidelity"@) is None
    &&& tool.get("input_image_mask"@) is None
    &&& plan.stream == (req.stream == Some(true))
    &&& plan.prefix == "image_generation"@
    &&& plan.response_format == response_format_of(opt_view(req.response_format))
}

/// The plan for a request to generate images does what it asks for.
pub proof fn law_generation_is_planned_as_asked(req: ImagesGenerationsRequest)
    ensures
        does_generation(generation_plan(req), req),
{
    lemma_plan(
        "generate"@,
        "image_generation"@,
        req.prompt@,
        seq![],
        opt_view(req.model),
        generation_params(req),
        opt_view(req.response_format),
        req.stream == Some(true),
    );
}

/// The plan for a request to edit images.
pub open spec fn edit_plan(req: ImagesEditsJsonRequest) -> PlanSpec {
    plan_of(
        "edit"@,
        "image_edit"@,
        req.prompt@,
        image_urls(req.images@),
        opt_view(req.model),
        edit_params(req),
        opt_view(req.response_format),
        req.stream == Some(true),
    )
}

/// The plan does what a request to edit images asks for.
pub open spec fn does_edit(plan: PlanSpec, req: ImagesEditsJsonRequest) -> bool {
    let tool = tool_in(plan);
    &&& asks_for_images(
        plan,
        "edit"@,
        image_model_of(opt_view(req.model)),
        image_content(trim(req.prompt@), image_urls(req.images@)),
    )
    &&& has_text(tool, "size"@, opt_view(req.size))
    &&& has_text(tool, "quality"@, opt_view(req.quality))
    &&& has_text(tool, "background"@, opt_view(req.background))
    &&& has_text(tool, "output_format"@, opt_view(req.output_format))
    &&& has_number(tool, "output_compression"@, req.output_compression)
    &&& has_number(tool, "partial_images"@, req.partial_images)
    &&& has_text(tool, "input_fidelity"@, opt_view(req.input_fidelity))
    &&& has_text(tool, "moderation"@, opt_view(req.moderation))
    &&& has_mask(tool, mask_url(req.mask))
    &&& plan.stream == (req.stream == Some(true))
    &&& plan.prefix == "image_edit"@
    &&& plan.response_format == response_format_of(opt_view(req.response_format))
}

/// The plan for a request to edit images does what it asks for.
pub proof fn law_edit_is_planned_as_asked(req: ImagesEditsJsonRequest)
    ensures
        does_edit(edit_plan(req), req),
{
    lemma_plan(
        "edit"@,
        "image_edit"@,
        req.prompt@,
        image_urls(req.images@),
        opt_view(req.model),
        edit_params(req),
        opt_view(req.response_format),
        req.stream == Some(true),
    );
}

/// A field of a form, where it is there.
pub open spec fn sent_field(m: Map<Seq<char>, Seq<char>>, name: Seq<char>) -> Option<Seq<char>> {
    if m.contains_key(name) {
        Some(m[name])
    } else {
        None
    }
}

/// The number in a field of a form, where it is one.
pub open spec fn sent_number(m: Map<Seq<char>, Seq<char>>, name: Seq<char>) -> Option<u64> {
    if m.contains_key(name) {
        u64_text(trim(m[name]))
    } else {
        None
    }
}

/// The plan for a form.
pub open spec fn form_plan(m: Map<Seq<char>, Seq<char>>) -> PlanSpec {
    plan_of(
        "edit"@,
        "image_edit"@,
        form_prompt(m),
        form_images(m),
        crate::multipart::field(m, "model"@),
        form_params(m),
        crate::multipart::field(m, "response_format"@),
        flag_field(m, "stream"@),
    )
}

/// The images of a form: those of `image[]`, then those of `image`.
pub open spec fn sent_images(m: Map<Seq<char>, Seq<char>>) -> Seq<Seq<char>> {
    let list = match sent_field(m, "image[]"@) {
        Some(v) => seq![v],
        None => Seq::empty(),
    };
    let one = match sent_field(m, "image"@) {
        Some(v) => seq![v],
        None => Seq::empty(),
    };
    list + one
}

/// The plan does what a form asks for, each field by its name.
pub open spec fn does_form(plan: PlanSpec, m: Map<Seq<char>, Seq<char>>) -> bool {
    let tool = tool_in(plan);
    let prompt = match sent_field(m, "prompt"@) {
        Some(p) => trim(p),
        None => trim(Seq::empty()),
    };
    &&& asks_for_images(
        plan,
        "edit"@,
        image_model_of(sent_field(m, "model"@)),
        image_content(prompt, sent_images(m)),
    )
    &&& has_text(tool, "size"@, sent_field(m, "size"@))
    &&& has_text(tool, "quality"@, sent_field(m, "quality"@))
    &&& has_text(tool, "background"@, sent_field(m, "background"@))
    &&& has_text(tool, "output_format"@, sent_field(m, "output_format"@))
    &&& has_number(tool, "output_compression"@, sent_number(m, "output_compression"@))
    &&& has_number(tool, "partial_images"@, sent_number(m, "partial_images"@))
    &&& has_text(tool, "input_fidelity"@, sent_field(m, "input_fidelity"@))
    &&& has_text(tool, "moderation"@, sent_field(m, "moderation"@))
    &&& has_mask(tool, sent_field(m, "mask"@))
    &&& plan.stream == (sent_field(m, "stream"@) matches Some(v) && trim(v) == "true"@)
    &&& plan.prefix == "image_edit"@
    &&& plan.response_format == response_format_of(sent_field(m, "response_format"@))
}

/// The plan for a form does what it asks for.
pub proof fn law_form_is_planned_as_asked(m: Map<Seq<char>, Seq<char>>)
    ensures
        does_form(form_plan(m), m),
{
    lemma_plan(
        "edit"@,
        "image_edit"@,
        form_prompt(m),
        form_images(m),
        crate::multipart::field(m, "model"@),
        form_params(m),
        crate::multipart::field(m, "response_format"@),
        flag_field(m, "stream"@),
    );
    assert(form_images(m) =~= sent_images(m));
    reveal_strlit("true");
    reveal_strlit("false");
    assert("true"@.len() == 4 && "false"@.len() == 5);
}

/// The parts of the message: the prompt, then each image that has an address, in their
/// order and with that address.
pub proof fn law_message_has_prompt_and_images(
    prompt: Seq<char>,
    images: Seq<Seq<char>>,
    url: Seq<char>,
)
    ensures
        image_content(prompt, Seq::empty()).len() == 1,
        image_content(prompt, Seq::empty())[0].get_str("type"@) == Some("input_text"@),
        image_content(prompt, Seq::empty())[0].get_str("text"@) == Some(prompt),
        trim(url).len() == 0 ==> image_content(prompt, images.push(url)) == image_content(
            prompt,
            images,
        ),
        trim(url).len() > 0 ==> {
            let parts = image_content(prompt, images.push(url));
            &&& parts.len() == image_content(prompt, images).len() + 1
            &&& parts.drop_last() == image_content(prompt, images)
            &&& parts.last().get_str("type"@) == Some("input_image"@)
            &&& parts.last().get_str("image_url"@) == Some(url)
        },
{
    assert(images.push(url).drop_last() =~= images);
    reveal_strlit("type");
    reveal_strlit("text");
    reveal_strlit("image_url");
    assert("type"@.len() == 4 && "type"@[1] == 'y');
    assert("text"@.len() == 4 && "text"@[1] == 'e');
    assert("image_url"@.len() == 9);
    if trim(url).len() > 0 {
        assert(image_content(prompt, images.push(url)).drop_last() =~= image_content(
            prompt,
            images,
        ));
    }
}

/// The addresses of the images of a request: each that is not blank, in their order and
/// without white space around it.
pub proof fn law_addresses_are_taken(images: Seq<InputImage>, image: InputImage)
    ensures
        image_urls(Seq::empty()) == Seq::<Seq<char>>::empty(),
        trim(image.image_url@).len() > 0 ==> image_urls(images.push(image)) == image_urls(
            images,
        ).push(trim(image.image_url@)),
        trim(image.image_url@).len() == 0 ==> image_urls(images.push(image)) == image_urls(images),
{
    assert(images.push(image).drop_last() =~= images);
}

/// A mask is the address that it names, where that is not blank.
pub proof fn law_mask_is_taken(mask: Option<MaskInput>)
    ensures
        mask is None ==> mask_url(mask) is None,
        mask matches Some(m) ==> (m.image_url is None ==> mask_url(mask) is None),
        mask matches Some(m) ==> (m.image_url matches Some(u) ==> {
            &&& trim(u@).len() > 0 ==> mask_url(mask) == Some(trim(u@))
            &&& trim(u@).len() == 0 ==> mask_url(mask) is None
        }),
{
}

/// The models and the format: what was asked for, white space around it apart, or the
/// default where it is blank. What stands before the last slash of the image model
/// stands before the main model too.
pub proof fn law_models_and_format(s: Seq<char>, front: Seq<char>, name: Seq<char>)
    requires
        forall|i: int| 0 <= i < name.len() ==> #[trigger] name[i] != '/',
    ensures
        image_model_of(None) == "gpt-image-2"@,
        image_model_of(Some(s)) == if trim(s).len() > 0 {
            trim(s)
        } else {
            "gpt-image-2"@
        },
        response_format_of(None) == "b64_json"@,
        response_format_of(Some(s)) == if trim(s).len() > 0 {
            lowercase(trim(s))
        } else {
            "b64_json"@
        },
        main_model_of(name) == "gpt-5.4-mini"@,
        main_model_of(front + seq!['/'] + name) == if trim(front).len() > 0 {
            trim(front) + seq!['/'] + "gpt-5.4-mini"@
        } else {
            "gpt-5.4-mini"@
        },
{
    lemma_last_slash(Seq::empty(), name);
    lemma_last_slash(front + seq!['/'], name);
    assert(Seq::<char>::empty() + name =~= name);
    let whole = front + seq!['/'] + name;
    assert((front + seq!['/']).drop_last() =~= front);
    assert((front + seq!['/']).last() == '/');
    assert(whole.take(front.len() as int) =~= front);
    reveal_strlit("/");
    assert("/"@ =~= seq!['/']);
}

/// The last slash stands before a name without one.
proof fn lemma_last_slash(front: Seq<char>, name: Seq<char>)
    requires
        forall|i: int| 0 <= i < name.len() ==> #[trigger] name[i] != '/',
    ensures
        crate::text::rfind_char(front + name, '/') == crate::text::rfind_char(front, '/'),
    decreases name.len(),
{
    if name.len() == 0 {
        assert(front + name =~= front);
    } else {
        let short = name.drop_last();
        assert forall|i: int| 0 <= i < short.len() implies #[trigger] short[i] != '/' by {
            assert(short[i] == name[i]);
        }
        lemma_last_slash(front, short);
        assert((front + name).drop_last() =~= front + short);
        assert((front + name).last() == name[name.len() - 1]);
    }
}

/// The media types.
pub proof fn law_media_types(fmt: Seq<char>)
    ensures
        ({
            let t = trim(lowercase(fmt));
            mime_of(fmt) == if t == "jpg"@ || t == "jpeg"@ {
                "image/jpeg"@
            } else if t == "webp"@ {
                "image/webp"@
            } else {
                "image/png"@
            }
        }),
{
}

// ---- what the upstream made -------------------------------------------

/// The item is a finished call of the tool with data in it.
pub open spec fn holds_image(item: JsonSpec) -> bool {
    &&& item.get("type"@) == Some(JsonSpec::Str("image_generation_call"@))
    &&& item.get("result"@) matches Some(JsonSpec::Str(s)) && trim(s).len() > 0
}

/// The image is the one that an item holds, each of its texts under its own name.
pub open spec fn is_image_of(i: ImageSpec, item: JsonSpec) -> bool {
    &&& i.result == said(item, "result"@)
    &&& i.revised_prompt == said(item, "revised_prompt"@)
    &&& i.output_format == said(item, "output_format"@)
    &&& i.size == said(item, "size"@)
    &&& i.background == said(item, "background"@)
    &&& i.quality == said(item, "quality"@)
}

/// Each item that holds an image gives it, in the order of the items; others give
/// nothing.
pub proof fn law_every_image_is_taken(items: Seq<JsonSpec>, item: JsonSpec)
    ensures
        images_of(Seq::empty()) == Seq::<ImageSpec>::empty(),
        !holds_image(item) ==> images_of(items.push(item)) == images_of(items),
        holds_image(item) ==> {
            let all = images_of(items.push(item));
            &&& all.len() == images_of(items).len() + 1
            &&& all.drop_last() == images_of(items)
            &&& is_image_of(all.last(), item)
        },
{
    assert(items.push(item).drop_last() =~= items);
    if holds_image(item) {
        assert(images_of(items.push(item)).drop_last() =~= images_of(items));
    }
}

/// The images and the usage of a completed response are those of its output and of its
/// tool usage.
pub proof fn law_completed_response_is_read(event: JsonSpec)
    ensures
        event.get2("response"@, "output"@) matches Some(JsonSpec::Array(items))
            ==> completed_images(event) == images_of(items),
        !(event.get2("response"@, "output"@) matches Some(JsonSpec::Array(_)))
            ==> completed_images(event).len() == 0,
        event.get2("response"@, "tool_usage"@) matches Some(u) ==> image_usage(event) == u.get(
            "image_gen"@,
        ),
        event.get2("response"@, "tool_usage"@) is None ==> image_usage(event) is None,
{
}

/// The value has the data of an image: as a data URL under `url` where that was asked
/// for, else bare under `b64_json`, and not under the other key.
pub open spec fn shows_image(
    v: JsonSpec,
    response_format: Seq<char>,
    output_format: Seq<char>,
    data: Seq<char>,
) -> bool {
    if response_format == "url"@ {
        &&& v.get_str("url"@) == Some(
            "data:"@ + mime_of(output_format) + ";base64,"@ + data,
        )
        &&& v.get("b64_json"@) is None
    } else {
        &&& v.get_str("b64_json"@) == Some(data)
        &&& v.get("url"@) is None
    }
}

/// The value has a text under a key where the text is not empty, else lacks the key.
pub open spec fn tells_if_filled(v: JsonSpec, key: Seq<char>, text: Seq<char>) -> bool {
    if text.len() > 0 {
        v.get_str(key) == Some(text)
    } else {
        v.get(key) is None
    }
}

/// The keys of the answer differ from one another.
proof fn lemma_answer_keys()
    ensures
        seq![
            "created"@,
            "data"@,
            "background"@,
            "output_format"@,
            "quality"@,
            "size"@,
            "usage"@,
            "url"@,
            "b64_json"@,
            "revised_prompt"@,
            "type"@,
            "partial_image_index"@,
        ].no_duplicates(),
{
    reveal_strlit("created");
    reveal_strlit("data");
    reveal_strlit("background");
    reveal_strlit("output_format");
    reveal_strlit("quality");
    reveal_strlit("size");
    reveal_strlit("usage");
    reveal_strlit("url");
    reveal_strlit("b64_json");
    reveal_strlit("revised_prompt");
    reveal_strlit("type");
    reveal_strlit("partial_image_index");
    assert("created"@.len() == 7 && "created"@[0] == 'c');
    assert("data"@.len() == 4 && "data"@[0] == 'd');
    assert("background"@.len() == 10);
    assert("output_format"@.len() == 13);
    assert("quality"@.len() == 7 && "quality"@[0] == 'q');
    assert("size"@.len() == 4 && "size"@[0] == 's');
    assert("usage"@.len() == 5);
    assert("url"@.len() == 3);
    assert("b64_json"@.len() == 8);
    assert("revised_prompt"@.len() == 14);
    assert("type"@.len() == 4 && "type"@[0] == 't');
    assert("partial_image_index"@.len() == 19);
}

/// The keys of the answer, told apart one by one.
proof fn lemma_answer_keys_apart()
    ensures
        ({
            let k = seq![
                "created"@,
                "data"@,
                "background"@,
                "output_format"@,
                "quality"@,
                "size"@,
                "usage"@,
                "url"@,
                "b64_json"@,
                "revised_prompt"@,
                "type"@,
                "partial_image_index"@,
            ];
            &&& forall|i: int, j: int| 0 <= i < j < 12 ==> #[trigger] k[i] != #[trigger] k[j]
            &&& k[0] == "created"@
            &&& k[1] == "data"@
            &&& k[2] == "background"@
            &&& k[3] == "output_format"@
            &&& k[4] == "quality"@
            &&& k[5] == "size"@
            &&& k[6] == "usage"@
            &&& k[7] == "url"@
            &&& k[8] == "b64_json"@
            &&& k[9] == "revised_prompt"@
            &&& k[10] == "type"@
            &&& k[11] == "partial_image_index"@
        }),
{
    lemma_answer_keys();
}

/// The answer has one entry for each image, in their order, and tells of all of them
/// what the first says of itself.
pub proof fn law_answer_shows_every_image(
    images: Seq<ImageSpec>,
    response_format: Seq<char>,
    created: u64,
    usage: Option<JsonSpec>,
    k: int,
)
    ensures
        ({
            let v = images_answer(images, response_format, created, usage);
            &&& v.get("created"@) == Some(JsonSpec::Number(NumberSpec::Int(created as int)))
            &&& v.get("data"@) matches Some(JsonSpec::Array(data)) && data.len() == images.len()
                && (0 <= k < images.len() ==> {
                &&& shows_image(
                    data[k],
                    response_format,
                    images[k].output_format,
                    images[k].result,
                )
                &&& tells_if_filled(data[k], "revised_prompt"@, images[k].revised_prompt)
            })
            &&& images.len() > 0 ==> {
                &&& tells_if_filled(v, "background"@, images[0].background)
                &&& tells_if_filled(v, "output_format"@, images[0].output_format)
                &&& tells_if_filled(v, "quality"@, images[0].quality)
                &&& tells_if_filled(v, "size"@, images[0].size)
                &&& v.get("usage"@) == usage
            }
        }),
{
    lemma_answer_keys_apart();
    if 0 <= k < images.len() {
        let data = images.map_values(
            |i: ImageSpec| crate::images::answer_image(i, response_format),
        );
        assert(data[k] == crate::images::answer_image(images[k], response_format));
    }
}

/// The answer in one piece is made from the last completed response: its images, its
/// usage, and its time where it tells one, else the last that was told, or now.
pub proof fn law_last_completed_response_counts(events: Seq<JsonSpec>, e: JsonSpec, now: u64)
    ensures
        collected_images(Seq::empty(), now).created == now,
        collected_images(Seq::empty(), now).images.len() == 0,
        collected_images(Seq::empty(), now).usage is None,
        !is_kind(e, "response.completed"@) ==> collected_images(events.push(e), now)
            == collected_images(events, now),
        is_kind(e, "response.completed"@) ==> {
            let c = collected_images(events.push(e), now);
            &&& c.images == completed_images(e)
            &&& c.usage == image_usage(e)
            &&& match e.get2("response"@, "created_at"@) {
                Some(JsonSpec::Number(NumberSpec::Int(n))) if 0 <= n <= u64::MAX => c.created == n,
                _ => c.created == collected_images(events, now).created,
            }
        },
{
    assert(events.push(e).drop_last() =~= events);
}

// ---- the answer as a stream -------------------------------------------

/// The text is an event of this name with this payload.
pub open spec fn is_event(text: Seq<char>, name: Seq<char>, payload: JsonSpec) -> bool {
    text == "event: "@ + name + "\ndata: "@ + json_text(payload) + "\n\n"@
}

/// The text is the event for an image in the making.
pub open spec fn shows_partial(
    text: Seq<char>,
    payload: JsonSpec,
    e: JsonSpec,
    response_format: Seq<char>,
    prefix: Seq<char>,
) -> bool {
    &&& is_event(text, prefix + ".partial_image"@, payload)
    &&& payload.get_str("type"@) == Some(prefix + ".partial_image"@)
    &&& payload.get("partial_image_index"@) == Some(
        JsonSpec::Number(
            NumberSpec::Int(
                match e.get_u64("partial_image_index"@) {
                    Some(n) => n as int,
                    None => 0,
                },
            ),
        ),
    )
    &&& shows_image(
        payload,
        response_format,
        said(e, "output_format"@),
        said(e, "partial_image_b64"@),
    )
}

/// The text is the event for a finished image.
pub open spec fn shows_finished(
    text: Seq<char>,
    payload: JsonSpec,
    image: ImageSpec,
    usage: Option<JsonSpec>,
    response_format: Seq<char>,
    prefix: Seq<char>,
) -> bool {
    &&& is_event(text, prefix + ".completed"@, payload)
    &&& payload.get_str("type"@) == Some(prefix + ".completed"@)
    &&& shows_image(payload, response_format, image.output_format, image.result)
    &&& tells_if_filled(payload, "revised_prompt"@, image.revised_prompt)
    &&& payload.get("usage"@) == usage
}

/// An image in the making is sent as it comes, and nothing is sent where it has no data.
pub proof fn law_partial_image_is_sent(e: JsonSpec, response_format: Seq<char>, prefix: Seq<char>)
    requires
        is_kind(e, "response.image_generation_call.partial_image"@),
    ensures
        trim(said(e, "partial_image_b64"@)).len() > 0 ==> exists|payload: JsonSpec| #[trigger]
            shows_partial(
                image_event_text(e, response_format, prefix),
                payload,
                e,
                response_format,
                prefix,
            ),
        trim(said(e, "partial_image_b64"@)).len() == 0 ==> image_event_text(
            e,
            response_format,
            prefix,
        ).len() == 0,
{
    lemma_answer_keys_apart();
    let name = prefix + ".partial_image"@;
    let index: u64 = match e.get_u64("partial_image_index"@) {
        Some(n) => n,
        None => 0,
    };
    let m = map![
        "type"@ => JsonSpec::Str(name),
        "partial_image_index"@ => JsonSpec::Number(NumberSpec::Int(index as int)),
    ];
    let payload = JsonSpec::Object(
        crate::images::with_image(
            m,
            response_format,
            e.str_or_empty("output_format"@),
            said(e, "partial_image_b64"@),
        ),
    );
    if trim(said(e, "partial_image_b64"@)).len() > 0 {
        assert(e.get_str("partial_image_b64"@) == Some(said(e, "partial_image_b64"@))) by {
            assert(trim(Seq::<char>::empty()).len() == 0);
        }
        assert(shows_partial(
            image_event_text(e, response_format, prefix),
            payload,
            e,
            response_format,
            prefix,
        ));
    }
}

/// The finished images are sent one after the other, each in its own event.
pub proof fn law_finished_images_are_sent(
    images: Seq<ImageSpec>,
    image: ImageSpec,
    usage: Option<JsonSpec>,
    response_format: Seq<char>,
    prefix: Seq<char>,
)
    ensures
        completed_events(Seq::empty(), usage, response_format, prefix).len() == 0,
        exists|text: Seq<char>, payload: JsonSpec| #[trigger]
            shows_finished(text, payload, image, usage, response_format, prefix)
                && completed_events(images.push(image), usage, response_format, prefix)
                == completed_events(images, usage, response_format, prefix) + text,
{
    lemma_answer_keys_apart();
    assert(images.push(image).drop_last() =~= images);
    let name = prefix + ".completed"@;
    let m = map!["type"@ => JsonSpec::Str(name)];
    let m = crate::images::with_image(m, response_format, image.output_format, image.result);
    let m = crate::images::with_filled(m, "revised_prompt"@, image.revised_prompt);
    let payload = JsonSpec::Object(crate::images::with_value(m, "usage"@, usage));
    let text = crate::images::completed_event(image, usage, response_format, prefix);
    assert(shows_finished(text, payload, image, usage, response_format, prefix));
}

/// A completed response sends its images with its usage, or an error where it has none;
/// events of other kinds send nothing; and all is sent in the order of the events.
pub proof fn law_image_events_are_answered(
    events: Seq<JsonSpec>,
    e: JsonSpec,
    response_format: Seq<char>,
    prefix: Seq<char>,
)
    ensures
        image_stream_text(Seq::empty(), response_format, prefix).len() == 0,
        image_stream_text(events.push(e), response_format, prefix) == image_stream_text(
            events,
            response_format,
            prefix,
        ) + image_event_text(e, response_format, prefix),
        is_kind(e, "response.completed"@) && completed_images(e).len() > 0 ==> image_event_text(
            e,
            response_format,
            prefix,
        ) == completed_events(completed_images(e), image_usage(e), response_format, prefix),
        is_kind(e, "response.completed"@) && completed_images(e).len() == 0 ==> exists|
            payload: JsonSpec,
        | #[trigger]
            is_event(image_event_text(e, response_format, prefix), "error"@, payload)
                && payload.get2("error"@, "message"@) == Some(
                JsonSpec::Str("Upstream did not return image output"@),
            ),
        !is_kind(e, "response.completed"@) && !is_kind(
            e,
            "response.image_generation_call.partial_image"@,
        ) ==> image_event_text(e, response_format, prefix).len() == 0,
{
    assert(events.push(e).drop_last() =~= events);
    reveal_strlit("response.completed");
    reveal_strlit("response.image_generation_call.partial_image");
    assert("response.completed"@.len() == 18);
    assert("response.image_generation_call.partial_image"@.len() == 44);
    let payload = crate::errors::error_of("Upstream did not return image output"@);
    if is_kind(e, "response.completed"@) && completed_images(e).len() == 0 {
        assert(is_event(image_event_text(e, response_format, prefix), "error"@, payload));
    }
}

} // verus!
