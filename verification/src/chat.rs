//! Chat completion requests, and their translation to Responses requests.

use vstd::prelude::*;

use crate::config::REASONING_EFFORTS;
use crate::json::{
    entries_view, items_view, lemma_items_push, opt_owned, put, Json, JsonNumber, JsonSpec,
};
use crate::json_codec::{json_text, write_json};
use crate::text::{
    concat, finishes_with, is_empty, join, joined, opt_view, str_eq, strip_suffix, texts,
};

verus! {

// ---- requests ---------------------------------------------------------

/// A chat completion request.
#[derive(Debug)]
pub struct ChatRequest {
    pub model: String,
    pub messages: Vec<ChatMessage>,
    pub stream: bool,
    pub temperature: Option<JsonNumber>,
    pub top_p: Option<JsonNumber>,
    pub max_tokens: Option<u64>,
    pub max_completion_tokens: Option<u64>,
    pub stop: Option<Json>,
    pub n: Option<u64>,
    pub stream_options: Option<StreamOptions>,
    pub tools: Option<Vec<ToolDef>>,
    pub tool_choice: Option<Json>,
    pub parallel_tool_calls: Option<bool>,
    pub reasoning_effort: Option<String>,
    pub frequency_penalty: Option<JsonNumber>,
    pub presence_penalty: Option<JsonNumber>,
    pub logprobs: Option<bool>,
    pub response_format: Option<Json>,
    pub seed: Option<i64>,
    pub user: Option<String>,
    pub service_tier: Option<String>,
}

#[derive(Debug)]
pub struct StreamOptions {
    pub include_usage: Option<bool>,
}

#[derive(Debug)]
pub struct ChatMessage {
    pub role: String,
    pub content: Option<Json>,
    pub tool_calls: Option<Vec<ToolCall>>,
    pub tool_call_id: Option<String>,
    pub name: Option<String>,
}

#[derive(Debug)]
pub struct ToolCall {
    pub id: String,
    pub call_type: Option<String>,
    pub function: FunctionCall,
}

#[derive(Debug)]
pub struct FunctionCall {
    pub name: String,
    pub arguments: String,
}

#[derive(Debug)]
pub struct ToolDef {
    pub tool_type: String,
    pub function: Option<FunctionDef>,
}

#[derive(Debug)]
pub struct FunctionDef {
    pub name: String,
    pub description: Option<String>,
    pub parameters: Option<Json>,
}

/// A tool call of a message, as far as it is translated.
pub struct CallSpec {
    pub id: Seq<char>,
    pub name: Seq<char>,
    pub arguments: Seq<char>,
}

/// A message, as far as it is translated.
pub struct MessageSpec {
    pub role: Seq<char>,
    pub content: Option<JsonSpec>,
    pub tool_calls: Seq<CallSpec>,
    pub tool_call_id: Option<Seq<char>>,
}

/// The function of a tool.
pub struct FunctionSpec {
    pub name: Seq<char>,
    pub description: Option<Seq<char>>,
    pub parameters: Option<JsonSpec>,
}

/// A request, as far as it is translated: sampling controls and token limits are
/// accepted but are no part of it.
pub struct RequestSpec {
    pub model: Seq<char>,
    pub messages: Seq<MessageSpec>,
    pub stop: Option<JsonSpec>,
    pub tools: Option<Seq<Option<FunctionSpec>>>,
    pub tool_choice: Option<JsonSpec>,
    pub parallel_tool_calls: Option<bool>,
    pub reasoning_effort: Option<Seq<char>>,
}

impl View for ToolCall {
    type V = CallSpec;

    open spec fn view(&self) -> CallSpec {
        CallSpec {
            id: self.id@,
            name: self.function.name@,
            arguments: self.function.arguments@,
        }
    }
}

/// What several tool calls are.
pub open spec fn calls_view(v: Seq<ToolCall>) -> Seq<CallSpec> {
    v.map_values(|c: ToolCall| c@)
}

impl View for ChatMessage {
    type V = MessageSpec;

    open spec fn view(&self) -> MessageSpec {
        MessageSpec {
            role: self.role@,
            content: opt_owned(self.content),
            tool_calls: match self.tool_calls {
                Some(v) => calls_view(v@),
                None => seq![],
            },
            tool_call_id: opt_view(self.tool_call_id),
        }
    }
}

/// What several messages are.
pub open spec fn messages_view(v: Seq<ChatMessage>) -> Seq<MessageSpec> {
    v.map_values(|m: ChatMessage| m@)
}

impl View for FunctionDef {
    type V = FunctionSpec;

    open spec fn view(&self) -> FunctionSpec {
        FunctionSpec {
            name: self.name@,
            description: opt_view(self.description),
            parameters: opt_owned(self.parameters),
        }
    }
}

impl View for ToolDef {
    type V = Option<FunctionSpec>;

    open spec fn view(&self) -> Option<FunctionSpec> {
        match self.function {
            Some(f) => Some(f@),
            None => None,
        }
    }
}

/// What several tools are.
pub open spec fn tools_view(v: Seq<ToolDef>) -> Seq<Option<FunctionSpec>> {
    v.map_values(|t: ToolDef| t@)
}

impl View for ChatRequest {
    type V = RequestSpec;

    open spec fn view(&self) -> RequestSpec {
        RequestSpec {
            model: self.model@,
            messages: messages_view(self.messages@),
            stop: opt_owned(self.stop),
            tools: match self.tools {
                Some(v) => Some(tools_view(v@)),
                None => None,
            },
            tool_choice: opt_owned(self.tool_choice),
            parallel_tool_calls: self.parallel_tool_calls,
            reasoning_effort: opt_view(self.reasoning_effort),
        }
    }
}

// ---- reasoning suffix -------------------------------------------------

/// The end of a model's name that asks for an effort.
pub open spec fn effort_suffix(effort: Seq<char>) -> Seq<char> {
    "-"@ + effort
}

/// The first reasoning effort, at `from` or later, that the model's name ends
/// in, or the number of efforts.
pub open spec fn suffix_index(model: Seq<char>, from: int) -> int
    decreases REASONING_EFFORTS@.len() - from,
{
    if 0 <= from < REASONING_EFFORTS@.len() && !finishes_with(
        model,
        effort_suffix(REASONING_EFFORTS@[from]@),
    ) {
        suffix_index(model, from + 1)
    } else {
        from
    }
}

/// A model's name without the effort that it ends in, and that effort.
pub open spec fn split_model(model: Seq<char>) -> (Seq<char>, Option<Seq<char>>) {
    let i = suffix_index(model, 0);
    if i < REASONING_EFFORTS@.len() {
        let effort = REASONING_EFFORTS@[i]@;
        (model.take(model.len() - effort_suffix(effort).len()), Some(effort))
    } else {
        (model, None)
    }
}

/// Splits the reasoning effort off a model's name:
/// `gpt-5.5-xhigh` is `gpt-5.5` with the effort `xhigh`.
pub fn parse_reasoning_suffix(model: &str) -> (r: (String, Option<String>))
    ensures
        (r.0@, opt_view(r.1)) == split_model(model@),
{
    let efforts = REASONING_EFFORTS;
    let mut i: usize = 0;
    while i < 6
        invariant
            i <= 6,
            efforts == REASONING_EFFORTS,
            suffix_index(model@, 0) == suffix_index(model@, i as int),
        decreases 6 - i,
    {
        let effort: &'static str = efforts[i];
        let suffix = concat("-", effort);
        match strip_suffix(model, suffix.as_str()) {
            Some(rest) => {
                return (rest, Some(effort.to_owned()));
            },
            None => {},
        }
        i = i + 1;
    }
    (model.to_owned(), None)
}

/// The efforts, letter by letter.
proof fn lemma_efforts()
    ensures
        REASONING_EFFORTS@.len() == 6,
        REASONING_EFFORTS@[0]@ == seq!['n', 'o', 'n', 'e'],
        REASONING_EFFORTS@[1]@ == seq!['m', 'i', 'n', 'i', 'm', 'a', 'l'],
        REASONING_EFFORTS@[2]@ == seq!['l', 'o', 'w'],
        REASONING_EFFORTS@[3]@ == seq!['m', 'e', 'd', 'i', 'u', 'm'],
        REASONING_EFFORTS@[4]@ == seq!['h', 'i', 'g', 'h'],
        REASONING_EFFORTS@[5]@ == seq!['x', 'h', 'i', 'g', 'h'],
        "-"@ == seq!['-'],
{
    reveal_strlit("none");
    reveal_strlit("minimal");
    reveal_strlit("low");
    reveal_strlit("medium");
    reveal_strlit("high");
    reveal_strlit("xhigh");
    reveal_strlit("-");
    assert(REASONING_EFFORTS@[0]@ =~= seq!['n', 'o', 'n', 'e']);
    assert(REASONING_EFFORTS@[1]@ =~= seq!['m', 'i', 'n', 'i', 'm', 'a', 'l']);
    assert(REASONING_EFFORTS@[2]@ =~= seq!['l', 'o', 'w']);
    assert(REASONING_EFFORTS@[3]@ =~= seq!['m', 'e', 'd', 'i', 'u', 'm']);
    assert(REASONING_EFFORTS@[4]@ =~= seq!['h', 'i', 'g', 'h']);
    assert(REASONING_EFFORTS@[5]@ =~= seq!['x', 'h', 'i', 'g', 'h']);
    assert("-"@ =~= seq!['-']);
}

/// Where a text ends with `p`, its last characters are those of `p`.
proof fn lemma_suffix_chars(s: Seq<char>, p: Seq<char>, back: int)
    requires
        finishes_with(s, p),
        0 < back <= p.len(),
    ensures
        s[s.len() - back] == p[p.len() - back],
{
    assert(s.skip(s.len() - p.len())[p.len() - back] == s[s.len() - back]);
}

/// A name that ends in one effort ends in no other.
proof fn lemma_one_suffix(model: Seq<char>, j: int, k: int)
    requires
        0 <= j < 6,
        0 <= k < 6,
        j != k,
        finishes_with(model, effort_suffix(REASONING_EFFORTS@[k]@)),
    ensures
        !finishes_with(model, effort_suffix(REASONING_EFFORTS@[j]@)),
{
    lemma_efforts();
    let a = effort_suffix(REASONING_EFFORTS@[j]@);
    let b = effort_suffix(REASONING_EFFORTS@[k]@);
    if finishes_with(model, a) {
        lemma_suffix_chars(model, a, 1);
        lemma_suffix_chars(model, b, 1);
        assert(a.last() == b.last());
        if (j == 4 && k == 5) || (j == 5 && k == 4) {
            lemma_suffix_chars(model, a, 5);
            lemma_suffix_chars(model, b, 5);
        }
    }
}

/// The search for a suffix finds the one that is there.
proof fn lemma_suffix_found(model: Seq<char>, from: int, k: int)
    requires
        0 <= from <= k < 6,
        finishes_with(model, effort_suffix(REASONING_EFFORTS@[k]@)),
    ensures
        suffix_index(model, from) == k,
    decreases k - from,
{
    if from < k {
        lemma_one_suffix(model, from, k);
        lemma_suffix_found(model, from + 1, k);
    }
}

/// Any model's name with any effort behind it is split into that name and that
/// effort.
pub proof fn law_suffix_is_split_off(model: Seq<char>, k: int)
    requires
        0 <= k < REASONING_EFFORTS@.len(),
    ensures
        split_model(model + effort_suffix(REASONING_EFFORTS@[k]@)) == (
            model,
            Some(REASONING_EFFORTS@[k]@),
        ),
{
    let suffix = effort_suffix(REASONING_EFFORTS@[k]@);
    let whole = model + suffix;
    assert(whole.skip(whole.len() - suffix.len()) =~= suffix);
    lemma_suffix_found(whole, 0, k);
    assert(whole.take(whole.len() - suffix.len()) =~= model);
}

/// The search for a suffix stops at one that is there, or at the end.
proof fn lemma_suffix_index(model: Seq<char>, from: int)
    requires
        0 <= from <= 6,
    ensures
        from <= suffix_index(model, from) <= 6,
        suffix_index(model, from) < 6 ==> finishes_with(
            model,
            effort_suffix(REASONING_EFFORTS@[suffix_index(model, from)]@),
        ),
    decreases 6 - from,
{
    if from < 6 {
        lemma_suffix_index(model, from + 1);
    }
}

/// What a model's name is split into makes up the name again.
pub proof fn law_split_model_rejoins(model: Seq<char>)
    ensures
        match split_model(model) {
            (clean, Some(effort)) => clean + effort_suffix(effort) == model,
            (clean, None) => clean == model,
        },
{
    lemma_suffix_index(model, 0);
    let i = suffix_index(model, 0);
    if i < 6 {
        let suffix = effort_suffix(REASONING_EFFORTS@[i]@);
        assert(model.take(model.len() - suffix.len()) + model.skip(model.len() - suffix.len())
            =~= model);
    }
}

// ---- content ----------------------------------------------------------

/// The texts of the parts that have one, one after the other.
pub open spec fn part_texts(parts: Seq<JsonSpec>) -> Seq<char>
    decreases parts.len(),
{
    if parts.len() == 0 {
        seq![]
    } else {
        part_texts(parts.drop_last()) + parts.last().str_or_empty("text"@)
    }
}

/// The text of a content that is there. Content that is neither a text nor a
/// list of parts is taken as its JSON text.
pub open spec fn text_of(content: JsonSpec) -> Seq<char> {
    match content {
        JsonSpec::Str(s) => s,
        JsonSpec::Array(parts) => part_texts(parts),
        other => json_text(other),
    }
}

/// The text of a content that may be absent.
pub open spec fn text_of_opt(content: Option<JsonSpec>) -> Seq<char> {
    match content {
        Some(c) => text_of(c),
        None => seq![],
    }
}

/// The text of a content, where `null` is the empty text.
pub open spec fn text_of_val(content: JsonSpec) -> Seq<char> {
    match content {
        JsonSpec::Null => seq![],
        other => text_of(other),
    }
}

/// The texts of the parts that have one, one after the other.
fn read_part_texts(parts: &Vec<Json>) -> (r: String)
    ensures
        r@ == part_texts(items_view(parts@)),
{
    let ghost all = items_view(parts@);
    let mut out = String::new();
    let mut i: usize = 0;
    proof {
        assert(out@ =~= part_texts(all.take(0)));
    }
    while i < parts.len()
        invariant
            i <= parts@.len(),
            all == items_view(parts@),
            out@ == part_texts(all.take(i as int)),
        decreases parts@.len() - i,
    {
        proof {
            assert(all.take(i + 1).drop_last() =~= all.take(i as int));
            assert(all.take(i + 1).last() == parts@[i as int]@);
        }
        let text = parts[i].str_or_empty("text");
        out.append(text.as_str());
        i = i + 1;
    }
    proof {
        assert(all.take(all.len() as int) =~= all);
    }
    out
}

/// The text of a content that may be absent.
pub fn extract_text(content: &Option<Json>) -> (r: String)
    ensures
        r@ == text_of_opt(opt_owned(*content)),
{
    match content {
        None => String::new(),
        Some(Json::Str(s)) => s.clone(),
        Some(Json::Array(parts)) => read_part_texts(parts),
        Some(other) => write_json(other),
    }
}

/// The text of a content, where `null` is the empty text.
pub fn extract_text_val(content: &Json) -> (r: String)
    ensures
        r@ == text_of_val(content@),
{
    match content {
        Json::Str(s) => s.clone(),
        Json::Array(parts) => read_part_texts(parts),
        Json::Null => String::new(),
        other => write_json(other),
    }
}

/// A part that holds a text.
pub open spec fn text_part(kind: Seq<char>, text: Seq<char>) -> JsonSpec {
    JsonSpec::Object(map!["type"@ => JsonSpec::Str(kind), "text"@ => JsonSpec::Str(text)])
}

/// A part that names an image.
pub open spec fn image_part(url: Seq<char>) -> JsonSpec {
    JsonSpec::Object(
        map!["type"@ => JsonSpec::Str("input_image"@), "image_url"@ => JsonSpec::Str(url)],
    )
}

/// The address in a part of the type `image_url`, or the empty text.
pub open spec fn image_url_of(part: JsonSpec) -> Seq<char> {
    match part.get2("image_url"@, "url"@) {
        Some(JsonSpec::Str(s)) => s,
        _ => seq![],
    }
}

/// A part as the upstream takes it.
pub open spec fn part_of(part: JsonSpec, text_type: Seq<char>) -> JsonSpec {
    let kind = part.str_or_empty("type"@);
    if kind == "text"@ {
        text_part(text_type, part.str_or_empty("text"@))
    } else if kind == "image_url"@ {
        image_part(image_url_of(part))
    } else {
        part
    }
}

/// The parts of a content as the upstream takes them.
pub open spec fn parts_of(content: Option<JsonSpec>, text_type: Seq<char>) -> Seq<JsonSpec> {
    match content {
        Some(JsonSpec::Array(parts)) => parts.map_values(|p: JsonSpec| part_of(p, text_type)),
        other => seq![text_part(text_type, text_of_opt(other))],
    }
}

/// A part that holds a text.
fn make_text_part(kind: &str, text: &str) -> (r: Json)
    ensures
        r@ == text_part(kind@, text@),
{
    let mut e: Vec<(String, Json)> = Vec::new();
    put(&mut e, "type", Json::text(kind));
    put(&mut e, "text", Json::text(text));
    Json::Object(e)
}

/// A part as the upstream takes it.
fn translate_part(part: &Json, text_type: &str) -> (r: Json)
    ensures
        r@ == part_of(part@, text_type@),
{
    let kind = part.str_or_empty("type");
    if str_eq(kind.as_str(), "text") {
        let text = part.str_or_empty("text");
        make_text_part(text_type, text.as_str())
    } else if str_eq(kind.as_str(), "image_url") {
        let url = match part.get2("image_url", "url") {
            Some(Json::Str(s)) => s.clone(),
            _ => String::new(),
        };
        let mut e: Vec<(String, Json)> = Vec::new();
        put(&mut e, "type", Json::text("input_image"));
        put(&mut e, "image_url", Json::Str(url));
        Json::Object(e)
    } else {
        part.clone()
    }
}

/// The parts of a content as the upstream takes them.
pub fn translate_content(content: &Option<Json>, text_type: &str) -> (r: Json)
    ensures
        r@ == JsonSpec::Array(parts_of(opt_owned(*content), text_type@)),
{
    match content {
        Some(Json::Array(parts)) => {
            let ghost all = items_view(parts@);
            let mut out: Vec<Json> = Vec::new();
            let mut i: usize = 0;
            while i < parts.len()
                invariant
                    i <= parts@.len(),
                    all == items_view(parts@),
                    items_view(out@) == all.take(i as int).map_values(
                        |p: JsonSpec| part_of(p, text_type@),
                    ),
                decreases parts@.len() - i,
            {
                let p = translate_part(&parts[i], text_type);
                proof {
                    lemma_items_push(out@, p);
                    assert(all[i as int] == parts@[i as int]@);
                    assert(all.take(i + 1) =~= all.take(i as int).push(all[i as int]));
                    assert(all.take(i + 1).map_values(|p: JsonSpec| part_of(p, text_type@))
                        =~= all.take(i as int).map_values(
                        |p: JsonSpec| part_of(p, text_type@),
                    ).push(p@));
                }
                out.push(p);
                i = i + 1;
            }
            proof {
                assert(all.take(all.len() as int) =~= all);
            }
            Json::Array(out)
        },
        _ => {
            let text = extract_text(content);
            let part = make_text_part(text_type, text.as_str());
            let ghost p = part@;
            let out = vec![part];
            proof {
                assert(items_view(out@) =~= seq![p]);
            }
            Json::Array(out)
        },
    }
}

// ---- messages ---------------------------------------------------------

/// Whether messages of a role are instructions.
pub open spec fn is_instruction(role: Seq<char>) -> bool {
    role == "system"@ || role == "developer"@
}

/// A message item.
pub open spec fn message_item(role: Seq<char>, content: JsonSpec) -> JsonSpec {
    JsonSpec::Object(
        map![
            "type"@ => JsonSpec::Str("message"@),
            "role"@ => JsonSpec::Str(role),
            "content"@ => content,
        ],
    )
}

/// A function call item.
pub open spec fn call_item(call: CallSpec) -> JsonSpec {
    JsonSpec::Object(
        map![
            "type"@ => JsonSpec::Str("function_call"@),
            "call_id"@ => JsonSpec::Str(call.id),
            "name"@ => JsonSpec::Str(call.name),
            "arguments"@ => JsonSpec::Str(call.arguments),
        ],
    )
}

/// A text that may be absent, as JSON.
pub open spec fn str_or_null(s: Option<Seq<char>>) -> JsonSpec {
    match s {
        Some(t) => JsonSpec::Str(t),
        None => JsonSpec::Null,
    }
}

/// The item with the output of a function call.
pub open spec fn output_item(call_id: Option<Seq<char>>, output: Seq<char>) -> JsonSpec {
    JsonSpec::Object(
        map![
            "type"@ => JsonSpec::Str("function_call_output"@),
            "call_id"@ => str_or_null(call_id),
            "output"@ => JsonSpec::Str(output),
        ],
    )
}

/// The items of an assistant's message: its text, where it has one, then its
/// calls.
pub open spec fn assistant_items(m: MessageSpec) -> Seq<JsonSpec> {
    let text = match m.content {
        Some(c) => text_of_val(c),
        None => seq![],
    };
    let calls = m.tool_calls.map_values(|c: CallSpec| call_item(c));
    if text.len() > 0 {
        seq![
            message_item("assistant"@, JsonSpec::Array(seq![text_part("output_text"@, text)])),
        ] + calls
    } else {
        calls
    }
}

/// The items of a message.
pub open spec fn message_items(m: MessageSpec) -> Seq<JsonSpec> {
    if is_instruction(m.role) {
        seq![]
    } else if m.role == "assistant"@ {
        assistant_items(m)
    } else if m.role == "tool"@ {
        seq![output_item(m.tool_call_id, text_of_opt(m.content))]
    } else {
        seq![message_item("user"@, JsonSpec::Array(parts_of(m.content, "input_text"@)))]
    }
}

/// The items of several messages.
pub open spec fn input_of(ms: Seq<MessageSpec>) -> Seq<JsonSpec>
    decreases ms.len(),
{
    if ms.len() == 0 {
        seq![]
    } else {
        input_of(ms.drop_last()) + message_items(ms.last())
    }
}

/// The texts of the messages that are instructions.
pub open spec fn instruction_parts(ms: Seq<MessageSpec>) -> Seq<Seq<char>>
    decreases ms.len(),
{
    if ms.len() == 0 {
        seq![]
    } else if is_instruction(ms.last().role) {
        instruction_parts(ms.drop_last()).push(text_of_opt(ms.last().content))
    } else {
        instruction_parts(ms.drop_last())
    }
}

/// The instructions of several messages.
pub open spec fn instructions_of(ms: Seq<MessageSpec>) -> Seq<char> {
    join(instruction_parts(ms), "\n\n"@)
}

/// A text that may be absent, as JSON.
fn opt_text(s: &Option<String>) -> (r: Json)
    ensures
        r@ == str_or_null(opt_view(*s)),
{
    match s {
        Some(t) => Json::Str(t.clone()),
        None => Json::Null,
    }
}

/// A message item.
fn make_message(role: &str, content: Json) -> (r: Json)
    ensures
        r@ == message_item(role@, content@),
{
    let mut e: Vec<(String, Json)> = Vec::new();
    put(&mut e, "type", Json::text("message"));
    put(&mut e, "role", Json::text(role));
    put(&mut e, "content", content);
    Json::Object(e)
}

/// A function call item.
fn make_call(call: &ToolCall) -> (r: Json)
    ensures
        r@ == call_item(call@),
{
    let mut e: Vec<(String, Json)> = Vec::new();
    put(&mut e, "type", Json::text("function_call"));
    put(&mut e, "call_id", Json::text(call.id.as_str()));
    put(&mut e, "name", Json::text(call.function.name.as_str()));
    put(&mut e, "arguments", Json::text(call.function.arguments.as_str()));
    Json::Object(e)
}

/// The items of an assistant's message.
fn translate_assistant(m: &ChatMessage) -> (r: Vec<Json>)
    ensures
        items_view(r@) == assistant_items(m@),
{
    let mut out: Vec<Json> = Vec::new();
    let text = match &m.content {
        Some(c) => extract_text_val(c),
        None => String::new(),
    };
    if !is_empty(text.as_str()) {
        let part = make_text_part("output_text", text.as_str());
        let ghost p = part@;
        let parts = vec![part];
        proof {
            assert(items_view(parts@) =~= seq![p]);
        }
        let item = make_message("assistant", Json::Array(parts));
        proof {
            lemma_items_push(out@, item);
        }
        out.push(item);
    }
    let ghost head = items_view(out@);
    proof {
        let text = match m@.content {
            Some(c) => text_of_val(c),
            None => seq![],
        };
        if text.len() > 0 {
            assert(head =~= seq![
                message_item("assistant"@, JsonSpec::Array(seq![text_part("output_text"@, text)])),
            ]);
        } else {
            assert(head =~= seq![]);
        }
    }
    match &m.tool_calls {
        Some(calls) => {
            let ghost all = calls_view(calls@).map_values(|c: CallSpec| call_item(c));
            let mut i: usize = 0;
            proof {
                assert(head + all.take(0) =~= head);
            }
            while i < calls.len()
                invariant
                    i <= calls@.len(),
                    all == calls_view(calls@).map_values(|c: CallSpec| call_item(c)),
                    items_view(out@) == head + all.take(i as int),
                decreases calls@.len() - i,
            {
                let item = make_call(&calls[i]);
                proof {
                    lemma_items_push(out@, item);
                    assert(all[i as int] == item@);
                    assert(head + all.take(i + 1) =~= (head + all.take(i as int)).push(item@));
                }
                out.push(item);
                i = i + 1;
            }
            proof {
                assert(all.take(all.len() as int) =~= all);
                assert(items_view(out@) =~= assistant_items(m@));
            }
        },
        None => {
            proof {
                assert(items_view(out@) =~= assistant_items(m@));
            }
        },
    }
    out
}

/// The items of a message that is no instruction.
fn translate_message(m: &ChatMessage) -> (r: Vec<Json>)
    requires
        !is_instruction(m@.role),
    ensures
        items_view(r@) == message_items(m@),
{
    if str_eq(m.role.as_str(), "assistant") {
        return translate_assistant(m);
    }
    let item = if str_eq(m.role.as_str(), "tool") {
        let mut e: Vec<(String, Json)> = Vec::new();
        put(&mut e, "type", Json::text("function_call_output"));
        put(&mut e, "call_id", opt_text(&m.tool_call_id));
        put(&mut e, "output", Json::Str(extract_text(&m.content)));
        Json::Object(e)
    } else {
        make_message("user", translate_content(&m.content, "input_text"))
    };
    let ghost i = item@;
    let out = vec![item];
    proof {
        assert(items_view(out@) =~= seq![i]);
    }
    out
}

/// The instructions and the items of several messages.
pub fn translate_messages(messages: &Vec<ChatMessage>) -> (r: (String, Vec<Json>))
    ensures
        r.0@ == instructions_of(messages_view(messages@)),
        items_view(r.1@) == input_of(messages_view(messages@)),
{
    let ghost all = messages_view(messages@);
    let mut parts: Vec<String> = Vec::new();
    let mut input: Vec<Json> = Vec::new();
    let mut i: usize = 0;
    proof {
        assert(texts(parts@) =~= instruction_parts(all.take(0)));
        assert(items_view(input@) =~= input_of(all.take(0)));
    }
    while i < messages.len()
        invariant
            i <= messages@.len(),
            all == messages_view(messages@),
            texts(parts@) == instruction_parts(all.take(i as int)),
            items_view(input@) == input_of(all.take(i as int)),
        decreases messages@.len() - i,
    {
        let m = &messages[i];
        proof {
            assert(all.take(i + 1).drop_last() =~= all.take(i as int));
            assert(all.take(i + 1).last() == m@);
        }
        if str_eq(m.role.as_str(), "system") || str_eq(m.role.as_str(), "developer") {
            let text = extract_text(&m.content);
            proof {
                crate::text::lemma_texts_push(parts@, text);
                assert(items_view(input@) =~= items_view(input@) + message_items(m@));
            }
            parts.push(text);
        } else {
            let mut items = translate_message(m);
            let ghost before = input@;
            let ghost added = items@;
            input.append(&mut items);
            proof {
                assert(items_view(input@) =~= items_view(before) + items_view(added));
            }
        }
        i = i + 1;
    }
    proof {
        assert(all.take(all.len() as int) =~= all);
    }
    (joined(&parts, "\n\n"), input)
}

// ---- the request to the upstream --------------------------------------

/// The fields that every request to the upstream has.
pub open spec fn base_body(req: RequestSpec) -> Map<Seq<char>, JsonSpec> {
    map![
        "model"@ => JsonSpec::Str(split_model(req.model).0),
        "instructions"@ => JsonSpec::Str(instructions_of(req.messages)),
        "input"@ => JsonSpec::Array(input_of(req.messages)),
        "stream"@ => JsonSpec::Bool(true),
        "store"@ => JsonSpec::Bool(false),
    ]
}

/// The effort that is asked for: the request's own, else that of the model's
/// name.
pub open spec fn effort_of(req: RequestSpec) -> Option<Seq<char>> {
    match req.reasoning_effort {
        Some(e) => Some(e),
        None => split_model(req.model).1,
    }
}

/// The body with the effort that is asked for.
pub open spec fn with_effort(
    body: Map<Seq<char>, JsonSpec>,
    effort: Option<Seq<char>>,
) -> Map<Seq<char>, JsonSpec> {
    match effort {
        Some(e) => body.insert(
            "reasoning"@,
            JsonSpec::Object(map!["effort"@ => JsonSpec::Str(e)]),
        ),
        None => body,
    }
}

/// The body with the stop sequences.
pub open spec fn with_stop(
    body: Map<Seq<char>, JsonSpec>,
    stop: Option<JsonSpec>,
) -> Map<Seq<char>, JsonSpec> {
    match stop {
        Some(JsonSpec::Str(s)) => body.insert("stop"@, JsonSpec::Array(seq![JsonSpec::Str(s)])),
        Some(JsonSpec::Array(v)) => body.insert("stop"@, JsonSpec::Array(v)),
        _ => body,
    }
}

/// A tool as the upstream takes it.
pub open spec fn tool_item(f: FunctionSpec) -> JsonSpec {
    JsonSpec::Object(
        map![
            "type"@ => JsonSpec::Str("function"@),
            "name"@ => JsonSpec::Str(f.name),
            "description"@ => str_or_null(f.description),
            "parameters"@ => match f.parameters {
                Some(p) => p,
                None => JsonSpec::Null,
            },
        ],
    )
}

/// The tools that are functions, as the upstream takes them.
pub open spec fn tool_items(tools: Seq<Option<FunctionSpec>>) -> Seq<JsonSpec>
    decreases tools.len(),
{
    if tools.len() == 0 {
        seq![]
    } else {
        match tools.last() {
            Some(f) => tool_items(tools.drop_last()).push(tool_item(f)),
            None => tool_items(tools.drop_last()),
        }
    }
}

/// The body with the tools.
pub open spec fn with_tools(
    body: Map<Seq<char>, JsonSpec>,
    tools: Option<Seq<Option<FunctionSpec>>>,
) -> Map<Seq<char>, JsonSpec> {
    match tools {
        Some(t) if tool_items(t).len() > 0 => body.insert("tools"@, JsonSpec::Array(tool_items(t))),
        _ => body,
    }
}

/// The body with the choice of a tool: a function that is named is passed on, no
/// tools are offered where none may be used, and other choices are left out.
pub open spec fn with_tool_choice(
    body: Map<Seq<char>, JsonSpec>,
    choice: Option<JsonSpec>,
) -> Map<Seq<char>, JsonSpec> {
    match choice {
        Some(JsonSpec::Str(s)) => if s == "none"@ {
            body.insert("tools"@, JsonSpec::Array(seq![]))
        } else {
            body
        },
        Some(c) => match c.get2("function"@, "name"@) {
            Some(JsonSpec::Str(name)) => if c.get_str("type"@) == Some("function"@) {
                body.insert(
                    "tool_choice"@,
                    JsonSpec::Object(
                        map![
                            "type"@ => JsonSpec::Str("function"@),
                            "name"@ => JsonSpec::Str(name),
                        ],
                    ),
                )
            } else {
                body
            },
            _ => body,
        },
        None => body,
    }
}

/// The body with the leave for parallel tool calls.
pub open spec fn with_parallel(
    body: Map<Seq<char>, JsonSpec>,
    parallel: Option<bool>,
) -> Map<Seq<char>, JsonSpec> {
    match parallel {
        Some(p) => body.insert("parallel_tool_calls"@, JsonSpec::Bool(p)),
        None => body,
    }
}

/// The fields of the request to the upstream.
pub open spec fn body_fields(req: RequestSpec) -> Map<Seq<char>, JsonSpec> {
    let b = with_effort(base_body(req), effort_of(req));
    let b = with_stop(b, req.stop);
    let b = with_tools(b, req.tools);
    let b = with_tool_choice(b, req.tool_choice);
    with_parallel(b, req.parallel_tool_calls)
}

/// Adds the stop sequences.
fn add_stop(body: &mut Vec<(String, Json)>, stop: &Option<Json>)
    ensures
        entries_view(final(body)@) == with_stop(entries_view(old(body)@), opt_owned(*stop)),
{
    match stop {
        Some(c) => match c {
            Json::Str(s) => {
                let v = vec![Json::text(s.as_str())];
                proof {
                    assert(items_view(v@) =~= seq![JsonSpec::Str(s@)]);
                }
                put(body, "stop", Json::Array(v));
            },
            Json::Array(_) => {
                put(body, "stop", c.clone());
            },
            _ => {},
        },
        None => {},
    }
}

/// A tool as the upstream takes it.
fn make_tool(f: &FunctionDef) -> (r: Json)
    ensures
        r@ == tool_item(f@),
{
    let parameters = match &f.parameters {
        Some(p) => p.clone(),
        None => Json::Null,
    };
    let mut e: Vec<(String, Json)> = Vec::new();
    put(&mut e, "type", Json::text("function"));
    put(&mut e, "name", Json::text(f.name.as_str()));
    put(&mut e, "description", opt_text(&f.description));
    put(&mut e, "parameters", parameters);
    Json::Object(e)
}

/// Adds the tools.
fn add_tools(body: &mut Vec<(String, Json)>, tools: &Vec<ToolDef>)
    ensures
        entries_view(final(body)@) == with_tools(
            entries_view(old(body)@),
            Some(tools_view(tools@)),
        ),
{
    let ghost all = tools_view(tools@);
    let mut out: Vec<Json> = Vec::new();
    let mut i: usize = 0;
    proof {
        assert(items_view(out@) =~= tool_items(all.take(0)));
    }
    while i < tools.len()
        invariant
            i <= tools@.len(),
            all == tools_view(tools@),
            items_view(out@) == tool_items(all.take(i as int)),
        decreases tools@.len() - i,
    {
        proof {
            assert(all.take(i + 1).drop_last() =~= all.take(i as int));
            assert(all.take(i + 1).last() == tools@[i as int]@);
        }
        match &tools[i].function {
            Some(f) => {
                let item = make_tool(f);
                proof {
                    lemma_items_push(out@, item);
                }
                out.push(item);
            },
            None => {},
        }
        i = i + 1;
    }
    proof {
        assert(all.take(all.len() as int) =~= all);
    }
    if out.len() > 0 {
        put(body, "tools", Json::Array(out));
    }
}

/// Adds the choice of a tool.
fn add_tool_choice(body: &mut Vec<(String, Json)>, choice: &Json)
    ensures
        entries_view(final(body)@) == with_tool_choice(entries_view(old(body)@), Some(choice@)),
{
    match choice {
        Json::Str(s) => {
            if str_eq(s.as_str(), "none") {
                let none: Vec<Json> = Vec::new();
                proof {
                    assert(items_view(none@) =~= seq![]);
                }
                put(body, "tools", Json::Array(none));
            }
        },
        _ => {
            match choice.get2("function", "name") {
                Some(Json::Str(name)) => {
                    if choice.has_str("type", "function") {
                        let mut e: Vec<(String, Json)> = Vec::new();
                        put(&mut e, "type", Json::text("function"));
                        put(&mut e, "name", Json::text(name.as_str()));
                        put(body, "tool_choice", Json::Object(e));
                    }
                },
                _ => {},
            }
        },
    }
}

/// The request to the upstream for a chat completion request. The upstream is
/// always asked to stream.
pub fn build_responses_body(req: &ChatRequest) -> (r: Json)
    ensures
        r@ == JsonSpec::Object(body_fields(req@)),
{
    let (model_clean, reasoning_from_suffix) = parse_reasoning_suffix(req.model.as_str());
    let (instructions, input) = translate_messages(&req.messages);
    let mut body: Vec<(String, Json)> = Vec::new();
    put(&mut body, "model", Json::Str(model_clean));
    put(&mut body, "instructions", Json::Str(instructions));
    put(&mut body, "input", Json::Array(input));
    put(&mut body, "stream", Json::Bool(true));
    put(&mut body, "store", Json::Bool(false));
    let effort = match &req.reasoning_effort {
        Some(e) => Some(e.clone()),
        None => reasoning_from_suffix,
    };
    match effort {
        Some(e) => {
            let mut reasoning: Vec<(String, Json)> = Vec::new();
            put(&mut reasoning, "effort", Json::Str(e));
            put(&mut body, "reasoning", Json::Object(reasoning));
        },
        None => {},
    }
    add_stop(&mut body, &req.stop);
    match &req.tools {
        Some(tools) => add_tools(&mut body, tools),
        None => {},
    }
    match &req.tool_choice {
        Some(choice) => add_tool_choice(&mut body, choice),
        None => {},
    }
    match req.parallel_tool_calls {
        Some(p) => put(&mut body, "parallel_tool_calls", Json::Bool(p)),
        None => {},
    }
    Json::Object(body)
}

/// Whether the client wants the usage at the end of a streamed reply.
pub fn wants_usage(req: &ChatRequest) -> (r: bool)
    ensures
        r == (req.stream_options matches Some(so) && so.include_usage == Some(true)),
{
    match &req.stream_options {
        Some(so) => match so.include_usage {
            Some(b) => b,
            None => false,
        },
        None => false,
    }
}

// ---- laws of the translation ------------------------------------------

/// The keys that only some requests to the upstream have.
pub open spec fn is_optional_key(k: Seq<char>) -> bool {
    ||| k == "reasoning"@
    ||| k == "stop"@
    ||| k == "tools"@
    ||| k == "tool_choice"@
    ||| k == "parallel_tool_calls"@
}

/// The keys of a request to the upstream.
pub open spec fn is_body_key(k: Seq<char>) -> bool {
    ||| k == "model"@
    ||| k == "instructions"@
    ||| k == "input"@
    ||| k == "stream"@
    ||| k == "store"@
    ||| is_optional_key(k)
}

/// What tells the keys of a request to the upstream apart.
proof fn lemma_body_keys()
    ensures
        "model"@.len() == 5 && "model"@[0] == 'm',
        "instructions"@.len() == 12,
        "input"@.len() == 5 && "input"@[0] == 'i',
        "stream"@.len() == 6,
        "store"@.len() == 5 && "store"@[0] == 's',
        "reasoning"@.len() == 9,
        "stop"@.len() == 4,
        "tools"@.len() == 5 && "tools"@[0] == 't' && "tools"@[2] == 'o',
        "tool_choice"@.len() == 11 && "tool_choice"@[1] == 'o',
        "parallel_tool_calls"@.len() == 19,
{
    reveal_strlit("model");
    reveal_strlit("instructions");
    reveal_strlit("input");
    reveal_strlit("stream");
    reveal_strlit("store");
    reveal_strlit("reasoning");
    reveal_strlit("stop");
    reveal_strlit("tools");
    reveal_strlit("tool_choice");
    reveal_strlit("parallel_tool_calls");
}

/// Every request to the upstream has instructions, which may be empty, has the
/// model's name without an effort, asks to stream and asks not to store.
pub proof fn law_body_always_has(req: RequestSpec)
    ensures
        body_fields(req).contains_key("instructions"@),
        body_fields(req)["instructions"@] == JsonSpec::Str(instructions_of(req.messages)),
        body_fields(req).contains_key("model"@),
        body_fields(req)["model"@] == JsonSpec::Str(split_model(req.model).0),
        body_fields(req).contains_key("input"@),
        body_fields(req)["input"@] == JsonSpec::Array(input_of(req.messages)),
        body_fields(req).contains_key("stream"@),
        body_fields(req)["stream"@] == JsonSpec::Bool(true),
        body_fields(req).contains_key("store"@),
        body_fields(req)["store"@] == JsonSpec::Bool(false),
{
    lemma_body_keys();
}

/// No request to the upstream has other fields than the known ones: token limits
/// and sampling controls are never passed on.
pub proof fn law_body_has_no_other_fields(req: RequestSpec, k: Seq<char>)
    ensures
        body_fields(req).contains_key(k) ==> is_body_key(k),
        !body_fields(req).contains_key("max_output_tokens"@),
        !body_fields(req).contains_key("max_tokens"@),
        !body_fields(req).contains_key("max_completion_tokens"@),
        !body_fields(req).contains_key("temperature"@),
        !body_fields(req).contains_key("top_p"@),
{
    lemma_body_keys();
    reveal_strlit("max_output_tokens");
    assert("max_output_tokens"@.len() == 17);
    reveal_strlit("max_tokens");
    assert("max_tokens"@.len() == 10);
    reveal_strlit("max_completion_tokens");
    assert("max_completion_tokens"@.len() == 21);
    reveal_strlit("temperature");
    assert("temperature"@.len() == 11);
    reveal_strlit("top_p");
    assert("top_p"@.len() == 5);
    assert("top_p"@[0] == 't' && "top_p"@[2] == 'p');
    assert("temperature"@[1] == 'e');
}

/// An effort in the request wins over one in the model's name, and where neither
/// has one none is passed on.
pub proof fn law_explicit_effort_wins(req: RequestSpec)
    ensures
        match req.reasoning_effort {
            Some(e) => body_fields(req).contains_key("reasoning"@) && body_fields(
                req,
            )["reasoning"@] == JsonSpec::Object(map!["effort"@ => JsonSpec::Str(e)]),
            None => match split_model(req.model).1 {
                Some(e) => body_fields(req).contains_key("reasoning"@) && body_fields(
                    req,
                )["reasoning"@] == JsonSpec::Object(map!["effort"@ => JsonSpec::Str(e)]),
                None => !body_fields(req).contains_key("reasoning"@),
            },
        },
{
    lemma_body_keys();
}

/// The items of messages stand in the order of the messages.
pub proof fn law_input_keeps_order(a: Seq<MessageSpec>, b: Seq<MessageSpec>)
    ensures
        input_of(a + b) == input_of(a) + input_of(b),
    decreases b.len(),
{
    if b.len() == 0 {
        assert(a + b =~= a);
        assert(input_of(a) + input_of(b) =~= input_of(a));
    } else {
        law_input_keeps_order(a, b.drop_last());
        assert((a + b).drop_last() =~= a + b.drop_last());
        assert((a + b).last() == b.last());
        assert(input_of(a) + (input_of(b.drop_last()) + message_items(b.last())) =~= (input_of(a)
            + input_of(b.drop_last())) + message_items(b.last()));
    }
}

/// The items of each message are among the items of all.
proof fn lemma_input_contains(ms: Seq<MessageSpec>, i: int, item: JsonSpec)
    requires
        0 <= i < ms.len(),
        message_items(ms[i]).contains(item),
    ensures
        input_of(ms).contains(item),
    decreases ms.len(),
{
    let front = input_of(ms.drop_last());
    let last = message_items(ms.last());
    if i == ms.len() - 1 {
        let j = choose|j: int| 0 <= j < last.len() && last[j] == item;
        assert((front + last)[front.len() + j] == item);
    } else {
        lemma_input_contains(ms.drop_last(), i, item);
        let j = choose|j: int| 0 <= j < front.len() && front[j] == item;
        assert((front + last)[j] == item);
    }
}

/// Each tool call of an assistant's message stands at the top level of the
/// input, with no content of its own.
pub proof fn law_tool_calls_at_top_level(ms: Seq<MessageSpec>, i: int, k: int)
    requires
        0 <= i < ms.len(),
        ms[i].role == "assistant"@,
        0 <= k < ms[i].tool_calls.len(),
    ensures
        input_of(ms).contains(call_item(ms[i].tool_calls[k])),
        call_item(ms[i].tool_calls[k]).get("content"@) is None,
{
    let m = ms[i];
    reveal_strlit("assistant");
    assert("assistant"@.len() == 9);
    reveal_strlit("system");
    assert("system"@.len() == 6);
    reveal_strlit("developer");
    assert("developer"@.len() == 9);
    assert("developer"@[0] == 'd' && "assistant"@[0] == 'a');
    let calls = m.tool_calls.map_values(|c: CallSpec| call_item(c));
    assert(calls[k] == call_item(m.tool_calls[k]));
    let items = assistant_items(m);
    assert(items[items.len() - calls.len() + k] == calls[k]);
    lemma_input_contains(ms, i, call_item(m.tool_calls[k]));
    reveal_strlit("content");
    assert("content"@.len() == 7);
    reveal_strlit("type");
    assert("type"@.len() == 4);
    reveal_strlit("call_id");
    assert("call_id"@.len() == 7);
    reveal_strlit("name");
    assert("name"@.len() == 4);
    reveal_strlit("arguments");
    assert("arguments"@.len() == 9);
    assert("call_id"@[1] == 'a' && "content"@[1] == 'o');
}

/// Messages that are instructions leave nothing in the input, and an assistant's
/// message without text leaves its tool calls alone.
pub proof fn law_silent_messages(m: MessageSpec)
    ensures
        is_instruction(m.role) ==> message_items(m) == Seq::<JsonSpec>::empty(),
        m.role == "assistant"@ && m.content is None ==> message_items(m)
            == m.tool_calls.map_values(|c: CallSpec| call_item(c)),
{
    reveal_strlit("assistant");
    assert("assistant"@.len() == 9);
    reveal_strlit("system");
    assert("system"@.len() == 6);
    reveal_strlit("developer");
    assert("developer"@.len() == 9);
    assert("developer"@[0] == 'd' && "assistant"@[0] == 'a');
}

} // verus!
