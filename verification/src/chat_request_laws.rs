//! What holds of the translation of chat completion requests as a whole: the request
//! of the client on the one side, and that to the upstream on the other.

use vstd::prelude::*;

use crate::chat::{
    body_fields, input_of, instructions_of, law_body_always_has, law_explicit_effort_wins,
    law_input_keeps_order, messages_view, split_model, text_of_opt, text_of_val, tool_items,
    tools_view, ChatMessage, ChatRequest, FunctionDef, MessageSpec, ToolCall, ToolDef,
};
use crate::chat_laws::said;
use crate::json::{opt_owned, JsonSpec};
use crate::json_codec::json_text;

verus! {

/// The keys that items, parts and tools have.
pub open spec fn item_keys() -> Seq<Seq<char>> {
    seq![
        "type"@,
        "text"@,
        "name"@,
        "role"@,
        "output"@,
        "content"@,
        "call_id"@,
        "arguments"@,
        "image_url"@,
        "parameters"@,
        "description"@,
        "effort"@,
    ]
}

/// The keys that items, parts and tools have differ from one another.
proof fn lemma_item_keys()
    ensures
        item_keys().no_duplicates(),
{
    reveal_strlit("type");
    reveal_strlit("text");
    reveal_strlit("name");
    reveal_strlit("role");
    reveal_strlit("output");
    reveal_strlit("content");
    reveal_strlit("call_id");
    reveal_strlit("arguments");
    reveal_strlit("image_url");
    reveal_strlit("parameters");
    reveal_strlit("description");
    reveal_strlit("effort");
    assert("type"@.len() == 4 && "type"@[0] == 't' && "type"@[1] == 'y');
    assert("text"@.len() == 4 && "text"@[0] == 't' && "text"@[1] == 'e');
    assert("name"@.len() == 4 && "name"@[0] == 'n');
    assert("role"@.len() == 4 && "role"@[0] == 'r');
    assert("output"@.len() == 6 && "output"@[0] == 'o');
    assert("effort"@.len() == 6 && "effort"@[0] == 'e');
    assert("content"@.len() == 7 && "content"@[1] == 'o');
    assert("call_id"@.len() == 7 && "call_id"@[1] == 'a');
    assert("arguments"@.len() == 9 && "arguments"@[0] == 'a');
    assert("image_url"@.len() == 9 && "image_url"@[0] == 'i');
    assert("parameters"@.len() == 10);
    assert("description"@.len() == 11);
}

/// The keys that items, parts and tools have, told apart one by one.
proof fn lemma_keys_apart()
    ensures
        forall|i: int, j: int|
            0 <= i < j < 12 ==> #[trigger] item_keys()[i] != #[trigger] item_keys()[j],
        item_keys()[0] == "type"@,
        item_keys()[1] == "text"@,
        item_keys()[2] == "name"@,
        item_keys()[3] == "role"@,
        item_keys()[4] == "output"@,
        item_keys()[5] == "content"@,
        item_keys()[6] == "call_id"@,
        item_keys()[7] == "arguments"@,
        item_keys()[8] == "image_url"@,
        item_keys()[9] == "parameters"@,
        item_keys()[10] == "description"@,
        item_keys()[11] == "effort"@,
{
    lemma_item_keys();
}

/// The roles of messages differ from one another.
proof fn lemma_roles()
    ensures
        "system"@ != "assistant"@ && "system"@ != "tool"@ && "system"@ != "developer"@,
        "developer"@ != "assistant"@ && "developer"@ != "tool"@,
        "assistant"@ != "tool"@,
{
    reveal_strlit("system");
    reveal_strlit("developer");
    reveal_strlit("assistant");
    reveal_strlit("tool");
    assert("system"@.len() == 6);
    assert("developer"@.len() == 9 && "developer"@[0] == 'd');
    assert("assistant"@.len() == 9 && "assistant"@[0] == 'a');
    assert("tool"@.len() == 4);
}

/// The object has these keys and no others.
pub open spec fn has_only(v: JsonSpec, keys: Seq<Seq<char>>) -> bool {
    &&& v is Object
    &&& forall|k: Seq<char>| #[trigger] v.get(k) is Some ==> keys.contains(k)
}

/// The object says `kind` of its type.
pub open spec fn is_of_type(v: JsonSpec, kind: Seq<char>) -> bool {
    v.get("type"@) == Some(JsonSpec::Str(kind))
}

/// The item calls a function.
pub open spec fn calls_function(
    item: JsonSpec,
    id: Seq<char>,
    name: Seq<char>,
    arguments: Seq<char>,
) -> bool {
    &&& has_only(item, seq!["type"@, "call_id"@, "name"@, "arguments"@])
    &&& item.get_str("type"@) == Some("function_call"@)
    &&& item.get_str("call_id"@) == Some(id)
    &&& item.get_str("name"@) == Some(name)
    &&& item.get_str("arguments"@) == Some(arguments)
}

/// The part holds this text.
pub open spec fn holds_text(part: JsonSpec, kind: Seq<char>, text: Seq<char>) -> bool {
    &&& has_only(part, seq!["type"@, "text"@])
    &&& part.get_str("type"@) == Some(kind)
    &&& part.get_str("text"@) == Some(text)
}

/// The item is a message of a role with these parts.
pub open spec fn is_message(item: JsonSpec, role: Seq<char>, parts: Seq<JsonSpec>) -> bool {
    &&& has_only(item, seq!["type"@, "role"@, "content"@])
    &&& item.get_str("type"@) == Some("message"@)
    &&& item.get_str("role"@) == Some(role)
    &&& item.get("content"@) == Some(JsonSpec::Array(parts))
}

/// The items that a message is translated to.
pub open spec fn items_for(m: ChatMessage) -> Seq<JsonSpec> {
    input_of(messages_view(seq![m]))
}

/// One message has the items that are its own.
proof fn lemma_items_for(m: ChatMessage)
    ensures
        items_for(m) == crate::chat::message_items(m@),
{
    let one = messages_view(seq![m]);
    assert(one =~= seq![m@]);
    assert(one.drop_last() =~= Seq::<MessageSpec>::empty());
    assert(input_of(one.drop_last()) + crate::chat::message_items(m@)
        =~= crate::chat::message_items(m@));
}

/// The input holds the items of each message, in the order of the messages.
pub proof fn law_input_is_the_messages_items(before: Seq<ChatMessage>, m: ChatMessage)
    ensures
        input_of(messages_view(Seq::empty())) == Seq::<JsonSpec>::empty(),
        input_of(messages_view(before.push(m))) == input_of(messages_view(before)) + items_for(m),
{
    assert(messages_view(before.push(m)) =~= messages_view(before) + messages_view(seq![m]));
    law_input_keeps_order(messages_view(before), messages_view(seq![m]));
    assert(messages_view(Seq::empty()) =~= Seq::<MessageSpec>::empty());
}

/// The text that an assistant's message says, where it says one.
pub open spec fn assistant_text(m: ChatMessage) -> Seq<char> {
    match m.content {
        Some(c) => text_of_val(c@),
        None => seq![],
    }
}

/// The calls of a message.
pub open spec fn calls_in(m: ChatMessage) -> Seq<ToolCall> {
    match m.tool_calls {
        Some(v) => v@,
        None => seq![],
    }
}

/// An assistant's message becomes its text, where it has one, and one item for each of
/// its calls, in their order, that says the call's identifier, its function's name
/// and its arguments.
pub proof fn law_assistant_message_is_translated(m: ChatMessage)
    requires
        m.role@ == "assistant"@,
    ensures
        ({
            let items = items_for(m);
            let calls = calls_in(m);
            let text = assistant_text(m);
            let n: int = if text.len() > 0 { 1 } else { 0 };
            &&& items.len() == n + calls.len()
            &&& forall|k: int|
                0 <= k < calls.len() ==> calls_function(
                    items[n + k],
                    (#[trigger] calls[k]).id@,
                    calls[k].function.name@,
                    calls[k].function.arguments@,
                )
            &&& n == 1 ==> {
                &&& is_message(
                    items[0],
                    "assistant"@,
                    seq![items[0].get("content"@)->0->Array_0[0]],
                )
                &&& holds_text(items[0].get("content"@)->0->Array_0[0], "output_text"@, text)
            }
        }),
{
    lemma_items_for(m);
    lemma_roles();
    lemma_keys_apart();
    let items = items_for(m);
    let calls = calls_in(m);
    let text = assistant_text(m);
    let n: int = if text.len() > 0 { 1 } else { 0 };
    assert(m@.tool_calls.len() == calls.len());
    assert forall|k: int| 0 <= k < calls.len() implies calls_function(
        items[n + k],
        (#[trigger] calls[k]).id@,
        calls[k].function.name@,
        calls[k].function.arguments@,
    ) by {
        assert(m@.tool_calls[k] == calls[k]@);
        let keys = seq!["type"@, "call_id"@, "name"@, "arguments"@];
        assert(keys[0] == "type"@ && keys[1] == "call_id"@ && keys[2] == "name"@ && keys[3]
            == "arguments"@);
        assert(items[n + k] == crate::chat::call_item(calls[k]@));
    }
    if n == 1 {
        let keys = seq!["type"@, "role"@, "content"@];
        assert(keys[0] == "type"@ && keys[1] == "role"@ && keys[2] == "content"@);
        let some = seq!["type"@, "text"@];
        assert(some[0] == "type"@ && some[1] == "text"@);
        let part = items[0].get("content"@)->0->Array_0[0];
        assert(part == crate::chat::text_part("output_text"@, text));
        assert(items[0].get("content"@)->0->Array_0 =~= seq![part]);
    }
}

/// Each tool call in the history stands in the input, with its identifier, its
/// function's name and its arguments, each in the field that is meant for it.
pub proof fn law_history_keeps_tool_calls(ms: Seq<ChatMessage>, i: int, k: int)
    requires
        0 <= i < ms.len(),
        ms[i].role@ == "assistant"@,
        0 <= k < calls_in(ms[i]).len(),
    ensures
        exists|j: int|
            0 <= j < input_of(messages_view(ms)).len() && calls_function(
                #[trigger] input_of(messages_view(ms))[j],
                calls_in(ms[i])[k].id@,
                calls_in(ms[i])[k].function.name@,
                calls_in(ms[i])[k].function.arguments@,
            ),
{
    let a = ms.take(i);
    let b = ms.skip(i + 1);
    let m = ms[i];
    law_assistant_message_is_translated(m);
    law_input_is_the_messages_items(a, m);
    assert(messages_view(ms) =~= messages_view(a.push(m)) + messages_view(b));
    law_input_keeps_order(messages_view(a.push(m)), messages_view(b));
    let n: int = if assistant_text(m).len() > 0 { 1 } else { 0 };
    let at = input_of(messages_view(a)).len() + n + k;
    let call = calls_in(m)[k];
    assert(input_of(messages_view(ms))[at] == items_for(m)[n + k]);
}

/// The output of a tool is passed on with the identifier of its call.
pub proof fn law_tool_output_is_translated(m: ChatMessage)
    requires
        m.role@ == "tool"@,
    ensures
        ({
            let items = items_for(m);
            &&& items.len() == 1
            &&& has_only(items[0], seq!["type"@, "call_id"@, "output"@])
            &&& items[0].get_str("type"@) == Some("function_call_output"@)
            &&& m.tool_call_id matches Some(id) ==> items[0].get_str("call_id"@) == Some(id@)
            &&& m.tool_call_id is None ==> items[0].get("call_id"@) == Some(JsonSpec::Null)
            &&& items[0].get_str("output"@) == Some(text_of_opt(opt_owned(m.content)))
        }),
{
    lemma_items_for(m);
    lemma_roles();
    lemma_keys_apart();
    let keys = seq!["type"@, "call_id"@, "output"@];
    assert(keys[0] == "type"@ && keys[1] == "call_id"@ && keys[2] == "output"@);
}

/// A part of a user's message is translated to this one: a text to a text, an image to
/// an image of the same address, and another as it is.
pub open spec fn part_is_translated(part: JsonSpec, to: JsonSpec) -> bool {
    if is_of_type(part, "text"@) {
        holds_text(to, "input_text"@, said(part, "text"@))
    } else if is_of_type(part, "image_url"@) {
        &&& has_only(to, seq!["type"@, "image_url"@])
        &&& to.get_str("type"@) == Some("input_image"@)
        &&& to.get_str("image_url"@) == Some(
            match part.get("image_url"@) {
                Some(image) => said(image, "url"@),
                None => seq![],
            },
        )
    } else {
        to == part
    }
}

/// A message of the user, or of a role that is not known, is a message of the user with
/// the same parts in the same order; a content that is no list is one text.
pub proof fn law_user_message_is_translated(m: ChatMessage)
    requires
        m.role@ != "system"@,
        m.role@ != "developer"@,
        m.role@ != "assistant"@,
        m.role@ != "tool"@,
    ensures
        ({
            let items = items_for(m);
            let parts = items[0].get("content"@)->0->Array_0;
            &&& items.len() == 1
            &&& is_message(items[0], "user"@, parts)
            &&& match opt_owned(m.content) {
                Some(JsonSpec::Array(given)) => {
                    &&& parts.len() == given.len()
                    &&& forall|k: int|
                        0 <= k < given.len() ==> part_is_translated(#[trigger] given[k], parts[k])
                },
                other => parts.len() == 1 && holds_text(
                    parts[0],
                    "input_text"@,
                    text_of_opt(other),
                ),
            }
        }),
{
    lemma_items_for(m);
    lemma_keys_apart();
    let items = items_for(m);
    let keys = seq!["type"@, "role"@, "content"@];
    assert(keys[0] == "type"@ && keys[1] == "role"@ && keys[2] == "content"@);
    let some = seq!["type"@, "text"@];
    assert(some[0] == "type"@ && some[1] == "text"@);
    let image = seq!["type"@, "image_url"@];
    assert(image[0] == "type"@ && image[1] == "image_url"@);
    let parts = items[0].get("content"@)->0->Array_0;
    assert(parts == crate::chat::parts_of(opt_owned(m.content), "input_text"@));
    reveal_strlit("image_url");
    reveal_strlit("text");
    assert("image_url"@.len() == 9 && "text"@.len() == 4);
    match opt_owned(m.content) {
        Some(JsonSpec::Array(given)) => {
            assert forall|k: int| 0 <= k < given.len() implies part_is_translated(
                #[trigger] given[k],
                parts[k],
            ) by {
                let part = given[k];
                assert(parts[k] == crate::chat::part_of(part, "input_text"@));
                assert(is_of_type(part, "text"@) == (part.str_or_empty("type"@) == "text"@));
                assert(is_of_type(part, "image_url"@) == (part.str_or_empty("type"@)
                    == "image_url"@));
                assert(said(part, "text"@) == part.str_or_empty("text"@));
            }
        },
        _ => {},
    }
}

/// Messages that are instructions are no part of the input, and are joined to the
/// instructions in their order, with a blank line between them; others add nothing to
/// the instructions.
pub proof fn law_instructions_are_joined(before: Seq<ChatMessage>, m: ChatMessage)
    ensures
        instructions_of(messages_view(Seq::empty())) == Seq::<char>::empty(),
        m.role@ == "system"@ || m.role@ == "developer"@ ==> items_for(m).len() == 0,
        m.role@ != "system"@ && m.role@ != "developer"@ ==> instructions_of(
            messages_view(before.push(m)),
        ) == instructions_of(messages_view(before)),
        m.role@ == "system"@ || m.role@ == "developer"@ ==> instructions_of(
            messages_view(before.push(m)),
        ) == if exists|i: int|
            0 <= i < before.len() && ((#[trigger] before[i]).role@ == "system"@ || before[i].role@
                == "developer"@) {
            instructions_of(messages_view(before)) + "\n\n"@ + text_of_opt(opt_owned(m.content))
        } else {
            text_of_opt(opt_owned(m.content))
        },
{
    lemma_items_for(m);
    let ms = messages_view(before);
    assert(messages_view(before.push(m)) =~= ms.push(m@));
    assert(ms.push(m@).drop_last() =~= ms);
    assert(messages_view(Seq::empty()) =~= Seq::<MessageSpec>::empty());
    let parts = crate::chat::instruction_parts(ms);
    lemma_instruction_parts(before);
    let more = parts.push(text_of_opt(m@.content));
    assert(more.drop_last() =~= parts);
}

/// There are instructions exactly where a message is one.
proof fn lemma_instruction_parts(ms: Seq<ChatMessage>)
    ensures
        crate::chat::instruction_parts(messages_view(ms)).len() > 0 <==> exists|i: int|
            0 <= i < ms.len() && ((#[trigger] ms[i]).role@ == "system"@ || ms[i].role@
                == "developer"@),
    decreases ms.len(),
{
    if ms.len() > 0 {
        let front = ms.drop_last();
        lemma_instruction_parts(front);
        assert(messages_view(ms).drop_last() =~= messages_view(front));
        assert(messages_view(ms).last() == ms.last()@);
        assert(ms[ms.len() - 1] == ms.last());
        if exists|i: int|
            0 <= i < front.len() && ((#[trigger] front[i]).role@ == "system"@ || front[i].role@
                == "developer"@) {
            let i = choose|i: int|
                0 <= i < front.len() && ((#[trigger] front[i]).role@ == "system"@ || front[i].role@
                    == "developer"@);
            assert(ms[i] == front[i]);
        }
        if exists|i: int|
            0 <= i < ms.len() && ((#[trigger] ms[i]).role@ == "system"@ || ms[i].role@
                == "developer"@) {
            let i = choose|i: int|
                0 <= i < ms.len() && ((#[trigger] ms[i]).role@ == "system"@ || ms[i].role@
                    == "developer"@);
            if i < front.len() {
                assert(ms[i] == front[i]);
            }
        }
    }
}

/// The text of a content: a text is itself, a list is the texts of its parts in their
/// order, nothing is the empty text, and another value is its JSON text, where an
/// assistant's `null` is the empty text.
pub proof fn law_text_of_content(s: Seq<char>, parts: Seq<JsonSpec>, part: JsonSpec, v: JsonSpec)
    ensures
        text_of_opt(None) == Seq::<char>::empty(),
        text_of_opt(Some(JsonSpec::Str(s))) == s,
        text_of_opt(Some(JsonSpec::Array(Seq::empty()))) == Seq::<char>::empty(),
        text_of_opt(Some(JsonSpec::Array(parts.push(part)))) == text_of_opt(
            Some(JsonSpec::Array(parts)),
        ) + said(part, "text"@),
        !(v is Str) && !(v is Array) ==> text_of_opt(Some(v)) == json_text(v),
        text_of_val(JsonSpec::Null) == Seq::<char>::empty(),
        !(v is Null) ==> text_of_val(v) == text_of_opt(Some(v)),
{
    assert(parts.push(part).drop_last() =~= parts);
}

// ---- the other fields -------------------------------------------------

/// The request to the upstream for a request.
pub open spec fn sent_for(req: ChatRequest) -> JsonSpec {
    JsonSpec::Object(body_fields(req@))
}

/// What tells the keys of a request to the upstream apart.
proof fn lemma_body_keys()
    ensures
        "model"@.len() == 5 && "model"@[0] == 'm',
        "instructions"@.len() == 12,
        "input"@.len() == 5 && "input"@[0] == 'i',
        "stream"@.len() == 6,
        "store"@.len() == 5 && "store"@[0] == 's',
        "reasoning"@.len() == 9,
        "stop"@.len() == 4,
        "tools"@.len() == 5 && "tools"@[0] == 't',
        "tool_choice"@.len() == 11,
        "parallel_tool_calls"@.len() == 19,
{
    reveal_strlit("model");
    reveal_strlit("instructions");
    reveal_strlit("input");
    reveal_strlit("stream");
    reveal_strlit("store");
    reveal_strlit("reasoning");
    reveal_strlit("stop");
    reveal_strlit("tools");
    reveal_strlit("tool_choice");
    reveal_strlit("parallel_tool_calls");
}

/// The request to the upstream names the model without its effort, has the instructions
/// and the input of the messages, streams and does not store.
pub proof fn law_request_is_sent(req: ChatRequest)
    ensures
        sent_for(req).get_str("model"@) == Some(split_model(req.model@).0),
        sent_for(req).get_str("instructions"@) == Some(
            instructions_of(messages_view(req.messages@)),
        ),
        sent_for(req).get("input"@) == Some(
            JsonSpec::Array(input_of(messages_view(req.messages@))),
        ),
        sent_for(req).get_bool("stream"@) == Some(true),
        sent_for(req).get_bool("store"@) == Some(false),
{
    law_body_always_has(req@);
}

/// The effort that is sent is that of the request, else that of the model's name.
pub proof fn law_effort_is_sent(req: ChatRequest)
    ensures
        req.reasoning_effort matches Some(e) ==> sent_for(req).get2("reasoning"@, "effort"@)
            == Some(JsonSpec::Str(e@)),
        req.reasoning_effort is None ==> match split_model(req.model@).1 {
            Some(e) => sent_for(req).get2("reasoning"@, "effort"@) == Some(JsonSpec::Str(e)),
            None => sent_for(req).get("reasoning"@) is None,
        },
{
    law_explicit_effort_wins(req@);
}

/// A stop sequence is sent as a list of it, a list as it is, and anything else not at
/// all.
pub proof fn law_stop_is_sent(req: ChatRequest)
    ensures
        match opt_owned(req.stop) {
            Some(JsonSpec::Str(s)) => sent_for(req).get("stop"@) matches Some(JsonSpec::Array(v))
                && v.len() == 1 && v[0] == JsonSpec::Str(s),
            Some(JsonSpec::Array(v)) => sent_for(req).get("stop"@) == Some(JsonSpec::Array(v)),
            _ => sent_for(req).get("stop"@) is None,
        },
{
    lemma_body_keys();
}

/// The leave for parallel tool calls is sent as it was given.
pub proof fn law_parallel_calls_are_sent(req: ChatRequest)
    ensures
        match req.parallel_tool_calls {
            Some(p) => sent_for(req).get_bool("parallel_tool_calls"@) == Some(p),
            None => sent_for(req).get("parallel_tool_calls"@) is None,
        },
{
    lemma_body_keys();
}

/// The tool that a function is sent as.
pub open spec fn tells_function(item: JsonSpec, f: FunctionDef) -> bool {
    &&& has_only(item, seq!["type"@, "name"@, "description"@, "parameters"@])
    &&& item.get_str("type"@) == Some("function"@)
    &&& item.get_str("name"@) == Some(f.name@)
    &&& f.description matches Some(d) ==> item.get_str("description"@) == Some(d@)
    &&& f.description is None ==> item.get("description"@) == Some(JsonSpec::Null)
    &&& f.parameters matches Some(p) ==> item.get("parameters"@) == Some(p@)
    &&& f.parameters is None ==> item.get("parameters"@) == Some(JsonSpec::Null)
}

/// Each tool that is a function is sent, in its order, with its name, its description
/// and its parameters; others are left out.
pub proof fn law_tools_are_translated(before: Seq<ToolDef>, t: ToolDef)
    ensures
        tool_items(tools_view(Seq::empty())) == Seq::<JsonSpec>::empty(),
        t.function is None ==> tool_items(tools_view(before.push(t))) == tool_items(
            tools_view(before),
        ),
        t.function matches Some(f) ==> {
            let items = tool_items(tools_view(before.push(t)));
            &&& items.len() == tool_items(tools_view(before)).len() + 1
            &&& items.drop_last() == tool_items(tools_view(before))
            &&& tells_function(items.last(), f)
        },
{
    let v = tools_view(before.push(t));
    assert(v.drop_last() =~= tools_view(before));
    assert(v.last() == t@);
    assert(tools_view(Seq::empty()) =~= Seq::empty());
    lemma_keys_apart();
    match t.function {
        Some(f) => {
            let keys = seq!["type"@, "name"@, "description"@, "parameters"@];
            assert(keys[0] == "type"@ && keys[1] == "name"@ && keys[2] == "description"@ && keys[3]
                == "parameters"@);
            assert(tool_items(v).drop_last() =~= tool_items(tools_view(before)));
            assert(tool_items(v).last() == crate::chat::tool_item(f@));
        },
        None => {},
    }
}

/// The tools are sent where there are some; where none may be used an empty list is
/// sent.
pub proof fn law_tools_are_sent(req: ChatRequest)
    ensures
        ({
            let items = match req.tools {
                Some(v) => tool_items(tools_view(v@)),
                None => seq![],
            };
            if opt_owned(req.tool_choice) == Some(JsonSpec::Str("none"@)) {
                sent_for(req).get("tools"@) matches Some(JsonSpec::Array(v)) && v.len() == 0
            } else if items.len() > 0 {
                sent_for(req).get("tools"@) == Some(JsonSpec::Array(items))
            } else {
                sent_for(req).get("tools"@) is None
            }
        }),
{
    lemma_body_keys();
}

/// A choice that names a function is sent with that name, and no other is sent.
pub proof fn law_tool_choice_is_sent(req: ChatRequest)
    ensures
        match opt_owned(req.tool_choice) {
            Some(c) => if is_of_type(c, "function"@) && (c.get2("function"@, "name"@) matches Some(
                JsonSpec::Str(_),
            )) {
                &&& sent_for(req).get2("tool_choice"@, "type"@) == Some(
                    JsonSpec::Str("function"@),
                )
                &&& sent_for(req).get2("tool_choice"@, "name"@) == c.get2("function"@, "name"@)
                &&& has_only(sent_for(req).get("tool_choice"@)->0, seq!["type"@, "name"@])
            } else {
                sent_for(req).get("tool_choice"@) is None
            },
            None => sent_for(req).get("tool_choice"@) is None,
        },
{
    lemma_body_keys();
    lemma_keys_apart();
    let keys = seq!["type"@, "name"@];
    assert(keys[0] == "type"@ && keys[1] == "name"@);
}

} // verus!
