//! Completions in one piece: the events of the upstream gathered into one reply.

use vstd::prelude::*;

use crate::chat_reply::{
    read_usage, tool_calls_view, usage_of, ChatCompletionResponse, CompletionChoice,
    CompletionChoiceSpec, CompletionSpec, FunctionResponse, ResponseMessage, ToolCallResponse,
    ToolCallSpec, Usage,
};
use crate::chat_stream::{
    call_id_of, is_function_call, item_of, read_call_id,
};
use crate::clock::now_epoch;
use crate::json::{items_view, Json, JsonSpec};
use crate::sse::{body_events, read_body_events};
use crate::text::{concat, is_empty, str_eq};

verus! {

/// What was gathered so far.
#[derive(Debug)]
pub struct Gathered {
    pub content: String,
    pub tool_calls: Vec<ToolCallResponse>,
    pub usage: Option<Usage>,
    pub finish_reason: String,
}

/// What was gathered so far.
#[verifier::ext_equal]
pub struct GatheredSpec {
    pub content: Seq<char>,
    pub tool_calls: Seq<ToolCallSpec>,
    pub usage: Option<Usage>,
    pub finish_reason: Seq<char>,
}

impl View for Gathered {
    type V = GatheredSpec;

    open spec fn view(&self) -> GatheredSpec {
        GatheredSpec {
            content: self.content@,
            tool_calls: tool_calls_view(self.tool_calls@),
            usage: self.usage,
            finish_reason: self.finish_reason@,
        }
    }
}

/// Nothing gathered.
pub open spec fn nothing_gathered() -> GatheredSpec {
    GatheredSpec { content: seq![], tool_calls: seq![], usage: None, finish_reason: "stop"@ }
}

/// The first call at `from` or later with the identifier `id`, or the number of
/// calls.
pub open spec fn call_index(calls: Seq<ToolCallSpec>, id: Seq<char>, from: int) -> int
    decreases calls.len() - from,
{
    if 0 <= from < calls.len() && calls[from].id != id {
        call_index(calls, id, from + 1)
    } else {
        from
    }
}

/// The calls with other arguments for the one at `i`.
pub open spec fn with_arguments(
    calls: Seq<ToolCallSpec>,
    i: int,
    arguments: Seq<char>,
) -> Seq<ToolCallSpec> {
    calls.update(i, ToolCallSpec { arguments, ..calls[i] })
}

/// What is gathered after one more event.
pub open spec fn gather_step(g: GatheredSpec, event: JsonSpec) -> GatheredSpec {
    let kind = event.str_or_empty("type"@);
    let item = item_of(event);
    if kind == "response.output_text.delta"@ {
        GatheredSpec { content: g.content + event.str_or_empty("delta"@), ..g }
    } else if kind == "response.output_item.added"@ {
        if is_function_call(event) {
            let call = ToolCallSpec {
                id: call_id_of(item),
                call_type: "function"@,
                name: item.str_or_empty("name"@),
                arguments: seq![],
            };
            GatheredSpec { tool_calls: g.tool_calls.push(call), ..g }
        } else {
            g
        }
    } else if kind == "response.function_call_arguments.delta"@ {
        if g.tool_calls.len() > 0 {
            let last = g.tool_calls.len() - 1;
            let arguments = g.tool_calls[last].arguments + event.str_or_empty("delta"@);
            GatheredSpec { tool_calls: with_arguments(g.tool_calls, last, arguments), ..g }
        } else {
            g
        }
    } else if kind == "response.output_item.done"@ {
        let i = call_index(g.tool_calls, call_id_of(item), 0);
        if is_function_call(event) && i < g.tool_calls.len() && g.tool_calls[i].arguments.len()
            == 0 {
            let arguments = item.str_or_empty("arguments"@);
            GatheredSpec { tool_calls: with_arguments(g.tool_calls, i, arguments), ..g }
        } else {
            g
        }
    } else if kind == "response.completed"@ {
        GatheredSpec {
            usage: match event.get2("response"@, "usage"@) {
                Some(u) => Some(usage_of(u)),
                None => g.usage,
            },
            finish_reason: if g.tool_calls.len() > 0 {
                "tool_calls"@
            } else {
                "stop"@
            },
            ..g
        }
    } else if kind == "response.incomplete"@ {
        GatheredSpec { finish_reason: "length"@, ..g }
    } else {
        g
    }
}

/// What is gathered from several events.
pub open spec fn gathered(events: Seq<JsonSpec>) -> GatheredSpec
    decreases events.len(),
{
    if events.len() == 0 {
        nothing_gathered()
    } else {
        gather_step(gathered(events.drop_last()), events.last())
    }
}

/// The reply that says what was gathered.
pub open spec fn completion_of(
    g: GatheredSpec,
    id: Seq<char>,
    model: Seq<char>,
    created: u64,
) -> CompletionSpec {
    CompletionSpec {
        id,
        object: "chat.completion"@,
        created,
        model,
        choices: seq![
            CompletionChoiceSpec {
                index: 0,
                role: "assistant"@,
                content: if g.content.len() == 0 {
                    None
                } else {
                    Some(g.content)
                },
                tool_calls: if g.tool_calls.len() == 0 {
                    None
                } else {
                    Some(g.tool_calls)
                },
                finish_reason: g.finish_reason,
            },
        ],
        usage: match g.usage {
            Some(u) => u,
            None => Usage { prompt_tokens: 0, completion_tokens: 0, total_tokens: 0 },
        },
    }
}

/// The first call with the identifier `id`, or the number of calls.
fn find_call(calls: &Vec<ToolCallResponse>, id: &str) -> (r: usize)
    ensures
        r == call_index(tool_calls_view(calls@), id@, 0),
        r <= calls@.len(),
{
    let ghost all = tool_calls_view(calls@);
    let mut i: usize = 0;
    while i < calls.len()
        invariant
            i <= calls@.len(),
            all == tool_calls_view(calls@),
            call_index(all, id@, 0) == call_index(all, id@, i as int),
        decreases calls@.len() - i,
    {
        proof {
            assert(all[i as int] == calls@[i as int]@);
        }
        if str_eq(calls[i].id.as_str(), id) {
            return i;
        }
        i = i + 1;
    }
    i
}

impl Gathered {
    /// Gives the call at `i` other arguments.
    fn set_arguments(&mut self, i: usize, arguments: String)
        requires
            i < old(self).tool_calls@.len(),
        ensures
            final(self)@ == (GatheredSpec {
                tool_calls: with_arguments(old(self)@.tool_calls, i as int, arguments@),
                ..old(self)@
            }),
    {
        let ghost before = self.tool_calls@;
        self.tool_calls[i].function.arguments = arguments;
        proof {
            assert(tool_calls_view(self.tool_calls@) =~= with_arguments(
                tool_calls_view(before),
                i as int,
                arguments@,
            ));
        }
    }

    /// Takes up one more event.
    fn add_event(&mut self, event: &Json)
        ensures
            final(self)@ == gather_step(old(self)@, event@),
    {
        let kind = event.str_or_empty("type");
        if str_eq(kind.as_str(), "response.output_text.delta") {
            let delta = event.str_or_empty("delta");
            self.content.append(delta.as_str());
        } else if str_eq(kind.as_str(), "response.output_item.added") {
            match event.get("item") {
                Some(item) => if item.has_str("type", "function_call") {
                    let ghost before = self.tool_calls@;
                    let call = ToolCallResponse {
                        id: read_call_id(item),
                        call_type: "function".to_owned(),
                        function: FunctionResponse {
                            name: item.str_or_empty("name"),
                            arguments: String::new(),
                        },
                    };
                    let ghost c = call@;
                    self.tool_calls.push(call);
                    proof {
                        assert(tool_calls_view(self.tool_calls@) =~= tool_calls_view(before).push(
                            c,
                        ));
                    }
                },
                None => {},
            }
        } else if str_eq(kind.as_str(), "response.function_call_arguments.delta") {
            let n = self.tool_calls.len();
            if n > 0 {
                let delta = event.str_or_empty("delta");
                let arguments = concat(
                    self.tool_calls[n - 1].function.arguments.as_str(),
                    delta.as_str(),
                );
                self.set_arguments(n - 1, arguments);
            }
        } else if str_eq(kind.as_str(), "response.output_item.done") {
            match event.get("item") {
                Some(item) => if item.has_str("type", "function_call") {
                    let id = read_call_id(item);
                    let i = find_call(&self.tool_calls, id.as_str());
                    if i < self.tool_calls.len() {
                        if is_empty(self.tool_calls[i].function.arguments.as_str()) {
                            self.set_arguments(i, item.str_or_empty("arguments"));
                        }
                    }
                },
                None => {},
            }
        } else if str_eq(kind.as_str(), "response.completed") {
            match event.get2("response", "usage") {
                Some(u) => {
                    self.usage = Some(read_usage(u));
                },
                None => {},
            }
            self.finish_reason = if self.tool_calls.len() > 0 {
                "tool_calls".to_owned()
            } else {
                "stop".to_owned()
            };
        } else if str_eq(kind.as_str(), "response.incomplete") {
            self.finish_reason = "length".to_owned();
        }
    }
}

/// What is gathered from several events.
pub fn gather(events: &Vec<Json>) -> (r: Gathered)
    ensures
        r@ == gathered(items_view(events@)),
{
    let ghost all = items_view(events@);
    let mut g = Gathered {
        content: String::new(),
        tool_calls: Vec::new(),
        usage: None,
        finish_reason: "stop".to_owned(),
    };
    proof {
        assert(g@ =~= gathered(all.take(0)));
    }
    let mut i: usize = 0;
    while i < events.len()
        invariant
            i <= events@.len(),
            all == items_view(events@),
            g@ == gathered(all.take(i as int)),
        decreases events@.len() - i,
    {
        proof {
            assert(all.take(i + 1).drop_last() =~= all.take(i as int));
            assert(all.take(i + 1).last() == events@[i as int]@);
        }
        g.add_event(&events[i]);
        i = i + 1;
    }
    proof {
        assert(all.take(all.len() as int) =~= all);
    }
    g
}

/// The reply that says what was gathered.
pub fn build_completion(g: Gathered, resp_id: &str, model: &str, created: u64) -> (r:
    ChatCompletionResponse)
    ensures
        r@ == completion_of(g@, resp_id@, model@, created),
{
    let usage = match g.usage {
        Some(u) => u,
        None => Usage { prompt_tokens: 0, completion_tokens: 0, total_tokens: 0 },
    };
    let ghost said = g@;
    let content = if is_empty(g.content.as_str()) {
        None
    } else {
        Some(g.content)
    };
    let tool_calls = if g.tool_calls.len() == 0 {
        None
    } else {
        Some(g.tool_calls)
    };
    let choice = CompletionChoice {
        index: 0,
        message: ResponseMessage { role: "assistant".to_owned(), content, tool_calls },
        finish_reason: g.finish_reason,
    };
    let ghost c = choice@;
    let choices = vec![choice];
    let r = ChatCompletionResponse {
        id: resp_id.to_owned(),
        object: "chat.completion",
        created,
        model: model.to_owned(),
        choices,
        usage,
    };
    proof {
        assert(r@.choices =~= seq![c]);
        assert(r@ =~= completion_of(said, resp_id@, model@, created));
    }
    r
}

/// Gathers a body of the upstream into one reply, made at a given time.
pub fn collect_completion_at(raw: &[u8], resp_id: &str, model: &str, created: u64) -> (r:
    ChatCompletionResponse)
    ensures
        r@ == completion_of(gathered(body_events(raw@)), resp_id@, model@, created),
{
    let events = read_body_events(raw);
    build_completion(gather(&events), resp_id, model, created)
}

/// Gathers a body of the upstream into one reply, made now.
pub fn collect_completion(raw: &[u8], resp_id: &str, model: &str) -> (r: ChatCompletionResponse)
    ensures
        exists|created: u64|
            r@ == #[trigger] completion_of(
                gathered(body_events(raw@)),
                resp_id@,
                model@,
                created,
            ),
{
    collect_completion_at(raw, resp_id, model, now_epoch())
}

// ---- laws -------------------------------------------------------------

/// The text deltas of several events, one after the other.
pub open spec fn text_deltas(events: Seq<JsonSpec>) -> Seq<char>
    decreases events.len(),
{
    if events.len() == 0 {
        seq![]
    } else if events.last().str_or_empty("type"@) == "response.output_text.delta"@ {
        text_deltas(events.drop_last()) + events.last().str_or_empty("delta"@)
    } else {
        text_deltas(events.drop_last())
    }
}

/// The text of the reply is the text deltas of the upstream, one after the
/// other, with nothing left out and nothing added.
pub proof fn law_content_is_text_deltas(events: Seq<JsonSpec>)
    ensures
        gathered(events).content == text_deltas(events),
    decreases events.len(),
{
    if events.len() > 0 {
        law_content_is_text_deltas(events.drop_last());
    }
}

/// The number of function calls that several events open.
pub open spec fn opened_calls(events: Seq<JsonSpec>) -> nat
    decreases events.len(),
{
    if events.len() == 0 {
        0
    } else {
        let rest = opened_calls(events.drop_last());
        if events.last().str_or_empty("type"@) == "response.output_item.added"@ && is_function_call(
            events.last(),
        ) {
            rest + 1
        } else {
            rest
        }
    }
}

/// A call is looked for from `from` on.
proof fn lemma_call_index_bound(calls: Seq<ToolCallSpec>, id: Seq<char>, from: int)
    ensures
        call_index(calls, id, from) >= from,
    decreases calls.len() - from,
{
    if 0 <= from < calls.len() && calls[from].id != id {
        lemma_call_index_bound(calls, id, from + 1);
    }
}

/// The reply has one tool call for each function call that the upstream opened.
pub proof fn law_one_call_per_opened_call(events: Seq<JsonSpec>)
    ensures
        gathered(events).tool_calls.len() == opened_calls(events),
    decreases events.len(),
{
    if events.len() > 0 {
        law_one_call_per_opened_call(events.drop_last());
        lemma_call_index_bound(
            gathered(events.drop_last()).tool_calls,
            call_id_of(item_of(events.last())),
            0,
        );
        reveal_strlit("response.output_text.delta");
        reveal_strlit("response.output_item.added");
        assert("response.output_text.delta"@.len() != "response.output_item.added"@.len()
            || "response.output_text.delta"@[16] != "response.output_item.added"@[16]);
    }
}

} // verus!
