//! The replies of the chat completions endpoint.

use vstd::prelude::*;

use crate::json::{Json, JsonSpec};
use crate::text::opt_view;

verus! {

// ---- token counts -----------------------------------------------------

/// How many tokens a completion took.
#[derive(Debug, Clone, Copy, PartialEq, Eq, Structural)]
pub struct Usage {
    pub prompt_tokens: u64,
    pub completion_tokens: u64,
    pub total_tokens: u64,
}

/// The counts that a `usage` object gives: a count that is absent is zero, and
/// the total is the sum, modulo 2^64.
pub open spec fn usage_of(u: JsonSpec) -> Usage {
    let prompt_tokens = match u.get_u64("input_tokens"@) {
        Some(n) => n,
        None => 0,
    };
    let completion_tokens = match u.get_u64("output_tokens"@) {
        Some(n) => n,
        None => 0,
    };
    Usage {
        prompt_tokens,
        completion_tokens,
        total_tokens: prompt_tokens.wrapping_add(completion_tokens),
    }
}

/// The counts that a `usage` object gives.
pub fn read_usage(u: &Json) -> (r: Usage)
    ensures
        r == usage_of(u@),
{
    let prompt_tokens: u64 = match u.get_u64("input_tokens") {
        Some(n) => n,
        None => 0,
    };
    let completion_tokens: u64 = match u.get_u64("output_tokens") {
        Some(n) => n,
        None => 0,
    };
    Usage {
        prompt_tokens,
        completion_tokens,
        total_tokens: prompt_tokens.wrapping_add(completion_tokens),
    }
}

// ---- streamed chunks --------------------------------------------------

/// One chunk of a streamed completion.
#[derive(Debug)]
pub struct ChatCompletionChunk {
    pub id: String,
    pub object: &'static str,
    pub created: u64,
    pub model: String,
    pub choices: Vec<ChunkChoice>,
    pub usage: Option<Usage>,
}

#[derive(Debug)]
pub struct ChunkChoice {
    pub index: u32,
    pub delta: Delta,
    pub finish_reason: Option<String>,
}

#[derive(Debug)]
pub struct Delta {
    pub role: Option<String>,
    pub content: Option<String>,
    pub tool_calls: Option<Vec<DeltaToolCall>>,
}

#[derive(Debug)]
pub struct DeltaToolCall {
    pub index: u32,
    pub id: Option<String>,
    pub call_type: Option<String>,
    pub function: Option<DeltaFunction>,
}

#[derive(Debug)]
pub struct DeltaFunction {
    pub name: Option<String>,
    pub arguments: Option<String>,
}

/// What a chunk says.
#[verifier::ext_equal]
pub struct ChunkSpec {
    pub id: Seq<char>,
    pub object: Seq<char>,
    pub created: u64,
    pub model: Seq<char>,
    pub choices: Seq<ChoiceSpec>,
    pub usage: Option<Usage>,
}

#[verifier::ext_equal]
pub struct ChoiceSpec {
    pub index: u32,
    pub delta: DeltaSpec,
    pub finish_reason: Option<Seq<char>>,
}

#[verifier::ext_equal]
pub struct DeltaSpec {
    pub role: Option<Seq<char>>,
    pub content: Option<Seq<char>>,
    pub tool_calls: Option<Seq<ToolDeltaSpec>>,
}

#[verifier::ext_equal]
pub struct ToolDeltaSpec {
    pub index: u32,
    pub id: Option<Seq<char>>,
    pub call_type: Option<Seq<char>>,
    pub function: Option<FunctionDeltaSpec>,
}

#[verifier::ext_equal]
pub struct FunctionDeltaSpec {
    pub name: Option<Seq<char>>,
    pub arguments: Option<Seq<char>>,
}

impl View for DeltaFunction {
    type V = FunctionDeltaSpec;

    open spec fn view(&self) -> FunctionDeltaSpec {
        FunctionDeltaSpec { name: opt_view(self.name), arguments: opt_view(self.arguments) }
    }
}

impl View for DeltaToolCall {
    type V = ToolDeltaSpec;

    open spec fn view(&self) -> ToolDeltaSpec {
        ToolDeltaSpec {
            index: self.index,
            id: opt_view(self.id),
            call_type: opt_view(self.call_type),
            function: match self.function {
                Some(f) => Some(f@),
                None => None,
            },
        }
    }
}

impl View for Delta {
    type V = DeltaSpec;

    open spec fn view(&self) -> DeltaSpec {
        DeltaSpec {
            role: opt_view(self.role),
            content: opt_view(self.content),
            tool_calls: match self.tool_calls {
                Some(v) => Some(v@.map_values(|t: DeltaToolCall| t@)),
                None => None,
            },
        }
    }
}

impl View for ChunkChoice {
    type V = ChoiceSpec;

    open spec fn view(&self) -> ChoiceSpec {
        ChoiceSpec {
            index: self.index,
            delta: self.delta@,
            finish_reason: opt_view(self.finish_reason),
        }
    }
}

impl View for ChatCompletionChunk {
    type V = ChunkSpec;

    open spec fn view(&self) -> ChunkSpec {
        ChunkSpec {
            id: self.id@,
            object: self.object@,
            created: self.created,
            model: self.model@,
            choices: self.choices@.map_values(|c: ChunkChoice| c@),
            usage: self.usage,
        }
    }
}

// ---- whole replies ----------------------------------------------------

/// A completion that is sent in one piece.
#[derive(Debug)]
pub struct ChatCompletionResponse {
    pub id: String,
    pub object: &'static str,
    pub created: u64,
    pub model: String,
    pub choices: Vec<CompletionChoice>,
    pub usage: Usage,
}

#[derive(Debug)]
pub struct CompletionChoice {
    pub index: u32,
    pub message: ResponseMessage,
    pub finish_reason: String,
}

#[derive(Debug)]
pub struct ResponseMessage {
    pub role: String,
    pub content: Option<String>,
    pub tool_calls: Option<Vec<ToolCallResponse>>,
}

#[derive(Debug)]
pub struct ToolCallResponse {
    pub id: String,
    pub call_type: String,
    pub function: FunctionResponse,
}

#[derive(Debug)]
pub struct FunctionResponse {
    pub name: String,
    pub arguments: String,
}

/// What a whole completion says.
#[verifier::ext_equal]
pub struct CompletionSpec {
    pub id: Seq<char>,
    pub object: Seq<char>,
    pub created: u64,
    pub model: Seq<char>,
    pub choices: Seq<CompletionChoiceSpec>,
    pub usage: Usage,
}

#[verifier::ext_equal]
pub struct CompletionChoiceSpec {
    pub index: u32,
    pub role: Seq<char>,
    pub content: Option<Seq<char>>,
    pub tool_calls: Option<Seq<ToolCallSpec>>,
    pub finish_reason: Seq<char>,
}

#[verifier::ext_equal]
pub struct ToolCallSpec {
    pub id: Seq<char>,
    pub call_type: Seq<char>,
    pub name: Seq<char>,
    pub arguments: Seq<char>,
}

impl View for ToolCallResponse {
    type V = ToolCallSpec;

    open spec fn view(&self) -> ToolCallSpec {
        ToolCallSpec {
            id: self.id@,
            call_type: self.call_type@,
            name: self.function.name@,
            arguments: self.function.arguments@,
        }
    }
}

/// What several tool calls say.
pub open spec fn tool_calls_view(v: Seq<ToolCallResponse>) -> Seq<ToolCallSpec> {
    v.map_values(|t: ToolCallResponse| t@)
}

impl View for CompletionChoice {
    type V = CompletionChoiceSpec;

    open spec fn view(&self) -> CompletionChoiceSpec {
        CompletionChoiceSpec {
            index: self.index,
            role: self.message.role@,
            content: opt_view(self.message.content),
            tool_calls: match self.message.tool_calls {
                Some(v) => Some(tool_calls_view(v@)),
                None => None,
            },
            finish_reason: self.finish_reason@,
        }
    }
}

impl View for ChatCompletionResponse {
    type V = CompletionSpec;

    open spec fn view(&self) -> CompletionSpec {
        CompletionSpec {
            id: self.id@,
            object: self.object@,
            created: self.created,
            model: self.model@,
            choices: self.choices@.map_values(|c: CompletionChoice| c@),
            usage: self.usage,
        }
    }
}

} // verus!
