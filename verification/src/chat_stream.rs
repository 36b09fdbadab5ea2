//! Streamed completions: the events of the upstream turned into chunks.

use vstd::prelude::*;

use crate::bytes::{
    flat, lemma_last_feed, lemma_whole_lines_cut, open_line, take_whole_lines, whole_lines,
    LINE_FEED,
};
use crate::chat_reply::{
    read_usage, usage_of, ChatCompletionChunk, ChoiceSpec, ChunkChoice, ChunkSpec, Delta,
    DeltaFunction, DeltaSpec, DeltaToolCall, FunctionDeltaSpec, ToolDeltaSpec,
};
use crate::clock::now_epoch;
use crate::errors::{error_of, plain_error_text};
use crate::json::{opt_json, Json, JsonSpec};
use crate::json_codec::json_text;
use crate::sse::{
    chunk_items, law_lines_split, read_chunk_items, stream_items_view, StreamItem, StreamItemSpec,
};
use crate::text::{concat, concat3, opt_str_view, str_eq};

verus! {

// ---- pieces of a stream -----------------------------------------------

/// One piece of a streamed reply: a chunk, or the mark that ends the stream.
#[derive(Debug)]
pub enum Piece {
    Done,
    Chunk(ChatCompletionChunk),
}

/// What a piece of a streamed reply is.
#[verifier::ext_equal]
pub enum PieceSpec {
    Done,
    Chunk(ChunkSpec),
}

impl View for Piece {
    type V = PieceSpec;

    open spec fn view(&self) -> PieceSpec {
        match *self {
            Piece::Done => PieceSpec::Done,
            Piece::Chunk(c) => PieceSpec::Chunk(c@),
        }
    }
}

/// What several pieces are.
pub open spec fn pieces_view(v: Seq<Piece>) -> Seq<PieceSpec> {
    v.map_values(|p: Piece| p@)
}

/// What all chunks of one reply share.
pub struct FrameSpec {
    pub id: Seq<char>,
    pub model: Seq<char>,
    pub created: u64,
}

/// A chunk with one choice.
pub open spec fn chunk_of(
    frame: FrameSpec,
    delta: DeltaSpec,
    finish_reason: Option<Seq<char>>,
) -> PieceSpec {
    PieceSpec::Chunk(
        ChunkSpec {
            id: frame.id,
            object: "chat.completion.chunk"@,
            created: frame.created,
            model: frame.model,
            choices: seq![ChoiceSpec { index: 0, delta, finish_reason }],
            usage: None,
        },
    )
}

/// A chunk that has no choice and reports the usage.
pub open spec fn usage_chunk_of(frame: FrameSpec, usage: Option<JsonSpec>) -> PieceSpec {
    PieceSpec::Chunk(
        ChunkSpec {
            id: frame.id,
            object: "chat.completion.chunk"@,
            created: frame.created,
            model: frame.model,
            choices: seq![],
            usage: match usage {
                Some(u) => Some(usage_of(u)),
                None => None,
            },
        },
    )
}

/// A delta that says nothing.
pub open spec fn empty_delta() -> DeltaSpec {
    DeltaSpec { role: None, content: None, tool_calls: None }
}

/// A delta that opens the message of the assistant.
pub open spec fn role_delta() -> DeltaSpec {
    DeltaSpec { role: Some("assistant"@), content: None, tool_calls: None }
}

/// A delta that adds text.
pub open spec fn content_delta(text: Seq<char>) -> DeltaSpec {
    DeltaSpec { role: None, content: Some(text), tool_calls: None }
}

/// A delta about the one tool call in flight.
pub open spec fn tool_delta(
    id: Option<Seq<char>>,
    name: Option<Seq<char>>,
    arguments: Seq<char>,
) -> DeltaSpec {
    DeltaSpec {
        role: None,
        content: None,
        tool_calls: Some(
            seq![
                ToolDeltaSpec {
                    index: 0,
                    id,
                    call_type: Some("function"@),
                    function: Some(FunctionDeltaSpec { name, arguments: Some(arguments) }),
                },
            ],
        ),
    }
}

/// The pieces that end a reply: the reason, the usage where it was asked for,
/// and the end mark.
pub open spec fn final_pieces(
    frame: FrameSpec,
    usage: Option<JsonSpec>,
    finish_reason: Seq<char>,
    include_usage: bool,
) -> Seq<PieceSpec> {
    let finish = chunk_of(frame, empty_delta(), Some(finish_reason));
    if include_usage {
        seq![finish, usage_chunk_of(frame, usage), PieceSpec::Done]
    } else {
        seq![finish, PieceSpec::Done]
    }
}

/// A chunk with one choice.
fn make_chunk(
    resp_id: &str,
    model: &str,
    created: u64,
    delta: Delta,
    finish_reason: Option<String>,
) -> (r: Piece)
    ensures
        r@ == chunk_of(
            (FrameSpec { id: resp_id@, model: model@, created }),
            delta@,
            crate::text::opt_view(finish_reason),
        ),
{
    let choice = ChunkChoice { index: 0, delta, finish_reason };
    let ghost c = choice@;
    let choices = vec![choice];
    proof {
        assert(choices@.map_values(|c: ChunkChoice| c@) =~= seq![c]);
    }
    Piece::Chunk(
        ChatCompletionChunk {
            id: resp_id.to_owned(),
            object: "chat.completion.chunk",
            created,
            model: model.to_owned(),
            choices,
            usage: None,
        },
    )
}

/// A delta about the one tool call in flight.
fn make_tool_delta(id: Option<&str>, name: Option<&str>, arguments: &str) -> (r: Delta)
    ensures
        r@ == tool_delta(opt_str_view(id), opt_str_view(name), arguments@),
{
    let call = DeltaToolCall {
        index: 0,
        id: match id {
            Some(s) => Some(s.to_owned()),
            None => None,
        },
        call_type: Some("function".to_owned()),
        function: Some(
            DeltaFunction {
                name: match name {
                    Some(s) => Some(s.to_owned()),
                    None => None,
                },
                arguments: Some(arguments.to_owned()),
            },
        ),
    };
    let ghost c = call@;
    let calls = vec![call];
    proof {
        assert(calls@.map_values(|t: DeltaToolCall| t@) =~= seq![c]);
    }
    Delta { role: None, content: None, tool_calls: Some(calls) }
}

/// The pieces that end a reply.
pub fn final_stream_chunk(
    resp_id: &str,
    model: &str,
    created: u64,
    usage: Option<&Json>,
    finish_reason: &str,
    stream_include_usage: bool,
) -> (r: Vec<Piece>)
    ensures
        pieces_view(r@) == final_pieces(
            (FrameSpec { id: resp_id@, model: model@, created }),
            opt_json(usage),
            finish_reason@,
            stream_include_usage,
        ),
{
    let ghost frame = FrameSpec { id: resp_id@, model: model@, created };
    let delta = Delta { role: None, content: None, tool_calls: None };
    let finish = make_chunk(resp_id, model, created, delta, Some(finish_reason.to_owned()));
    let mut out: Vec<Piece> = Vec::new();
    out.push(finish);
    if stream_include_usage {
        let counts = match usage {
            Some(u) => Some(read_usage(u)),
            None => None,
        };
        let choices: Vec<ChunkChoice> = Vec::new();
        proof {
            assert(choices@.map_values(|c: ChunkChoice| c@) =~= seq![]);
        }
        out.push(
            Piece::Chunk(
                ChatCompletionChunk {
                    id: resp_id.to_owned(),
                    object: "chat.completion.chunk",
                    created,
                    model: model.to_owned(),
                    choices,
                    usage: counts,
                },
            ),
        );
    }
    out.push(Piece::Done);
    proof {
        assert(pieces_view(out@) =~= final_pieces(
            frame,
            opt_json(usage),
            finish_reason@,
            stream_include_usage,
        ));
    }
    out
}

// ---- events -----------------------------------------------------------

/// The item that an event is about.
pub open spec fn item_of(event: JsonSpec) -> JsonSpec {
    match event.get("item"@) {
        Some(v) => v,
        None => JsonSpec::Null,
    }
}

/// Whether the item of an event is a function call.
pub open spec fn is_function_call(event: JsonSpec) -> bool {
    item_of(event).get_str("type"@) == Some("function_call"@)
}

/// The identifier of a call: its `call_id`, else its `id`, else the empty text.
pub open spec fn call_id_of(item: JsonSpec) -> Seq<char> {
    match item.get_str("call_id"@) {
        Some(s) => s,
        None => item.str_or_empty("id"@),
    }
}

/// The identifier of a call.
pub fn read_call_id(item: &Json) -> (r: String)
    ensures
        r@ == call_id_of(item@),
{
    match item.get_str("call_id") {
        Some(s) => s.to_owned(),
        None => item.str_or_empty("id"),
    }
}

// ---- translation of a chunk of the upstream ---------------------------

/// What a chunk of the upstream is turned into: the pieces to send, whether the
/// reply ended in it, and what was seen in it.
#[derive(Debug)]
pub struct StreamTranslation {
    pub output: Vec<Piece>,
    pub completed: bool,
    pub saw_tool_call: bool,
    pub saw_function_arg_delta: bool,
}

/// What a translation is.
#[verifier::ext_equal]
pub struct TranslationSpec {
    pub output: Seq<PieceSpec>,
    pub completed: bool,
    pub saw_tool_call: bool,
    pub saw_function_arg_delta: bool,
}

impl View for StreamTranslation {
    type V = TranslationSpec;

    open spec fn view(&self) -> TranslationSpec {
        TranslationSpec {
            output: pieces_view(self.output@),
            completed: self.completed,
            saw_tool_call: self.saw_tool_call,
            saw_function_arg_delta: self.saw_function_arg_delta,
        }
    }
}

/// A translation of nothing.
pub open spec fn empty_translation() -> TranslationSpec {
    TranslationSpec {
        output: seq![],
        completed: false,
        saw_tool_call: false,
        saw_function_arg_delta: false,
    }
}

/// What was seen in earlier chunks, and what the client asked for.
pub struct SeenSpec {
    pub tool_call: bool,
    pub arg_delta: bool,
    pub include_usage: bool,
}

/// The translation with one more piece.
pub open spec fn with_piece(t: TranslationSpec, p: PieceSpec) -> TranslationSpec {
    TranslationSpec { output: t.output.push(p), ..t }
}

/// The translation with the pieces that end a reply.
pub open spec fn with_final(
    t: TranslationSpec,
    frame: FrameSpec,
    event: JsonSpec,
    finish_reason: Seq<char>,
    include_usage: bool,
) -> TranslationSpec {
    TranslationSpec {
        output: t.output + final_pieces(
            frame,
            event.get2("response"@, "usage"@),
            finish_reason,
            include_usage,
        ),
        completed: true,
        ..t
    }
}

/// The translation after one more event.
pub open spec fn event_step(
    t: TranslationSpec,
    event: JsonSpec,
    frame: FrameSpec,
    seen: SeenSpec,
) -> TranslationSpec {
    let kind = event.str_or_empty("type"@);
    let item = item_of(event);
    if kind == "response.created"@ {
        with_piece(t, chunk_of(frame, role_delta(), None))
    } else if kind == "response.output_item.added"@ {
        if is_function_call(event) {
            with_piece(
                TranslationSpec { saw_tool_call: true, ..t },
                chunk_of(
                    frame,
                    tool_delta(Some(call_id_of(item)), Some(item.str_or_empty("name"@)), seq![]),
                    None,
                ),
            )
        } else {
            t
        }
    } else if kind == "response.output_text.delta"@ {
        with_piece(t, chunk_of(frame, content_delta(event.str_or_empty("delta"@)), None))
    } else if kind == "response.function_call_arguments.delta"@ {
        with_piece(
            TranslationSpec { saw_tool_call: true, saw_function_arg_delta: true, ..t },
            chunk_of(frame, tool_delta(None, None, event.str_or_empty("delta"@)), None),
        )
    } else if kind == "response.output_item.done"@ {
        if !is_function_call(event) {
            t
        } else if seen.arg_delta || t.saw_function_arg_delta {
            TranslationSpec { saw_tool_call: true, ..t }
        } else {
            with_piece(
                TranslationSpec { saw_tool_call: true, ..t },
                chunk_of(
                    frame,
                    tool_delta(
                        Some(call_id_of(item)),
                        Some(item.str_or_empty("name"@)),
                        item.str_or_empty("arguments"@),
                    ),
                    None,
                ),
            )
        }
    } else if kind == "response.completed"@ {
        let reason = if seen.tool_call || t.saw_tool_call {
            "tool_calls"@
        } else {
            "stop"@
        };
        with_final(t, frame, event, reason, seen.include_usage)
    } else if kind == "response.incomplete"@ {
        with_final(t, frame, event, "length"@, seen.include_usage)
    } else {
        t
    }
}

/// The translation after one more item of the stream.
pub open spec fn item_step(
    t: TranslationSpec,
    item: StreamItemSpec,
    frame: FrameSpec,
    seen: SeenSpec,
) -> TranslationSpec {
    match item {
        StreamItemSpec::Done => TranslationSpec {
            output: t.output.push(PieceSpec::Done),
            completed: true,
            ..t
        },
        StreamItemSpec::Event(event) => event_step(t, event, frame, seen),
    }
}

/// The translation of several items of the stream.
pub open spec fn translation(
    items: Seq<StreamItemSpec>,
    frame: FrameSpec,
    seen: SeenSpec,
) -> TranslationSpec
    decreases items.len(),
{
    if items.len() == 0 {
        empty_translation()
    } else {
        item_step(translation(items.drop_last(), frame, seen), items.last(), frame, seen)
    }
}

impl StreamTranslation {
    /// Adds a piece.
    fn add_piece(&mut self, p: Piece)
        ensures
            final(self)@ == with_piece(old(self)@, p@),
    {
        let ghost before = self.output@;
        self.output.push(p);
        proof {
            assert(pieces_view(self.output@) =~= pieces_view(before).push(p@));
        }
    }

    /// Adds the pieces that end a reply.
    fn add_final(
        &mut self,
        resp_id: &str,
        model: &str,
        created: u64,
        event: &Json,
        finish_reason: &str,
        stream_include_usage: bool,
    )
        ensures
            final(self)@ == with_final(
                old(self)@,
                (FrameSpec { id: resp_id@, model: model@, created }),
                event@,
                finish_reason@,
                stream_include_usage,
            ),
    {
        let usage = event.get2("response", "usage");
        let mut last = final_stream_chunk(
            resp_id,
            model,
            created,
            usage,
            finish_reason,
            stream_include_usage,
        );
        let ghost before = self.output@;
        let ghost added = last@;
        self.output.append(&mut last);
        self.completed = true;
        proof {
            assert(pieces_view(self.output@) =~= pieces_view(before) + pieces_view(added));
        }
    }

    /// Takes up one more event.
    fn add_event(
        &mut self,
        event: &Json,
        resp_id: &str,
        model: &str,
        created: u64,
        saw_tool_call_before: bool,
        saw_function_arg_delta_before: bool,
        stream_include_usage: bool,
    )
        ensures
            final(self)@ == event_step(
                old(self)@,
                event@,
                (FrameSpec { id: resp_id@, model: model@, created }),
                (SeenSpec {
                    tool_call: saw_tool_call_before,
                    arg_delta: saw_function_arg_delta_before,
                    include_usage: stream_include_usage,
                }),
            ),
    {
        let kind = event.str_or_empty("type");
        if str_eq(kind.as_str(), "response.created") {
            let delta = Delta {
                role: Some("assistant".to_owned()),
                content: None,
                tool_calls: None,
            };
            let p = make_chunk(resp_id, model, created, delta, None);
            self.add_piece(p);
        } else if str_eq(kind.as_str(), "response.output_item.added") {
            match event.get("item") {
                Some(item) => if item.has_str("type", "function_call") {
                    self.saw_tool_call = true;
                    proof {
                        reveal_strlit("");
                        assert(""@ =~= seq![]);
                    }
                    let id = read_call_id(item);
                    let name = item.str_or_empty("name");
                    let delta = make_tool_delta(Some(id.as_str()), Some(name.as_str()), "");
                    let p = make_chunk(resp_id, model, created, delta, None);
                    self.add_piece(p);
                },
                None => {},
            }
        } else if str_eq(kind.as_str(), "response.output_text.delta") {
            let delta = Delta {
                role: None,
                content: Some(event.str_or_empty("delta")),
                tool_calls: None,
            };
            let p = make_chunk(resp_id, model, created, delta, None);
            self.add_piece(p);
        } else if str_eq(kind.as_str(), "response.function_call_arguments.delta") {
            self.saw_tool_call = true;
            self.saw_function_arg_delta = true;
            let delta = make_tool_delta(None, None, event.str_or_empty("delta").as_str());
            let p = make_chunk(resp_id, model, created, delta, None);
            self.add_piece(p);
        } else if str_eq(kind.as_str(), "response.output_item.done") {
            match event.get("item") {
                Some(item) => if item.has_str("type", "function_call") {
                    self.saw_tool_call = true;
                    if !(saw_function_arg_delta_before || self.saw_function_arg_delta) {
                        let id = read_call_id(item);
                        let name = item.str_or_empty("name");
                        let arguments = item.str_or_empty("arguments");
                        let delta = make_tool_delta(
                            Some(id.as_str()),
                            Some(name.as_str()),
                            arguments.as_str(),
                        );
                        let p = make_chunk(resp_id, model, created, delta, None);
                        self.add_piece(p);
                    }
                },
                None => {},
            }
        } else if str_eq(kind.as_str(), "response.completed") {
            let reason = if saw_tool_call_before || self.saw_tool_call {
                "tool_calls"
            } else {
                "stop"
            };
            self.add_final(resp_id, model, created, event, reason, stream_include_usage);
        } else if str_eq(kind.as_str(), "response.incomplete") {
            self.add_final(resp_id, model, created, event, "length", stream_include_usage);
        }
    }
}

/// Turns a chunk of the upstream into pieces of the reply, at a given time.
pub fn translate_stream_chunk_at(
    chunk: &[u8],
    resp_id: &str,
    model: &str,
    created: u64,
    saw_tool_call_before: bool,
    saw_function_arg_delta_before: bool,
    stream_include_usage: bool,
) -> (r: StreamTranslation)
    ensures
        r@ == translation(
            chunk_items(chunk@),
            (FrameSpec { id: resp_id@, model: model@, created }),
            (SeenSpec {
                tool_call: saw_tool_call_before,
                arg_delta: saw_function_arg_delta_before,
                include_usage: stream_include_usage,
            }),
        ),
{
    let items = read_chunk_items(chunk);
    translate_stream_items(
        &items,
        resp_id,
        model,
        created,
        saw_tool_call_before,
        saw_function_arg_delta_before,
        stream_include_usage,
    )
}

/// Turns items of the upstream's stream into pieces of the reply, at a given
/// time.
pub fn translate_stream_items(
    items: &Vec<StreamItem>,
    resp_id: &str,
    model: &str,
    created: u64,
    saw_tool_call_before: bool,
    saw_function_arg_delta_before: bool,
    stream_include_usage: bool,
) -> (r: StreamTranslation)
    ensures
        r@ == translation(
            stream_items_view(items@),
            (FrameSpec { id: resp_id@, model: model@, created }),
            (SeenSpec {
                tool_call: saw_tool_call_before,
                arg_delta: saw_function_arg_delta_before,
                include_usage: stream_include_usage,
            }),
        ),
{
    let ghost frame = FrameSpec { id: resp_id@, model: model@, created };
    let ghost seen = SeenSpec {
        tool_call: saw_tool_call_before,
        arg_delta: saw_function_arg_delta_before,
        include_usage: stream_include_usage,
    };
    let ghost all = stream_items_view(items@);
    let mut t = StreamTranslation {
        output: Vec::new(),
        completed: false,
        saw_tool_call: false,
        saw_function_arg_delta: false,
    };
    proof {
        assert(t@ =~= translation(all.take(0), frame, seen));
    }
    let mut i: usize = 0;
    while i < items.len()
        invariant
            i <= items@.len(),
            all == stream_items_view(items@),
            frame == (FrameSpec { id: resp_id@, model: model@, created }),
            seen == (SeenSpec {
                tool_call: saw_tool_call_before,
                arg_delta: saw_function_arg_delta_before,
                include_usage: stream_include_usage,
            }),
            t@ == translation(all.take(i as int), frame, seen),
        decreases items@.len() - i,
    {
        proof {
            assert(all.take(i + 1).drop_last() =~= all.take(i as int));
            assert(all.take(i + 1).last() == items@[i as int]@);
        }
        match &items[i] {
            StreamItem::Done => {
                t.completed = true;
                t.add_piece(Piece::Done);
            },
            StreamItem::Event(event) => {
                t.add_event(
                    event,
                    resp_id,
                    model,
                    created,
                    saw_tool_call_before,
                    saw_function_arg_delta_before,
                    stream_include_usage,
                );
            },
        }
        i = i + 1;
    }
    proof {
        assert(all.take(all.len() as int) =~= all);
    }
    t
}

/// Turns a chunk of the upstream into pieces of the reply, as of now.
pub fn translate_stream_chunk(
    chunk: &[u8],
    resp_id: &str,
    model: &str,
    saw_tool_call_before: bool,
    saw_function_arg_delta_before: bool,
    stream_include_usage: bool,
) -> (r: StreamTranslation)
    ensures
        exists|created: u64|
            r@ == #[trigger] translation(
                chunk_items(chunk@),
                (FrameSpec { id: resp_id@, model: model@, created }),
                (SeenSpec {
                    tool_call: saw_tool_call_before,
                    arg_delta: saw_function_arg_delta_before,
                    include_usage: stream_include_usage,
                }),
            ),
{
    translate_stream_chunk_at(
        chunk,
        resp_id,
        model,
        now_epoch(),
        saw_tool_call_before,
        saw_function_arg_delta_before,
        stream_include_usage,
    )
}

// ---- the stream as a whole --------------------------------------------

/// What happens on the upstream's stream.
pub enum Happening {
    /// Bytes arrive, at a time.
    Chunk(Seq<u8>, u64),
    /// Reading fails, with a message.
    Failure(Seq<char>),
    /// The stream ends, at a time.
    End(u64),
}

/// What is sent to the client in turn.
pub enum Sent {
    Pieces(Seq<PieceSpec>),
    Failure(Seq<char>),
    Closed,
}

/// A streamed reply in progress.
#[derive(Debug)]
pub struct ChatStream {
    /// What came of a line that is not complete yet.
    pub pending: Vec<u8>,
    pub resp_id: String,
    pub model: String,
    pub stream_include_usage: bool,
    pub saw_completed: bool,
    pub sent_eof_done: bool,
    pub saw_tool_call: bool,
    pub saw_function_arg_delta: bool,
}

/// What a streamed reply in progress is.
#[verifier::ext_equal]
pub struct ChatStreamSpec {
    pub pending: Seq<u8>,
    pub id: Seq<char>,
    pub model: Seq<char>,
    pub include_usage: bool,
    pub completed: bool,
    pub closed: bool,
    pub tool_call: bool,
    pub arg_delta: bool,
}

impl View for ChatStream {
    type V = ChatStreamSpec;

    open spec fn view(&self) -> ChatStreamSpec {
        ChatStreamSpec {
            pending: self.pending@,
            id: self.resp_id@,
            model: self.model@,
            include_usage: self.stream_include_usage,
            completed: self.saw_completed,
            closed: self.sent_eof_done,
            tool_call: self.saw_tool_call,
            arg_delta: self.saw_function_arg_delta,
        }
    }
}

impl ChatStreamSpec {
    /// A reply of which nothing was sent.
    pub open spec fn fresh(id: Seq<char>, model: Seq<char>, include_usage: bool) -> Self {
        ChatStreamSpec {
            pending: seq![],
            id,
            model,
            include_usage,
            completed: false,
            closed: false,
            tool_call: false,
            arg_delta: false,
        }
    }

    /// What the chunks that are sent at `created` share.
    pub open spec fn frame(self, created: u64) -> FrameSpec {
        FrameSpec { id: self.id, model: self.model, created }
    }

    /// What was seen so far.
    pub open spec fn seen(self) -> SeenSpec {
        SeenSpec {
            tool_call: self.tool_call,
            arg_delta: self.arg_delta,
            include_usage: self.include_usage,
        }
    }

    /// Whether the client has been told that the reply is over.
    pub open spec fn over(self) -> bool {
        self.completed || self.closed
    }

    /// The reply after bytes that translate to `t`.
    pub open spec fn after(self, t: TranslationSpec) -> Self {
        ChatStreamSpec {
            completed: self.completed || t.completed,
            tool_call: self.tool_call || t.saw_tool_call,
            arg_delta: self.arg_delta || t.saw_function_arg_delta,
            ..self
        }
    }

    /// The reply with these bytes as what came of a line that is not complete.
    pub open spec fn keeping(self, pending: Seq<u8>) -> Self {
        ChatStreamSpec { pending, ..self }
    }

    /// What bytes translate to at `created`.
    pub open spec fn translated(self, bytes: Seq<u8>, created: u64) -> TranslationSpec {
        translation(chunk_items(bytes), self.frame(created), self.seen())
    }

    /// The reason that is given where the upstream's stream just ends.
    pub open spec fn end_reason(self) -> Seq<char> {
        if self.tool_call {
            "tool_calls"@
        } else {
            "stop"@
        }
    }

    /// The reply after something happened on the upstream's stream, and what is
    /// sent to the client for it. Lines are taken up once they are complete, or
    /// once the stream ends.
    pub open spec fn advance(self, h: Happening) -> (Self, Sent) {
        match h {
            Happening::Chunk(bytes, created) => {
                let all = self.pending + bytes;
                let t = self.translated(whole_lines(all), created);
                (self.after(t).keeping(open_line(all)), Sent::Pieces(t.output))
            },
            Happening::Failure(message) => (
                ChatStreamSpec { closed: true, ..self },
                Sent::Failure(failure_frame(message)),
            ),
            Happening::End(created) => {
                let t = self.translated(self.pending, created);
                let s = self.after(t).keeping(seq![]);
                if !s.over() {
                    (
                        ChatStreamSpec { closed: true, ..s },
                        Sent::Pieces(
                            t.output + final_pieces(
                                s.frame(created),
                                None,
                                s.end_reason(),
                                s.include_usage,
                            ),
                        ),
                    )
                } else if t.output.len() > 0 {
                    (s, Sent::Pieces(t.output))
                } else {
                    (s, Sent::Closed)
                }
            },
        }
    }
}

/// The frame that reports that reading the upstream failed.
pub open spec fn failure_frame(message: Seq<char>) -> Seq<char> {
    "data: "@ + json_text(error_of("Stream error: "@ + message)) + "\n\n"@
}

impl ChatStream {
    /// A reply of which nothing was sent.
    pub fn new(resp_id: &str, model: &str, stream_include_usage: bool) -> (r: ChatStream)
        ensures
            r@ == ChatStreamSpec::fresh(resp_id@, model@, stream_include_usage),
    {
        ChatStream {
            pending: Vec::new(),
            resp_id: resp_id.to_owned(),
            model: model.to_owned(),
            stream_include_usage,
            saw_completed: false,
            sent_eof_done: false,
            saw_tool_call: false,
            saw_function_arg_delta: false,
        }
    }

    /// Takes up bytes, at a given time: the pieces to send.
    fn take_up(&mut self, bytes: &[u8], created: u64) -> (r: Vec<Piece>)
        ensures
            final(self)@ == old(self)@.after(old(self)@.translated(bytes@, created)),
            pieces_view(r@) == old(self)@.translated(bytes@, created).output,
    {
        let t = translate_stream_chunk_at(
            bytes,
            self.resp_id.as_str(),
            self.model.as_str(),
            created,
            self.saw_tool_call,
            self.saw_function_arg_delta,
            self.stream_include_usage,
        );
        self.saw_completed = self.saw_completed || t.completed;
        self.saw_tool_call = self.saw_tool_call || t.saw_tool_call;
        self.saw_function_arg_delta = self.saw_function_arg_delta || t.saw_function_arg_delta;
        t.output
    }

    /// Bytes arrived, at a given time: the pieces to send, which may be none. The
    /// end of a line that is not complete yet waits for more.
    pub fn on_chunk_at(&mut self, chunk: &[u8], created: u64) -> (r: Vec<Piece>)
        ensures
            (final(self)@, Sent::Pieces(pieces_view(r@))) == old(self)@.advance(
                Happening::Chunk(chunk@, created),
            ),
    {
        let ghost before = self@;
        let ready = take_whole_lines(&mut self.pending, chunk);
        let ghost between = self@;
        let out = self.take_up(ready.as_slice(), created);
        proof {
            assert(between.translated(ready@, created) == before.translated(ready@, created));
            assert(self@ =~= before.after(before.translated(ready@, created)).keeping(
                open_line(before.pending + chunk@),
            ));
        }
        out
    }

    /// Reading failed: the text to send.
    pub fn on_failure(&mut self, message: &str) -> (r: String)
        ensures
            (final(self)@, Sent::Failure(r@)) == old(self)@.advance(Happening::Failure(message@)),
    {
        self.sent_eof_done = true;
        let text = concat("Stream error: ", message);
        let body = plain_error_text(text.as_str());
        concat3("data: ", body.as_str(), "\n\n")
    }

    /// The stream ended, at a given time: what is left of a line is taken up, and
    /// the reply is ended where it was not over. None where there is nothing to
    /// send.
    pub fn on_end_at(&mut self, created: u64) -> (r: Option<Vec<Piece>>)
        ensures
            match r {
                Some(v) => (final(self)@, Sent::Pieces(pieces_view(v@))) == old(self)@.advance(
                    Happening::End(created),
                ),
                None => (final(self)@, Sent::Closed) == old(self)@.advance(Happening::End(created)),
            },
    {
        let ghost before = self@;
        let mut rest: Vec<u8> = Vec::new();
        std::mem::swap(&mut self.pending, &mut rest);
        let ghost between = self@;
        let mut out = self.take_up(rest.as_slice(), created);
        let ghost t = before.translated(before.pending, created);
        proof {
            assert(between.translated(rest@, created) == t);
            assert(self@ =~= before.after(t).keeping(seq![]));
            assert(pieces_view(out@).len() == out@.len());
        }
        if self.saw_completed || self.sent_eof_done {
            if out.len() == 0 {
                return None;
            }
            return Some(out);
        }
        self.sent_eof_done = true;
        let reason = if self.saw_tool_call {
            "tool_calls"
        } else {
            "stop"
        };
        let mut last = final_stream_chunk(
            self.resp_id.as_str(),
            self.model.as_str(),
            created,
            None,
            reason,
            self.stream_include_usage,
        );
        let ghost first = out@;
        let ghost added = last@;
        out.append(&mut last);
        proof {
            assert(pieces_view(out@) =~= pieces_view(first) + pieces_view(added));
        }
        Some(out)
    }

    /// Bytes arrived: the pieces to send, which may be none.
    pub fn on_chunk(&mut self, chunk: &[u8]) -> (r: Vec<Piece>)
        ensures
            exists|created: u64|
                (final(self)@, Sent::Pieces(pieces_view(r@))) == #[trigger] old(self)@.advance(
                    Happening::Chunk(chunk@, created),
                ),
    {
        self.on_chunk_at(chunk, now_epoch())
    }

    /// The stream ended: the pieces that end the reply, or none where it was
    /// over already.
    pub fn on_end(&mut self) -> (r: Option<Vec<Piece>>)
        ensures
            exists|created: u64|
                (match r {
                    Some(v) => (final(self)@, Sent::Pieces(pieces_view(v@))),
                    None => (final(self)@, Sent::Closed),
                }) == #[trigger] old(self)@.advance(Happening::End(created)),
    {
        self.on_end_at(now_epoch())
    }
}

// ---- text of the stream -----------------------------------------------

/// The frame of a piece, where a chunk is given as its JSON text and the end
/// mark as none.
pub open spec fn piece_frame(piece: Option<Seq<char>>) -> Seq<char> {
    match piece {
        Some(json) => "data: "@ + json + "\n\n"@,
        None => "data: [DONE]\n\n"@,
    }
}

/// The frames of several pieces, one after the other.
pub open spec fn piece_frames(pieces: Seq<Option<String>>) -> Seq<char>
    decreases pieces.len(),
{
    if pieces.len() == 0 {
        seq![]
    } else {
        piece_frames(pieces.drop_last()) + piece_frame(crate::text::opt_view(pieces.last()))
    }
}

/// The text that sends several pieces.
pub fn render_frames(pieces: &Vec<Option<String>>) -> (r: String)
    ensures
        r@ == piece_frames(pieces@),
{
    let mut out = String::new();
    let mut i: usize = 0;
    proof {
        assert(out@ =~= piece_frames(pieces@.take(0)));
    }
    while i < pieces.len()
        invariant
            i <= pieces@.len(),
            out@ == piece_frames(pieces@.take(i as int)),
        decreases pieces@.len() - i,
    {
        let ghost before = out@;
        proof {
            assert(pieces@.take(i + 1).drop_last() =~= pieces@.take(i as int));
        }
        match &pieces[i] {
            Some(json) => {
                out.append("data: ");
                out.append(json.as_str());
                out.append("\n\n");
                proof {
                    assert(out@ =~= before + ("data: "@ + json@ + "\n\n"@));
                }
            },
            None => {
                out.append("data: [DONE]\n\n");
            },
        }
        i = i + 1;
    }
    proof {
        assert(pieces@.take(pieces@.len() as int) =~= pieces@);
    }
    out
}

// ---- laws -------------------------------------------------------------

/// Two translations, one after the other.
pub open spec fn joined_translation(a: TranslationSpec, b: TranslationSpec) -> TranslationSpec {
    TranslationSpec {
        output: a.output + b.output,
        completed: a.completed || b.completed,
        saw_tool_call: a.saw_tool_call || b.saw_tool_call,
        saw_function_arg_delta: a.saw_function_arg_delta || b.saw_function_arg_delta,
    }
}

/// What was seen, after a chunk with the translation `t`.
pub open spec fn seen_after(seen: SeenSpec, t: TranslationSpec) -> SeenSpec {
    SeenSpec {
        tool_call: seen.tool_call || t.saw_tool_call,
        arg_delta: seen.arg_delta || t.saw_function_arg_delta,
        include_usage: seen.include_usage,
    }
}

/// A step on the second of two translations is a step on both.
proof fn lemma_step_joined(
    a: TranslationSpec,
    b: TranslationSpec,
    item: StreamItemSpec,
    frame: FrameSpec,
    seen: SeenSpec,
)
    ensures
        item_step(joined_translation(a, b), item, frame, seen) == joined_translation(
            a,
            item_step(b, item, frame, seen_after(seen, a)),
        ),
{
    let left = item_step(joined_translation(a, b), item, frame, seen);
    let right = joined_translation(a, item_step(b, item, frame, seen_after(seen, a)));
    assert(left.output =~= right.output);
    assert(left =~= right);
}

/// Where a stream is cut between two lines does not matter: what was seen in the
/// first part is carried over, and both parts together are translated as the
/// whole is.
pub proof fn law_translation_splits(
    first: Seq<StreamItemSpec>,
    second: Seq<StreamItemSpec>,
    frame: FrameSpec,
    seen: SeenSpec,
)
    ensures
        translation(first + second, frame, seen) == joined_translation(
            translation(first, frame, seen),
            translation(second, frame, seen_after(seen, translation(first, frame, seen))),
        ),
    decreases second.len(),
{
    let a = translation(first, frame, seen);
    if second.len() == 0 {
        assert(first + second =~= first);
        assert(joined_translation(a, empty_translation()) =~= a);
    } else {
        law_translation_splits(first, second.drop_last(), frame, seen);
        assert((first + second).drop_last() =~= first + second.drop_last());
        assert((first + second).last() == second.last());
        lemma_step_joined(
            a,
            translation(second.drop_last(), frame, seen_after(seen, a)),
            second.last(),
            frame,
            seen,
        );
    }
}

/// A chunk that is cut at the end of a line is translated as its two parts are,
/// one after the other, when what was seen in the first is carried over.
pub proof fn law_chunk_splits(a: Seq<u8>, b: Seq<u8>, frame: FrameSpec, seen: SeenSpec)
    requires
        a.len() == 0 || a.last() == LINE_FEED,
    ensures
        translation(chunk_items(a + b), frame, seen) == joined_translation(
            translation(chunk_items(a), frame, seen),
            translation(
                chunk_items(b),
                frame,
                seen_after(seen, translation(chunk_items(a), frame, seen)),
            ),
        ),
{
    law_lines_split(a, b);
    law_translation_splits(chunk_items(a), chunk_items(b), frame, seen);
}

/// A chunk of the upstream counts as the end of the reply exactly where the
/// client is sent the end mark for it.
pub proof fn law_completed_sends_end_mark(
    items: Seq<StreamItemSpec>,
    frame: FrameSpec,
    seen: SeenSpec,
)
    ensures
        translation(items, frame, seen).completed <==> translation(
            items,
            frame,
            seen,
        ).output.contains(PieceSpec::Done),
    decreases items.len(),
{
    if items.len() > 0 {
        law_completed_sends_end_mark(items.drop_last(), frame, seen);
        let t = translation(items.drop_last(), frame, seen);
        let next = item_step(t, items.last(), frame, seen);
        if t.completed {
            let i = choose|i: int| 0 <= i < t.output.len() && t.output[i] == PieceSpec::Done;
            assert(next.output[i] == PieceSpec::Done);
        }
        if next.completed && !t.completed {
            assert(next.output.last() == PieceSpec::Done);
            assert(next.output[next.output.len() - 1] == PieceSpec::Done);
        }
        if next.output.contains(PieceSpec::Done) && !next.completed {
            let i = choose|i: int| 0 <= i < next.output.len() && next.output[i] == PieceSpec::Done;
            assert(i < t.output.len());
            assert(t.output[i] == PieceSpec::Done);
        }
    }
}

/// The reply after several happenings.
pub open spec fn stream_after(s: ChatStreamSpec, hs: Seq<Happening>) -> ChatStreamSpec
    decreases hs.len(),
{
    if hs.len() == 0 {
        s
    } else {
        stream_after(s, hs.drop_last()).advance(hs.last()).0
    }
}

/// What is sent over several happenings.
pub open spec fn sent_over(s: ChatStreamSpec, hs: Seq<Happening>) -> Seq<Sent>
    decreases hs.len(),
{
    if hs.len() == 0 {
        seq![]
    } else {
        sent_over(s, hs.drop_last()).push(stream_after(s, hs.drop_last()).advance(hs.last()).1)
    }
}

/// Whether what was sent tells the client that the reply is over.
pub open spec fn tells_end(sent: Sent) -> bool {
    match sent {
        Sent::Pieces(p) => p.contains(PieceSpec::Done),
        Sent::Failure(_) => true,
        Sent::Closed => false,
    }
}

/// Whatever happens upstream, the reply counts as over exactly where the client
/// has been sent the end mark or a failure.
pub proof fn law_over_iff_told(
    id: Seq<char>,
    model: Seq<char>,
    include_usage: bool,
    hs: Seq<Happening>,
)
    ensures
        stream_after(ChatStreamSpec::fresh(id, model, include_usage), hs).over() <==> exists|i: int|
            0 <= i < hs.len() && tells_end(
                #[trigger] sent_over(ChatStreamSpec::fresh(id, model, include_usage), hs)[i],
            ),
        sent_over(ChatStreamSpec::fresh(id, model, include_usage), hs).len() == hs.len(),
    decreases hs.len(),
{
    let s = ChatStreamSpec::fresh(id, model, include_usage);
    if hs.len() > 0 {
        let front = hs.drop_last();
        law_over_iff_told(id, model, include_usage, front);
        let state = stream_after(s, front);
        let sent = sent_over(s, hs);
        match hs.last() {
            Happening::Chunk(bytes, created) => {
                law_completed_sends_end_mark(
                    chunk_items(whole_lines(state.pending + bytes)),
                    state.frame(created),
                    state.seen(),
                );
            },
            Happening::Failure(message) => {},
            Happening::End(created) => {
                law_completed_sends_end_mark(
                    chunk_items(state.pending),
                    state.frame(created),
                    state.seen(),
                );
                let t = state.translated(state.pending, created);
                let s = state.after(t).keeping(seq![]);
                let p = t.output + final_pieces(
                    s.frame(created),
                    None,
                    s.end_reason(),
                    s.include_usage,
                );
                assert(p[p.len() - 1] == PieceSpec::Done);
                assert(p.contains(PieceSpec::Done));
            },
        }
        assert(sent[hs.len() - 1] == state.advance(hs.last()).1);
        assert(forall|i: int| 0 <= i < front.len() ==> sent[i] == #[trigger] sent_over(s, front)[i]);
        if state.over() {
            let i = choose|i: int|
                0 <= i < front.len() && tells_end(#[trigger] sent_over(s, front)[i]);
            assert(tells_end(sent[i]));
        }
    }
}

/// Once the reply is over it stays so, and when the upstream's stream ends
/// nothing is sent but what is left of a line.
pub proof fn law_over_stays(s: ChatStreamSpec, h: Happening)
    requires
        s.over(),
    ensures
        s.advance(h).0.over(),
        h matches Happening::End(created) ==> s.advance(h).1 == if s.translated(
            s.pending,
            created,
        ).output.len() > 0 {
            Sent::Pieces(s.translated(s.pending, created).output)
        } else {
            Sent::Closed
        },
{
}

/// The end of the upstream's stream is answered once: when it is reported again,
/// nothing more is sent.
pub proof fn law_end_is_answered_once(s: ChatStreamSpec, created: u64, later: u64)
    ensures
        s.advance(Happening::End(created)).0.over(),
        s.advance(Happening::End(created)).0.advance(Happening::End(later)).1 == Sent::Closed,
{
    let next = s.advance(Happening::End(created)).0;
    assert(next.pending =~= seq![]);
    assert(chunk_items(next.pending) =~= seq![]);
}

/// The reply after several chunks.
pub open spec fn after_chunks(s: ChatStreamSpec, chunks: Seq<Seq<u8>>, created: u64) -> ChatStreamSpec
    decreases chunks.len(),
{
    if chunks.len() == 0 {
        s
    } else {
        after_chunks(s, chunks.drop_last(), created).advance(
            Happening::Chunk(chunks.last(), created),
        ).0
    }
}

/// The pieces of what is sent.
pub open spec fn sent_pieces(sent: Sent) -> Seq<PieceSpec> {
    match sent {
        Sent::Pieces(p) => p,
        _ => seq![],
    }
}

/// The pieces that are sent for several chunks, one after the other.
pub open spec fn chunk_pieces(s: ChatStreamSpec, chunks: Seq<Seq<u8>>, created: u64) -> Seq<
    PieceSpec,
>
    decreases chunks.len(),
{
    if chunks.len() == 0 {
        seq![]
    } else {
        let rest = chunks.drop_last();
        chunk_pieces(s, rest, created) + sent_pieces(
            after_chunks(s, rest, created).advance(Happening::Chunk(chunks.last(), created)).1,
        )
    }
}

/// All the pieces that are sent for a stream of several chunks and its end.
pub open spec fn stream_pieces(s: ChatStreamSpec, chunks: Seq<Seq<u8>>, created: u64) -> Seq<
    PieceSpec,
> {
    chunk_pieces(s, chunks, created) + sent_pieces(
        after_chunks(s, chunks, created).advance(Happening::End(created)).1,
    )
}

/// Several chunks are taken up as the complete lines of all of them.
proof fn lemma_chunks_as_one(
    id: Seq<char>,
    model: Seq<char>,
    include_usage: bool,
    chunks: Seq<Seq<u8>>,
    created: u64,
)
    ensures
        ({
            let s = ChatStreamSpec::fresh(id, model, include_usage);
            let t = s.translated(whole_lines(flat(chunks)), created);
            &&& after_chunks(s, chunks, created) == s.after(t).keeping(open_line(flat(chunks)))
            &&& chunk_pieces(s, chunks, created) == t.output
        }),
    decreases chunks.len(),
{
    let s = ChatStreamSpec::fresh(id, model, include_usage);
    let all = flat(chunks);
    if chunks.len() == 0 {
        assert(whole_lines(all) =~= seq![]);
        assert(open_line(all) =~= seq![]);
        assert(chunk_items(whole_lines(all)) =~= seq![]);
        assert(after_chunks(s, chunks, created) =~= s.after(empty_translation()).keeping(seq![]));
    } else {
        let front = chunks.drop_last();
        let before = flat(front);
        let last = chunks.last();
        lemma_chunks_as_one(id, model, include_usage, front, created);
        lemma_last_feed(before);
        lemma_whole_lines_cut(before, last);
        let t = s.translated(whole_lines(before), created);
        let mid = s.after(t).keeping(open_line(before));
        let more = whole_lines(open_line(before) + last);
        law_chunk_splits(whole_lines(before), more, s.frame(created), s.seen());
        let u = mid.translated(more, created);
        assert(mid.seen() == seen_after(s.seen(), t));
        assert(mid.frame(created) == s.frame(created));
        assert(s.translated(whole_lines(all), created) == joined_translation(t, u));
        assert(after_chunks(s, chunks, created) =~= s.after(joined_translation(t, u)).keeping(
            open_line(all),
        ));
    }
}

/// The pieces that a body is translated to, as a whole and with its end.
pub open spec fn body_pieces(s: ChatStreamSpec, body: Seq<u8>, created: u64) -> Seq<PieceSpec> {
    let t = s.translated(body, created);
    if t.completed {
        t.output
    } else {
        t.output + final_pieces(
            s.frame(created),
            None,
            s.after(t).end_reason(),
            s.include_usage,
        )
    }
}

/// Wherever the network cuts the upstream's stream, the client is sent what the
/// stream as a whole is translated to.
pub proof fn law_cuts_do_not_matter(
    id: Seq<char>,
    model: Seq<char>,
    include_usage: bool,
    chunks: Seq<Seq<u8>>,
    created: u64,
)
    ensures
        stream_pieces(ChatStreamSpec::fresh(id, model, include_usage), chunks, created)
            == body_pieces(
            ChatStreamSpec::fresh(id, model, include_usage),
            flat(chunks),
            created,
        ),
{
    let s = ChatStreamSpec::fresh(id, model, include_usage);
    let all = flat(chunks);
    lemma_chunks_as_one(id, model, include_usage, chunks, created);
    lemma_last_feed(all);
    let t = s.translated(whole_lines(all), created);
    let mid = s.after(t).keeping(open_line(all));
    law_chunk_splits(whole_lines(all), open_line(all), s.frame(created), s.seen());
    let u = mid.translated(open_line(all), created);
    assert(mid.seen() == seen_after(s.seen(), t));
    assert(mid.frame(created) == s.frame(created));
    assert(s.translated(all, created) == joined_translation(t, u));
    assert(stream_pieces(s, chunks, created) =~= body_pieces(s, all, created));
}

/// Two ways to cut the same bytes send the same pieces.
pub proof fn law_same_bytes_same_pieces(
    id: Seq<char>,
    model: Seq<char>,
    include_usage: bool,
    a: Seq<Seq<u8>>,
    b: Seq<Seq<u8>>,
    created: u64,
)
    requires
        flat(a) == flat(b),
    ensures
        stream_pieces(ChatStreamSpec::fresh(id, model, include_usage), a, created)
            == stream_pieces(ChatStreamSpec::fresh(id, model, include_usage), b, created),
{
    law_cuts_do_not_matter(id, model, include_usage, a, created);
    law_cuts_do_not_matter(id, model, include_usage, b, created);
}

/// The text that a piece adds to the message.
pub open spec fn piece_text(p: PieceSpec) -> Seq<char> {
    match p {
        PieceSpec::Chunk(c) => if c.choices.len() > 0 {
            match c.choices[0].delta.content {
                Some(t) => t,
                None => seq![],
            }
        } else {
            seq![]
        },
        PieceSpec::Done => seq![],
    }
}

/// The text that several pieces add to the message.
pub open spec fn pieces_text(ps: Seq<PieceSpec>) -> Seq<char>
    decreases ps.len(),
{
    if ps.len() == 0 {
        seq![]
    } else {
        pieces_text(ps.drop_last()) + piece_text(ps.last())
    }
}

/// The text deltas of several items, one after the other.
pub open spec fn item_deltas(items: Seq<StreamItemSpec>) -> Seq<char>
    decreases items.len(),
{
    if items.len() == 0 {
        seq![]
    } else {
        let rest = item_deltas(items.drop_last());
        match items.last() {
            StreamItemSpec::Event(e) => if e.str_or_empty("type"@) == "response.output_text.delta"@ {
                rest + e.str_or_empty("delta"@)
            } else {
                rest
            },
            StreamItemSpec::Done => rest,
        }
    }
}

/// One more piece adds its text.
proof fn lemma_pieces_text_push(ps: Seq<PieceSpec>, p: PieceSpec)
    ensures
        pieces_text(ps.push(p)) == pieces_text(ps) + piece_text(p),
{
    assert(ps.push(p).drop_last() =~= ps);
}

/// The pieces that end a reply add no text.
proof fn lemma_final_pieces_text(
    ps: Seq<PieceSpec>,
    frame: FrameSpec,
    usage: Option<JsonSpec>,
    reason: Seq<char>,
    include_usage: bool,
)
    ensures
        pieces_text(ps + final_pieces(frame, usage, reason, include_usage)) == pieces_text(ps),
{
    let finish = chunk_of(frame, empty_delta(), Some(reason));
    let count = usage_chunk_of(frame, usage);
    lemma_pieces_text_push(ps, finish);
    if include_usage {
        lemma_pieces_text_push(ps.push(finish), count);
        lemma_pieces_text_push(ps.push(finish).push(count), PieceSpec::Done);
        assert(ps + final_pieces(frame, usage, reason, include_usage) =~= ps.push(finish).push(
            count,
        ).push(PieceSpec::Done));
    } else {
        lemma_pieces_text_push(ps.push(finish), PieceSpec::Done);
        assert(ps + final_pieces(frame, usage, reason, include_usage) =~= ps.push(finish).push(
            PieceSpec::Done,
        ));
    }
    assert(pieces_text(ps) + seq![] =~= pieces_text(ps));
}

/// The text that the client is streamed is the text deltas of the upstream, one
/// after the other, with nothing left out and nothing added.
pub proof fn law_streamed_text_is_text_deltas(
    items: Seq<StreamItemSpec>,
    frame: FrameSpec,
    seen: SeenSpec,
)
    ensures
        pieces_text(translation(items, frame, seen).output) == item_deltas(items),
    decreases items.len(),
{
    if items.len() > 0 {
        law_streamed_text_is_text_deltas(items.drop_last(), frame, seen);
        let t = translation(items.drop_last(), frame, seen);
        let next = item_step(t, items.last(), frame, seen);
        assert(item_deltas(items.drop_last()) + seq![] =~= item_deltas(items.drop_last()));
        match items.last() {
            StreamItemSpec::Done => {
                lemma_pieces_text_push(t.output, PieceSpec::Done);
            },
            StreamItemSpec::Event(event) => {
                let kind = event.str_or_empty("type"@);
                reveal_strlit("response.output_text.delta");
                reveal_strlit("response.created");
                reveal_strlit("response.output_item.added");
                assert("response.output_text.delta"@.len() == 26);
                assert("response.created"@.len() == 16);
                assert("response.output_text.delta"@[16] == 't');
                assert("response.output_item.added"@[16] == 'i');
                if kind == "response.completed"@ || kind == "response.incomplete"@ {
                    lemma_final_pieces_text(
                        t.output,
                        frame,
                        event.get2("response"@, "usage"@),
                        if kind == "response.incomplete"@ {
                            "length"@
                        } else if seen.tool_call || t.saw_tool_call {
                            "tool_calls"@
                        } else {
                            "stop"@
                        },
                        seen.include_usage,
                    );
                    reveal_strlit("response.completed");
                    reveal_strlit("response.incomplete");
                    assert("response.completed"@.len() == 18);
                    assert("response.incomplete"@.len() == 19);
                }
                if next.output.len() == t.output.len() + 1 {
                    lemma_pieces_text_push(t.output, next.output.last());
                    assert(next.output =~= t.output.push(next.output.last()));
                }
            },
        }
    }
}

} // verus!
