//! What holds of chat completions as a whole: the events of the upstream on the one
//! side, and what the client gets on the other.

use vstd::prelude::*;

use crate::chat_collect::{call_index, completion_of, gathered, GatheredSpec};
use crate::chat_reply::{
    usage_of, ChatCompletionChunk, ChatCompletionResponse, DeltaSpec, ToolCallResponse,
    ToolCallSpec,
};
use crate::chat_stream::{
    final_pieces, law_completed_sends_end_mark, law_cuts_do_not_matter,
    law_streamed_text_is_text_deltas, piece_frames, pieces_text, stream_pieces, translation,
    ChatStreamSpec, FrameSpec, PieceSpec, SeenSpec,
};
use crate::json::JsonSpec;
use crate::json_codec::json_text;
use crate::sse::{chunk_items, StreamItemSpec};
use crate::text::opt_view;

verus! {

// ---- events -----------------------------------------------------------

/// The event is of this kind.
pub open spec fn is_kind(e: JsonSpec, kind: Seq<char>) -> bool {
    e.get("type"@) == Some(JsonSpec::Str(kind))
}

/// The text that a value has under a key, or the empty text.
pub open spec fn said(v: JsonSpec, key: Seq<char>) -> Seq<char> {
    match v.get(key) {
        Some(JsonSpec::Str(s)) => s,
        _ => seq![],
    }
}

/// The item of the event is a function call.
pub open spec fn has_call(e: JsonSpec) -> bool {
    e.get2("item"@, "type"@) == Some(JsonSpec::Str("function_call"@))
}

/// The text that the item of an event has under a key, or the empty text.
pub open spec fn item_said(e: JsonSpec, key: Seq<char>) -> Seq<char> {
    match e.get("item"@) {
        Some(item) => said(item, key),
        None => seq![],
    }
}

/// The identifier of the call that an event is about.
pub open spec fn call_id_said(e: JsonSpec) -> Seq<char> {
    match e.get2("item"@, "call_id"@) {
        Some(JsonSpec::Str(s)) => s,
        _ => item_said(e, "id"@),
    }
}

/// The event opens a call.
pub open spec fn opens_call(e: JsonSpec) -> bool {
    is_kind(e, "response.output_item.added"@) && has_call(e)
}

/// The event closes a call.
pub open spec fn closes_call(e: JsonSpec) -> bool {
    is_kind(e, "response.output_item.done"@) && has_call(e)
}

/// The event brings a part of the arguments of a call.
pub open spec fn brings_arguments(e: JsonSpec) -> bool {
    is_kind(e, "response.function_call_arguments.delta"@)
}

/// The event ends the reply.
pub open spec fn ends_reply(e: JsonSpec) -> bool {
    is_kind(e, "response.completed"@) || is_kind(e, "response.incomplete"@)
}

/// The event says something of the reply.
pub open spec fn tells(e: JsonSpec) -> bool {
    ||| is_kind(e, "response.created"@)
    ||| is_kind(e, "response.output_text.delta"@)
    ||| opens_call(e)
    ||| brings_arguments(e)
    ||| closes_call(e)
    ||| ends_reply(e)
}

/// The kinds of events differ from one another.
proof fn lemma_kinds()
    ensures
        seq![
            "response.created"@,
            "response.output_item.added"@,
            "response.output_text.delta"@,
            "response.function_call_arguments.delta"@,
            "response.output_item.done"@,
            "response.completed"@,
            "response.incomplete"@,
            Seq::<char>::empty(),
        ].no_duplicates(),
{
    reveal_strlit("response.created");
    reveal_strlit("response.output_item.added");
    reveal_strlit("response.output_text.delta");
    reveal_strlit("response.function_call_arguments.delta");
    reveal_strlit("response.output_item.done");
    reveal_strlit("response.completed");
    reveal_strlit("response.incomplete");
    assert("response.created"@.len() == 16);
    assert("response.output_item.added"@.len() == 26);
    assert("response.output_text.delta"@.len() == 26);
    assert("response.output_text.delta"@[16] != "response.output_item.added"@[16]);
    assert("response.function_call_arguments.delta"@.len() == 38);
    assert("response.output_item.done"@.len() == 25);
    assert("response.completed"@.len() == 18);
    assert("response.incomplete"@.len() == 19);
}

/// An event of one kind is of no other.
proof fn lemma_one_kind(e: JsonSpec)
    ensures
        opens_call(e) || closes_call(e) || brings_arguments(e) || ends_reply(e) || is_kind(
            e,
            "response.created"@,
        ) || is_kind(e, "response.output_text.delta"@) ==> e.str_or_empty("type"@) == said(
            e,
            "type"@,
        ),
        is_kind(e, "response.created"@) ==> !ends_reply(e) && !opens_call(e) && !closes_call(e)
            && !brings_arguments(e) && !is_kind(e, "response.output_text.delta"@),
        opens_call(e) ==> !closes_call(e) && !brings_arguments(e) && !ends_reply(e) && !is_kind(
            e,
            "response.output_text.delta"@,
        ),
        is_kind(e, "response.output_text.delta"@) ==> !closes_call(e) && !brings_arguments(e)
            && !ends_reply(e),
        brings_arguments(e) ==> !closes_call(e) && !ends_reply(e),
        closes_call(e) ==> !ends_reply(e),
        !(is_kind(e, "response.completed"@) && is_kind(e, "response.incomplete"@)),
{
    lemma_kinds();
    let kinds = seq![
        "response.created"@,
        "response.output_item.added"@,
        "response.output_text.delta"@,
        "response.function_call_arguments.delta"@,
        "response.output_item.done"@,
        "response.completed"@,
        "response.incomplete"@,
        Seq::<char>::empty(),
    ];
    assert(forall|i: int, j: int|
        0 <= i < 8 && 0 <= j < 8 && i != j ==> #[trigger] kinds[i] != #[trigger] kinds[j]);
    assert(kinds[0] == "response.created"@ && kinds[1] == "response.output_item.added"@ && kinds[2]
        == "response.output_text.delta"@ && kinds[3] == "response.function_call_arguments.delta"@
        && kinds[4] == "response.output_item.done"@ && kinds[5] == "response.completed"@ && kinds[6]
        == "response.incomplete"@);
}

// ---- streamed replies -------------------------------------------------

/// The event of an item of a stream, where it is one.
pub open spec fn event_in(item: StreamItemSpec) -> JsonSpec {
    match item {
        StreamItemSpec::Event(e) => e,
        StreamItemSpec::Done => JsonSpec::Null,
    }
}

/// A chunk of the reply with one choice and no usage.
pub open spec fn is_part(p: PieceSpec, frame: FrameSpec) -> bool {
    p matches PieceSpec::Chunk(c) && {
        &&& c.id == frame.id
        &&& c.model == frame.model
        &&& c.created == frame.created
        &&& c.object == "chat.completion.chunk"@
        &&& c.choices.len() == 1
        &&& c.choices[0].index == 0
        &&& c.usage is None
    }
}

/// What the one choice of a chunk adds.
pub open spec fn delta_in(p: PieceSpec) -> DeltaSpec {
    p->Chunk_0.choices[0].delta
}

/// Why the one choice of a chunk ends.
pub open spec fn reason_in(p: PieceSpec) -> Option<Seq<char>> {
    p->Chunk_0.choices[0].finish_reason
}

/// A chunk that adds to the one tool call and to nothing else.
pub open spec fn adds_to_call(
    p: PieceSpec,
    frame: FrameSpec,
    id: Option<Seq<char>>,
    name: Option<Seq<char>>,
    arguments: Seq<char>,
) -> bool {
    &&& is_part(p, frame)
    &&& reason_in(p) is None
    &&& delta_in(p).role is None
    &&& delta_in(p).content is None
    &&& delta_in(p).tool_calls matches Some(calls) && {
        &&& calls.len() == 1
        &&& calls[0].index == 0
        &&& calls[0].id == id
        &&& calls[0].call_type == Some("function"@)
        &&& calls[0].function matches Some(f) && f.name == name && f.arguments == Some(arguments)
    }
}

/// The translation of one more item.
proof fn lemma_translate_push(
    items: Seq<StreamItemSpec>,
    item: StreamItemSpec,
    frame: FrameSpec,
    seen: SeenSpec,
)
    ensures
        translation(items.push(item), frame, seen) == crate::chat_stream::item_step(
            translation(items, frame, seen),
            item,
            frame,
            seen,
        ),
{
    assert(items.push(item).drop_last() =~= items);
}

/// The sent pieces that one more event adds.
pub open spec fn added_by(
    items: Seq<StreamItemSpec>,
    e: JsonSpec,
    frame: FrameSpec,
    seen: SeenSpec,
) -> Seq<PieceSpec> {
    translation(items.push(StreamItemSpec::Event(e)), frame, seen).output.skip(
        translation(items, frame, seen).output.len() as int,
    )
}

/// Nothing that was sent is taken back, and an event that says nothing of the reply
/// sends nothing.
pub proof fn law_sent_pieces_stay(
    items: Seq<StreamItemSpec>,
    e: JsonSpec,
    frame: FrameSpec,
    seen: SeenSpec,
)
    ensures
        translation(items.push(StreamItemSpec::Event(e)), frame, seen).output == translation(
            items,
            frame,
            seen,
        ).output + added_by(items, e, frame, seen),
        !tells(e) ==> added_by(items, e, frame, seen).len() == 0,
{
    lemma_translate_push(items, StreamItemSpec::Event(e), frame, seen);
    lemma_kinds();
    let before = translation(items, frame, seen).output;
    let after = translation(items.push(StreamItemSpec::Event(e)), frame, seen).output;
    assert(after.take(before.len() as int) =~= before);
    assert(after =~= before + added_by(items, e, frame, seen));
}

/// The first event of a reply opens the message of the assistant, and each text delta
/// is sent as it is.
pub proof fn law_message_is_streamed(
    items: Seq<StreamItemSpec>,
    e: JsonSpec,
    frame: FrameSpec,
    seen: SeenSpec,
)
    ensures
        is_kind(e, "response.created"@) ==> {
            let added = added_by(items, e, frame, seen);
            &&& added.len() == 1
            &&& is_part(added[0], frame)
            &&& reason_in(added[0]) is None
            &&& delta_in(added[0]).role == Some("assistant"@)
            &&& delta_in(added[0]).content is None
            &&& delta_in(added[0]).tool_calls is None
        },
        is_kind(e, "response.output_text.delta"@) ==> {
            let added = added_by(items, e, frame, seen);
            &&& added.len() == 1
            &&& is_part(added[0], frame)
            &&& reason_in(added[0]) is None
            &&& delta_in(added[0]).role is None
            &&& delta_in(added[0]).content == Some(said(e, "delta"@))
            &&& delta_in(added[0]).tool_calls is None
        },
{
    lemma_translate_push(items, StreamItemSpec::Event(e), frame, seen);
    lemma_kinds();
    lemma_one_kind(e);
}

/// The call is streamed: its opening tells its identifier and its name, each part of
/// its arguments is sent as it is, and where no part came its end tells all of it.
pub proof fn law_calls_are_streamed(
    items: Seq<StreamItemSpec>,
    e: JsonSpec,
    frame: FrameSpec,
    seen: SeenSpec,
)
    ensures
        opens_call(e) ==> {
            let added = added_by(items, e, frame, seen);
            &&& added.len() == 1
            &&& adds_to_call(
                added[0],
                frame,
                Some(call_id_said(e)),
                Some(item_said(e, "name"@)),
                seq![],
            )
        },
        brings_arguments(e) ==> {
            let added = added_by(items, e, frame, seen);
            &&& added.len() == 1
            &&& adds_to_call(added[0], frame, None, None, said(e, "delta"@))
        },
        closes_call(e) ==> {
            let added = added_by(items, e, frame, seen);
            let came = seen.arg_delta || exists|i: int|
                0 <= i < items.len() && brings_arguments(event_in(#[trigger] items[i]));
            &&& came ==> added.len() == 0
            &&& !came ==> added.len() == 1 && adds_to_call(
                added[0],
                frame,
                Some(call_id_said(e)),
                Some(item_said(e, "name"@)),
                item_said(e, "arguments"@),
            )
        },
{
    lemma_translate_push(items, StreamItemSpec::Event(e), frame, seen);
    lemma_kinds();
    lemma_one_kind(e);
    law_what_a_chunk_was_seen_to_hold(items, frame, seen);
}

/// What is carried over to the next chunk: whether a call was spoken of, whether a
/// part of arguments came, and whether the reply ended.
pub proof fn law_what_a_chunk_was_seen_to_hold(
    items: Seq<StreamItemSpec>,
    frame: FrameSpec,
    seen: SeenSpec,
)
    ensures
        translation(items, frame, seen).saw_function_arg_delta <==> exists|i: int|
            0 <= i < items.len() && brings_arguments(event_in(#[trigger] items[i])),
        translation(items, frame, seen).saw_tool_call <==> exists|i: int|
            0 <= i < items.len() && speaks_of_call(event_in(#[trigger] items[i])),
        translation(items, frame, seen).completed <==> exists|i: int|
            0 <= i < items.len() && (#[trigger] items[i] is Done || ends_reply(event_in(items[i]))),
    decreases items.len(),
{
    if items.len() > 0 {
        let front = items.drop_last();
        law_what_a_chunk_was_seen_to_hold(front, frame, seen);
        lemma_kinds();
        let x = items.last();
        let e = event_in(x);
        lemma_one_kind(e);
        assert(items[items.len() - 1] == x);
        let t = translation(front, frame, seen);
        let n = translation(items, frame, seen);
        assert(n.saw_function_arg_delta == (t.saw_function_arg_delta || brings_arguments(e)));
        assert(n.saw_tool_call == (t.saw_tool_call || speaks_of_call(e)));
        assert(n.completed == (t.completed || x is Done || ends_reply(e)));
        assert forall|i: int| 0 <= i < front.len() implies #[trigger] front[i] == items[i] by {
        }
        if t.saw_function_arg_delta {
            let i = choose|i: int|
                0 <= i < front.len() && brings_arguments(event_in(#[trigger] front[i]));
            assert(brings_arguments(event_in(items[i])));
        }
        if t.saw_tool_call {
            let i = choose|i: int|
                0 <= i < front.len() && speaks_of_call(event_in(#[trigger] front[i]));
            assert(speaks_of_call(event_in(items[i])));
        }
        if t.completed {
            let i = choose|i: int|
                0 <= i < front.len() && (#[trigger] front[i] is Done || ends_reply(
                    event_in(front[i]),
                ));
            assert(items[i] is Done || ends_reply(event_in(items[i])));
        }
        if exists|i: int|
            0 <= i < items.len() && brings_arguments(event_in(#[trigger] items[i])) {
            let i = choose|i: int|
                0 <= i < items.len() && brings_arguments(event_in(#[trigger] items[i]));
            if i < front.len() {
                assert(brings_arguments(event_in(front[i])));
            }
        }
        if exists|i: int| 0 <= i < items.len() && speaks_of_call(event_in(#[trigger] items[i])) {
            let i = choose|i: int|
                0 <= i < items.len() && speaks_of_call(event_in(#[trigger] items[i]));
            if i < front.len() {
                assert(speaks_of_call(event_in(front[i])));
            }
        }
        if exists|i: int|
            0 <= i < items.len() && (#[trigger] items[i] is Done || ends_reply(
                event_in(items[i]),
            )) {
            let i = choose|i: int|
                0 <= i < items.len() && (#[trigger] items[i] is Done || ends_reply(
                    event_in(items[i]),
                ));
            if i < front.len() {
                assert(front[i] is Done || ends_reply(event_in(front[i])));
            }
        }
    }
}

/// The event speaks of a call.
pub open spec fn speaks_of_call(e: JsonSpec) -> bool {
    opens_call(e) || brings_arguments(e) || closes_call(e)
}

/// The reply is ended by a chunk that gives the reason, by the usage where the client
/// asked for it, and by the end mark.
pub proof fn law_end_of_a_streamed_reply(
    frame: FrameSpec,
    usage: Option<JsonSpec>,
    reason: Seq<char>,
    include_usage: bool,
)
    ensures
        ({
            let ps = final_pieces(frame, usage, reason, include_usage);
            &&& ps.len() == if include_usage { 3int } else { 2int }
            &&& is_part(ps[0], frame)
            &&& reason_in(ps[0]) == Some(reason)
            &&& delta_in(ps[0]).role is None
            &&& delta_in(ps[0]).content is None
            &&& delta_in(ps[0]).tool_calls is None
            &&& ps.last() == PieceSpec::Done
            &&& include_usage ==> (ps[1] matches PieceSpec::Chunk(c) && {
                &&& c.id == frame.id
                &&& c.model == frame.model
                &&& c.created == frame.created
                &&& c.object == "chat.completion.chunk"@
                &&& c.choices.len() == 0
                &&& usage is None ==> c.usage is None
                &&& usage matches Some(u) ==> (c.usage matches Some(n) && counts(
                    u,
                    n.prompt_tokens,
                    n.completion_tokens,
                    n.total_tokens,
                ))
            })
        }),
{
    match usage {
        Some(u) => {
            law_usage_counts(u);
        },
        None => {},
    }
}

/// A number that a value has under a key, or zero.
pub open spec fn counted(v: JsonSpec, key: Seq<char>) -> int {
    match v.get(key) {
        Some(JsonSpec::Number(crate::json::NumberSpec::Int(n))) => if 0 <= n <= u64::MAX {
            n
        } else {
            0
        },
        _ => 0,
    }
}

/// These are the counts that a usage gives, and their sum, which starts again at zero
/// where it is too large.
pub open spec fn counts(u: JsonSpec, prompt: u64, completion: u64, total: u64) -> bool {
    &&& prompt == counted(u, "input_tokens"@)
    &&& completion == counted(u, "output_tokens"@)
    &&& total == if prompt + completion <= u64::MAX {
        prompt + completion
    } else {
        prompt + completion - 0x1_0000_0000_0000_0000
    }
}

/// The usage that the client is told is that of the upstream: what went in, what came
/// out, and both together.
pub proof fn law_usage_counts(u: JsonSpec)
    ensures
        counts(
            u,
            usage_of(u).prompt_tokens,
            usage_of(u).completion_tokens,
            usage_of(u).total_tokens,
        ),
{
}

/// A reply that the upstream ends is ended: with `length` where it is incomplete, with
/// `tool_calls` where a call was spoken of, else with `stop`; the usage is that of the
/// upstream's response.
pub proof fn law_ended_reply_is_streamed(
    items: Seq<StreamItemSpec>,
    e: JsonSpec,
    frame: FrameSpec,
    seen: SeenSpec,
)
    requires
        ends_reply(e),
    ensures
        added_by(items, e, frame, seen) == final_pieces(
            frame,
            e.get2("response"@, "usage"@),
            if is_kind(e, "response.incomplete"@) {
                "length"@
            } else if seen.tool_call || exists|i: int|
                0 <= i < items.len() && speaks_of_call(event_in(#[trigger] items[i])) {
                "tool_calls"@
            } else {
                "stop"@
            },
            seen.include_usage,
        ),
        translation(items.push(StreamItemSpec::Event(e)), frame, seen).completed,
{
    lemma_translate_push(items, StreamItemSpec::Event(e), frame, seen);
    lemma_kinds();
    lemma_one_kind(e);
    law_what_a_chunk_was_seen_to_hold(items, frame, seen);
    let before = translation(items, frame, seen).output;
    let after = translation(items.push(StreamItemSpec::Event(e)), frame, seen).output;
    assert(added_by(items, e, frame, seen) =~= final_pieces(
        frame,
        e.get2("response"@, "usage"@),
        if is_kind(e, "response.incomplete"@) {
            "length"@
        } else if seen.tool_call || exists|i: int|
            0 <= i < items.len() && speaks_of_call(event_in(#[trigger] items[i])) {
            "tool_calls"@
        } else {
            "stop"@
        },
        seen.include_usage,
    ));
}

/// The end mark of the upstream is passed on.
pub proof fn law_end_mark_is_passed_on(
    items: Seq<StreamItemSpec>,
    frame: FrameSpec,
    seen: SeenSpec,
)
    ensures
        translation(items.push(StreamItemSpec::Done), frame, seen).output == translation(
            items,
            frame,
            seen,
        ).output.push(PieceSpec::Done),
{
    lemma_translate_push(items, StreamItemSpec::Done, frame, seen);
}

/// The arguments that a piece adds to a call.
pub open spec fn piece_arguments(p: PieceSpec) -> Seq<char> {
    match p {
        PieceSpec::Chunk(c) => if c.choices.len() > 0 {
            match c.choices[0].delta.tool_calls {
                Some(calls) => if calls.len() > 0 {
                    match calls[0].function {
                        Some(f) => match f.arguments {
                            Some(a) => a,
                            None => seq![],
                        },
                        None => seq![],
                    }
                } else {
                    seq![]
                },
                None => seq![],
            }
        } else {
            seq![]
        },
        PieceSpec::Done => seq![],
    }
}

/// The arguments that several pieces add, one after the other.
pub open spec fn pieces_arguments(ps: Seq<PieceSpec>) -> Seq<char>
    decreases ps.len(),
{
    if ps.len() == 0 {
        seq![]
    } else {
        pieces_arguments(ps.drop_last()) + piece_arguments(ps.last())
    }
}

/// The parts of arguments in several items, one after the other.
pub open spec fn argument_deltas(items: Seq<StreamItemSpec>) -> Seq<char>
    decreases items.len(),
{
    if items.len() == 0 {
        seq![]
    } else if brings_arguments(event_in(items.last())) {
        argument_deltas(items.drop_last()) + said(event_in(items.last()), "delta"@)
    } else {
        argument_deltas(items.drop_last())
    }
}

/// The arguments that the ends of calls in several items tell, one after the other.
pub open spec fn closed_arguments(items: Seq<StreamItemSpec>) -> Seq<char>
    decreases items.len(),
{
    if items.len() == 0 {
        seq![]
    } else if closes_call(event_in(items.last())) {
        closed_arguments(items.drop_last()) + item_said(event_in(items.last()), "arguments"@)
    } else {
        closed_arguments(items.drop_last())
    }
}

/// Pieces in two parts add the arguments of both.
proof fn lemma_pieces_arguments_add(a: Seq<PieceSpec>, b: Seq<PieceSpec>)
    ensures
        pieces_arguments(a + b) == pieces_arguments(a) + pieces_arguments(b),
    decreases b.len(),
{
    if b.len() == 0 {
        assert(a + b =~= a);
        assert(pieces_arguments(a) + seq![] =~= pieces_arguments(a));
    } else {
        lemma_pieces_arguments_add(a, b.drop_last());
        assert((a + b).drop_last() =~= a + b.drop_last());
        assert((a + b).last() == b.last());
        assert((pieces_arguments(a) + pieces_arguments(b.drop_last())) + piece_arguments(b.last())
            =~= pieces_arguments(a) + (pieces_arguments(b.drop_last()) + piece_arguments(b.last())));
    }
}

/// The arguments of one piece, or of the pieces that end a reply.
proof fn lemma_few_arguments(ps: Seq<PieceSpec>)
    ensures
        ps.len() == 0 ==> pieces_arguments(ps) == Seq::<char>::empty(),
        ps.len() == 1 ==> pieces_arguments(ps) == piece_arguments(ps[0]),
        (forall|i: int|
            0 <= i < ps.len() ==> piece_arguments(#[trigger] ps[i]) == Seq::<char>::empty())
            ==> pieces_arguments(ps) == Seq::<char>::empty(),
    decreases ps.len(),
{
    if ps.len() > 0 {
        let front = ps.drop_last();
        lemma_few_arguments(front);
        assert(forall|i: int| 0 <= i < front.len() ==> #[trigger] front[i] == ps[i]);
        assert(seq![] + piece_arguments(ps.last()) =~= piece_arguments(ps.last()));
        if forall|i: int|
            0 <= i < ps.len() ==> piece_arguments(#[trigger] ps[i]) == Seq::<char>::empty() {
            assert(piece_arguments(ps[ps.len() - 1]) == Seq::<char>::empty());
            assert(forall|i: int|
                0 <= i < front.len() ==> piece_arguments(#[trigger] front[i])
                    == Seq::<char>::empty());
        }
    }
}

/// What one more item adds to the streamed arguments.
proof fn lemma_arguments_step(
    items: Seq<StreamItemSpec>,
    item: StreamItemSpec,
    frame: FrameSpec,
    seen: SeenSpec,
)
    ensures
        ({
            let e = event_in(item);
            let before = pieces_arguments(translation(items, frame, seen).output);
            let after = pieces_arguments(translation(items.push(item), frame, seen).output);
            let came = seen.arg_delta || exists|i: int|
                0 <= i < items.len() && brings_arguments(event_in(#[trigger] items[i]));
            &&& brings_arguments(e) ==> after == before + said(e, "delta"@)
            &&& closes_call(e) && !came ==> after == before + item_said(e, "arguments"@)
            &&& closes_call(e) && came ==> after == before
            &&& !brings_arguments(e) && !closes_call(e) ==> after == before
        }),
{
    let e = event_in(item);
    let old_out = translation(items, frame, seen).output;
    assert(pieces_arguments(old_out) + seq![] =~= pieces_arguments(old_out));
    match item {
        StreamItemSpec::Done => {
            law_end_mark_is_passed_on(items, frame, seen);
            assert(old_out.push(PieceSpec::Done).drop_last() =~= old_out);
            assert(piece_arguments(PieceSpec::Done) =~= seq![]);
        },
        StreamItemSpec::Event(_) => {
            let added = added_by(items, e, frame, seen);
            law_sent_pieces_stay(items, e, frame, seen);
            law_message_is_streamed(items, e, frame, seen);
            law_calls_are_streamed(items, e, frame, seen);
            lemma_one_kind(e);
            lemma_pieces_arguments_add(old_out, added);
            lemma_few_arguments(added);
            if ends_reply(e) {
                law_ended_reply_is_streamed(items, e, frame, seen);
                assert(forall|i: int|
                    0 <= i < added.len() ==> piece_arguments(#[trigger] added[i])
                        =~= Seq::<char>::empty());
            }
        },
    }
}

/// The arguments that the client is streamed are the parts that the upstream sent, one
/// after the other, with nothing left out and nothing added. It is enough that no
/// call ends before the first part came.
pub proof fn law_streamed_arguments_are_argument_deltas(
    items: Seq<StreamItemSpec>,
    frame: FrameSpec,
    seen: SeenSpec,
)
    requires
        seen.arg_delta || forall|i: int|
            0 <= i < items.len() && closes_call(event_in(#[trigger] items[i])) ==> exists|j: int|
                0 <= j < i && brings_arguments(event_in(#[trigger] items[j])),
    ensures
        pieces_arguments(translation(items, frame, seen).output) == argument_deltas(items),
    decreases items.len(),
{
    if items.len() > 0 {
        let front = items.drop_last();
        assert forall|i: int|
            0 <= i < front.len() && closes_call(
                event_in(#[trigger] front[i]),
            ) && !seen.arg_delta implies exists|j: int|
            0 <= j < i && brings_arguments(event_in(#[trigger] front[j])) by {
            assert(front[i] == items[i]);
            let j = choose|j: int| 0 <= j < i && brings_arguments(event_in(#[trigger] items[j]));
            assert(front[j] == items[j]);
        }
        law_streamed_arguments_are_argument_deltas(front, frame, seen);
        assert(front.push(items.last()) =~= items);
        lemma_arguments_step(front, items.last(), frame, seen);
        lemma_one_kind(event_in(items.last()));
        if closes_call(event_in(items.last())) && !seen.arg_delta {
            assert(items[items.len() - 1] == items.last());
            let j = choose|j: int|
                0 <= j < items.len() - 1 && brings_arguments(event_in(#[trigger] items[j]));
            assert(brings_arguments(event_in(front[j])));
        }
    }
}

/// Where no part of arguments comes, the client is streamed the arguments that the
/// ends of the calls tell.
pub proof fn law_streamed_arguments_of_closed_calls(
    items: Seq<StreamItemSpec>,
    frame: FrameSpec,
    seen: SeenSpec,
)
    requires
        !seen.arg_delta,
        forall|i: int| 0 <= i < items.len() ==> !brings_arguments(event_in(#[trigger] items[i])),
    ensures
        pieces_arguments(translation(items, frame, seen).output) == closed_arguments(items),
    decreases items.len(),
{
    if items.len() > 0 {
        let front = items.drop_last();
        assert forall|i: int| 0 <= i < front.len() implies !brings_arguments(
            event_in(#[trigger] front[i]),
        ) by {
            assert(front[i] == items[i]);
        }
        law_streamed_arguments_of_closed_calls(front, frame, seen);
        assert(front.push(items.last()) =~= items);
        assert(items[items.len() - 1] == items.last());
        lemma_arguments_step(front, items.last(), frame, seen);
    }
}

/// Whether a part of arguments came among several items.
pub open spec fn part_came(items: Seq<StreamItemSpec>) -> bool {
    exists|i: int| 0 <= i < items.len() && brings_arguments(event_in(#[trigger] items[i]))
}

/// The arguments that the ends of calls tell before the first part of arguments comes.
pub open spec fn early_arguments(items: Seq<StreamItemSpec>) -> Seq<char>
    decreases items.len(),
{
    if items.len() == 0 {
        seq![]
    } else {
        let front = items.drop_last();
        let e = event_in(items.last());
        if closes_call(e) && !part_came(front) {
            early_arguments(front) + item_said(e, "arguments"@)
        } else {
            early_arguments(front)
        }
    }
}

/// Items without a part of arguments have no arguments in parts.
proof fn lemma_no_parts(items: Seq<StreamItemSpec>)
    requires
        !part_came(items),
    ensures
        argument_deltas(items) == Seq::<char>::empty(),
    decreases items.len(),
{
    if items.len() > 0 {
        let front = items.drop_last();
        assert(!part_came(front)) by {
            if part_came(front) {
                let i = choose|i: int|
                    0 <= i < front.len() && brings_arguments(event_in(#[trigger] front[i]));
                assert(brings_arguments(event_in(items[i])));
            }
        }
        assert(!brings_arguments(event_in(items[items.len() - 1])));
        lemma_no_parts(front);
    }
}

/// All that the client is streamed of arguments: what the calls tell that end before the
/// first part comes, then every part that the upstream sent, one after the other.
pub proof fn law_streamed_arguments(
    items: Seq<StreamItemSpec>,
    frame: FrameSpec,
    seen: SeenSpec,
)
    ensures
        pieces_arguments(translation(items, frame, seen).output) == if seen.arg_delta {
            argument_deltas(items)
        } else {
            early_arguments(items) + argument_deltas(items)
        },
    decreases items.len(),
{
    if items.len() > 0 {
        let front = items.drop_last();
        let e = event_in(items.last());
        law_streamed_arguments(front, frame, seen);
        assert(front.push(items.last()) =~= items);
        lemma_arguments_step(front, items.last(), frame, seen);
        lemma_one_kind(e);
        let early = early_arguments(front);
        if brings_arguments(e) {
            assert((early + argument_deltas(front)) + said(e, "delta"@) =~= early + (
            argument_deltas(front) + said(e, "delta"@)));
        }
        if closes_call(e) && !seen.arg_delta && !part_came(front) {
            lemma_no_parts(front);
            assert(early + Seq::<char>::empty() =~= early);
            assert(early_arguments(items) + Seq::<char>::empty() =~= early_arguments(items));
        }
    } else {
        assert(Seq::<char>::empty() + Seq::<char>::empty() =~= Seq::<char>::empty());
    }
}

/// Every chunk of a reply has the identifier, the model and the time of the reply.
proof fn lemma_framed(items: Seq<StreamItemSpec>, frame: FrameSpec, seen: SeenSpec)
    ensures
        forall|i: int|
            0 <= i < translation(items, frame, seen).output.len() ==> framed(
                #[trigger] translation(items, frame, seen).output[i],
                frame,
            ),
    decreases items.len(),
{
    if items.len() > 0 {
        lemma_framed(items.drop_last(), frame, seen);
        let t = translation(items.drop_last(), frame, seen).output;
        let n = translation(items, frame, seen).output;
        assert(forall|i: int| 0 <= i < t.len() ==> framed(#[trigger] t[i], frame));
        assert forall|i: int| 0 <= i < n.len() implies framed(#[trigger] n[i], frame) by {
            if i < t.len() {
                assert(n[i] == t[i]);
            }
        }
    }
}

/// A chunk of the reply, or the end mark.
pub open spec fn framed(p: PieceSpec, frame: FrameSpec) -> bool {
    match p {
        PieceSpec::Chunk(c) => {
            &&& c.id == frame.id
            &&& c.model == frame.model
            &&& c.created == frame.created
            &&& c.object == "chat.completion.chunk"@
        },
        PieceSpec::Done => true,
    }
}

/// The client of a stream gets the text deltas and the parts of arguments of all that
/// the upstream sent, in chunks that bear the identifier and the model of the reply,
/// and is told the end; wherever the network cuts the upstream's stream.
pub proof fn law_client_gets_what_was_streamed(
    id: Seq<char>,
    model: Seq<char>,
    include_usage: bool,
    chunks: Seq<Seq<u8>>,
    created: u64,
)
    ensures
        ({
            let items = chunk_items(crate::bytes::flat(chunks));
            let sent = stream_pieces(
                ChatStreamSpec::fresh(id, model, include_usage),
                chunks,
                created,
            );
            &&& pieces_text(sent) == crate::chat_stream::item_deltas(items)
            &&& (forall|i: int|
                0 <= i < items.len() && closes_call(
                    event_in(#[trigger] items[i]),
                ) ==> exists|j: int| 0 <= j < i && brings_arguments(event_in(#[trigger] items[j])))
                ==> pieces_arguments(sent) == argument_deltas(items)
            &&& forall|i: int|
                0 <= i < sent.len() ==> framed(
                    #[trigger] sent[i],
                    (FrameSpec { id, model, created }),
                )
            &&& sent.contains(PieceSpec::Done)
        }),
{
    let s = ChatStreamSpec::fresh(id, model, include_usage);
    let body = crate::bytes::flat(chunks);
    let items = chunk_items(body);
    let frame = FrameSpec { id, model, created };
    law_cuts_do_not_matter(id, model, include_usage, chunks, created);
    let sent = stream_pieces(s, chunks, created);
    let t = translation(items, s.frame(created), s.seen());
    law_streamed_text_is_text_deltas(items, frame, s.seen());
    lemma_framed(items, frame, s.seen());
    law_completed_sends_end_mark(items, frame, s.seen());
    assert forall|i: int| 0 <= i < t.output.len() implies framed(#[trigger] t.output[i], frame) by {
    }
    if forall|i: int|
        0 <= i < items.len() && closes_call(event_in(#[trigger] items[i])) ==> exists|j: int|
            0 <= j < i && brings_arguments(event_in(#[trigger] items[j])) {
        law_streamed_arguments_are_argument_deltas(items, frame, s.seen());
    }
    if !t.completed {
        let reason = s.after(t).end_reason();
        let last = final_pieces(frame, None, reason, include_usage);
        law_end_of_a_streamed_reply(frame, None, reason, include_usage);
        assert(sent == t.output + last);
        assert(sent[sent.len() - 1] == PieceSpec::Done);
        assert forall|i: int| 0 <= i < sent.len() implies framed(#[trigger] sent[i], frame) by {
            if i >= t.output.len() {
                assert(sent[i] == last[i - t.output.len()]);
            } else {
                assert(sent[i] == t.output[i]);
            }
        }
        lemma_pieces_arguments_add(t.output, last);
        lemma_few_arguments(last);
        assert(forall|i: int|
            0 <= i < last.len() ==> piece_arguments(#[trigger] last[i]) =~= Seq::<char>::empty());
        assert(pieces_arguments(t.output) + seq![] =~= pieces_arguments(t.output));
        lemma_end_adds_no_text(t.output, frame, reason, include_usage);
    }
}

/// The pieces that end a reply add no text.
proof fn lemma_end_adds_no_text(
    ps: Seq<PieceSpec>,
    frame: FrameSpec,
    reason: Seq<char>,
    include_usage: bool,
)
    ensures
        pieces_text(ps + final_pieces(frame, None, reason, include_usage)) == pieces_text(ps),
{
    let last = final_pieces(frame, None, reason, include_usage);
    let all = ps + last;
    assert(pieces_text(ps) + seq![] =~= pieces_text(ps));
    assert(all.drop_last().last() == last[last.len() - 2]);
    if include_usage {
        assert(all.drop_last().drop_last().drop_last() =~= ps);
        assert(all.drop_last().drop_last().last() == last[0]);
        assert(pieces_text(all.drop_last().drop_last()) == pieces_text(ps));
        assert(pieces_text(all.drop_last()) == pieces_text(ps));
    } else {
        assert(all.drop_last().drop_last() =~= ps);
        assert(pieces_text(all.drop_last()) == pieces_text(ps));
    }
    assert(all.last() == PieceSpec::Done);
}

/// A stream that just ends is ended with `tool_calls` where a call was spoken of, else
/// with `stop`, and without counts.
pub proof fn law_stream_that_just_ends(
    id: Seq<char>,
    model: Seq<char>,
    include_usage: bool,
    chunks: Seq<Seq<u8>>,
    created: u64,
)
    requires
        forall|i: int|
            0 <= i < chunk_items(crate::bytes::flat(chunks)).len() ==> !(#[trigger] chunk_items(
                crate::bytes::flat(chunks),
            )[i] is Done) && !ends_reply(event_in(chunk_items(crate::bytes::flat(chunks))[i])),
    ensures
        ({
            let items = chunk_items(crate::bytes::flat(chunks));
            let s = ChatStreamSpec::fresh(id, model, include_usage);
            let frame = FrameSpec { id, model, created };
            stream_pieces(s, chunks, created) == translation(items, frame, s.seen()).output
                + final_pieces(
                frame,
                None,
                if exists|i: int|
                    0 <= i < items.len() && speaks_of_call(event_in(#[trigger] items[i])) {
                    "tool_calls"@
                } else {
                    "stop"@
                },
                include_usage,
            )
        }),
{
    let s = ChatStreamSpec::fresh(id, model, include_usage);
    let items = chunk_items(crate::bytes::flat(chunks));
    let frame = FrameSpec { id, model, created };
    law_cuts_do_not_matter(id, model, include_usage, chunks, created);
    law_what_a_chunk_was_seen_to_hold(items, frame, s.seen());
    assert(s.frame(created) == frame);
}

/// The frames of a streamed reply: each piece is one event with its JSON text, and the
/// end mark is `[DONE]`.
pub proof fn law_pieces_are_framed(pieces: Seq<Option<String>>, piece: Option<String>)
    ensures
        piece_frames(Seq::empty()) == Seq::<char>::empty(),
        piece_frames(pieces.push(piece)) == piece_frames(pieces) + "data: "@ + (match piece {
            Some(json) => json@,
            None => "[DONE]"@,
        }) + "\n\n"@,
{
    assert(pieces.push(piece).drop_last() =~= pieces);
    reveal_strlit("data: ");
    reveal_strlit("\n\n");
    reveal_strlit("[DONE]");
    reveal_strlit("data: [DONE]\n\n");
    match piece {
        Some(json) => {
            assert(piece_frames(pieces) + ("data: "@ + json@ + "\n\n"@) =~= piece_frames(pieces)
                + "data: "@ + json@ + "\n\n"@);
        },
        None => {
            assert("data: [DONE]\n\n"@ =~= "data: "@ + "[DONE]"@ + "\n\n"@);
            assert(piece_frames(pieces) + ("data: "@ + "[DONE]"@ + "\n\n"@) =~= piece_frames(pieces)
                + "data: "@ + "[DONE]"@ + "\n\n"@);
        },
    }
}

/// A failure to read the upstream is sent as one event with an error that tells why.
pub proof fn law_failure_is_told(message: Seq<char>)
    ensures
        exists|v: JsonSpec|
            crate::chat_stream::failure_frame(message) == "data: "@ + #[trigger] json_text(v)
                + "\n\n"@ && v.get2("error"@, "message"@) == Some(
                JsonSpec::Str("Stream error: "@ + message),
            ),
{
    let v = crate::errors::error_of("Stream error: "@ + message);
    assert(crate::chat_stream::failure_frame(message) == "data: "@ + json_text(v) + "\n\n"@);
}

// ---- replies in one piece ---------------------------------------------

/// What is gathered from one more event.
proof fn lemma_gather_push(events: Seq<JsonSpec>, e: JsonSpec)
    ensures
        gathered(events.push(e)) == crate::chat_collect::gather_step(gathered(events), e),
{
    assert(events.push(e).drop_last() =~= events);
}

/// A call that the upstream opens is one more call of the reply, with its identifier,
/// its name and no arguments yet; those before it stay as they are.
pub proof fn law_opened_call_is_gathered(events: Seq<JsonSpec>, e: JsonSpec)
    requires
        opens_call(e),
    ensures
        ({
            let before = gathered(events).tool_calls;
            let after = gathered(events.push(e)).tool_calls;
            &&& after.len() == before.len() + 1
            &&& after.drop_last() == before
            &&& after.last().id == call_id_said(e)
            &&& after.last().call_type == "function"@
            &&& after.last().name == item_said(e, "name"@)
            &&& after.last().arguments == Seq::<char>::empty()
        }),
{
    lemma_gather_push(events, e);
    lemma_kinds();
    lemma_one_kind(e);
    let before = gathered(events).tool_calls;
    assert(gathered(events.push(e)).tool_calls.drop_last() =~= before);
}

/// A part of arguments goes to the end of the arguments of the call that was opened
/// last; all else of the calls stays as it is.
pub proof fn law_part_of_arguments_is_gathered(events: Seq<JsonSpec>, e: JsonSpec)
    requires
        brings_arguments(e),
    ensures
        ({
            let before = gathered(events).tool_calls;
            let after = gathered(events.push(e)).tool_calls;
            &&& after.len() == before.len()
            &&& before.len() > 0 ==> {
                &&& after.drop_last() == before.drop_last()
                &&& after.last().id == before.last().id
                &&& after.last().call_type == before.last().call_type
                &&& after.last().name == before.last().name
                &&& after.last().arguments == before.last().arguments + said(e, "delta"@)
            }
        }),
{
    lemma_gather_push(events, e);
    lemma_kinds();
    lemma_one_kind(e);
    let before = gathered(events).tool_calls;
    if before.len() > 0 {
        assert(gathered(events.push(e)).tool_calls.drop_last() =~= before.drop_last());
    }
}

/// The search for a call finds the first with the identifier.
proof fn lemma_call_index(calls: Seq<ToolCallSpec>, id: Seq<char>, from: int)
    requires
        0 <= from <= calls.len(),
    ensures
        from <= call_index(calls, id, from) <= calls.len(),
        forall|k: int| from <= k < call_index(calls, id, from) ==> (#[trigger] calls[k]).id != id,
        call_index(calls, id, from) < calls.len() ==> calls[call_index(calls, id, from)].id == id,
    decreases calls.len() - from,
{
    if from < calls.len() && calls[from].id != id {
        lemma_call_index(calls, id, from + 1);
    }
}

/// The end of a call gives the arguments to the first call with its identifier, where
/// that has none; all else of the calls stays as it is.
pub proof fn law_closed_call_is_gathered(events: Seq<JsonSpec>, e: JsonSpec, k: int)
    requires
        closes_call(e),
        0 <= k < gathered(events).tool_calls.len(),
    ensures
        ({
            let before = gathered(events).tool_calls;
            let after = gathered(events.push(e)).tool_calls;
            let is_meant = before[k].id == call_id_said(e) && forall|j: int|
                0 <= j < k ==> (#[trigger] before[j]).id != call_id_said(e);
            &&& after.len() == before.len()
            &&& after[k].id == before[k].id
            &&& after[k].call_type == before[k].call_type
            &&& after[k].name == before[k].name
            &&& after[k].arguments == if is_meant && before[k].arguments.len() == 0 {
                item_said(e, "arguments"@)
            } else {
                before[k].arguments
            }
        }),
{
    lemma_gather_push(events, e);
    lemma_kinds();
    lemma_one_kind(e);
    lemma_call_index(gathered(events).tool_calls, call_id_said(e), 0);
}

/// Other events leave the calls as they are.
pub proof fn law_other_events_leave_the_calls(events: Seq<JsonSpec>, e: JsonSpec)
    requires
        !speaks_of_call(e),
    ensures
        gathered(events.push(e)).tool_calls == gathered(events).tool_calls,
{
    lemma_gather_push(events, e);
    lemma_kinds();
}

/// The parts of arguments in several events, one after the other.
pub open spec fn argument_parts(events: Seq<JsonSpec>) -> Seq<char>
    decreases events.len(),
{
    if events.len() == 0 {
        seq![]
    } else if brings_arguments(events.last()) {
        argument_parts(events.drop_last()) + said(events.last(), "delta"@)
    } else {
        argument_parts(events.drop_last())
    }
}

/// The arguments of a call are the parts that came since it was opened, in the order
/// in which they came: whatever came before, and as long as no other call is opened
/// and no call ends.
pub proof fn law_arguments_are_the_parts_since_the_call(
    before: Seq<JsonSpec>,
    opening: JsonSpec,
    since: Seq<JsonSpec>,
)
    requires
        opens_call(opening),
        forall|i: int|
            0 <= i < since.len() ==> !opens_call(#[trigger] since[i]) && !closes_call(since[i]),
    ensures
        ({
            let calls = gathered(before.push(opening) + since).tool_calls;
            &&& calls.len() == gathered(before).tool_calls.len() + 1
            &&& calls.drop_last() == gathered(before).tool_calls
            &&& calls.last().id == call_id_said(opening)
            &&& calls.last().name == item_said(opening, "name"@)
            &&& calls.last().arguments == argument_parts(since)
        }),
    decreases since.len(),
{
    let start = before.push(opening);
    law_opened_call_is_gathered(before, opening);
    if since.len() == 0 {
        assert(start + since =~= start);
    } else {
        let front = since.drop_last();
        let e = since.last();
        assert forall|i: int| 0 <= i < front.len() implies !opens_call(#[trigger] front[i])
            && !closes_call(front[i]) by {
            assert(front[i] == since[i]);
        }
        law_arguments_are_the_parts_since_the_call(before, opening, front);
        assert(start + since =~= (start + front).push(e));
        assert(since[since.len() - 1] == e);
        if brings_arguments(e) {
            law_part_of_arguments_is_gathered(start + front, e);
        } else {
            law_other_events_leave_the_calls(start + front, e);
        }
    }
}

/// The arguments of the call that was opened last are the parts that came since, in the
/// order in which they came, though calls end meanwhile: the end of a call counts only
/// where it is about this call and no part came before it.
pub proof fn law_arguments_of_the_last_call(
    before: Seq<JsonSpec>,
    opening: JsonSpec,
    since: Seq<JsonSpec>,
)
    requires
        opens_call(opening),
        forall|i: int| 0 <= i < since.len() ==> !opens_call(#[trigger] since[i]),
        forall|i: int|
            0 <= i < since.len() && closes_call(#[trigger] since[i]) ==> argument_parts(
                since.take(i),
            ).len() > 0 || call_id_said(since[i]) != call_id_said(opening),
    ensures
        ({
            let calls = gathered(before.push(opening) + since).tool_calls;
            &&& calls.len() == gathered(before).tool_calls.len() + 1
            &&& calls.last().id == call_id_said(opening)
            &&& calls.last().call_type == "function"@
            &&& calls.last().name == item_said(opening, "name"@)
            &&& calls.last().arguments == argument_parts(since)
        }),
    decreases since.len(),
{
    let start = before.push(opening);
    law_opened_call_is_gathered(before, opening);
    if since.len() == 0 {
        assert(start + since =~= start);
    } else {
        let front = since.drop_last();
        let e = since.last();
        assert forall|i: int| 0 <= i < front.len() implies !opens_call(#[trigger] front[i]) by {
            assert(front[i] == since[i]);
        }
        assert forall|i: int| 0 <= i < front.len() && closes_call(#[trigger] front[i]) implies
            argument_parts(front.take(i)).len() > 0 || call_id_said(front[i]) != call_id_said(
            opening,
        ) by {
            assert(front[i] == since[i]);
            assert(front.take(i) =~= since.take(i));
        }
        law_arguments_of_the_last_call(before, opening, front);
        assert(start + since =~= (start + front).push(e));
        assert(since[since.len() - 1] == e);
        lemma_one_kind(e);
        if brings_arguments(e) {
            law_part_of_arguments_is_gathered(start + front, e);
        } else if closes_call(e) {
            assert(since.take(since.len() - 1) =~= front);
            law_closed_call_is_gathered(
                start + front,
                e,
                gathered(start + front).tool_calls.len() - 1,
            );
        } else {
            law_other_events_leave_the_calls(start + front, e);
        }
    }
}

/// The end of a call whose arguments came in parts changes nothing: they stay the
/// parts, in their order.
pub proof fn law_end_of_a_call_keeps_its_parts(events: Seq<JsonSpec>, e: JsonSpec, k: int)
    requires
        closes_call(e),
        0 <= k < gathered(events).tool_calls.len(),
        gathered(events).tool_calls[k].arguments.len() > 0,
    ensures
        gathered(events.push(e)).tool_calls[k] == gathered(events).tool_calls[k],
{
    law_closed_call_is_gathered(events, e, k);
}

/// The text grows by each text delta and by nothing else.
pub proof fn law_text_is_gathered(events: Seq<JsonSpec>, e: JsonSpec)
    ensures
        gathered(Seq::empty()).content == Seq::<char>::empty(),
        is_kind(e, "response.output_text.delta"@) ==> gathered(events.push(e)).content == gathered(
            events,
        ).content + said(e, "delta"@),
        !is_kind(e, "response.output_text.delta"@) ==> gathered(events.push(e)).content == gathered(
            events,
        ).content,
{
    lemma_gather_push(events, e);
    lemma_kinds();
}

/// Why the reply ends: `length` where it is incomplete, else `tool_calls` where it has
/// calls, else `stop`; and before the upstream tells, `stop`.
pub proof fn law_reason_is_gathered(events: Seq<JsonSpec>, e: JsonSpec)
    ensures
        gathered(Seq::empty()).finish_reason == "stop"@,
        is_kind(e, "response.completed"@) ==> gathered(events.push(e)).finish_reason == if gathered(
            events,
        ).tool_calls.len() > 0 {
            "tool_calls"@
        } else {
            "stop"@
        },
        is_kind(e, "response.incomplete"@) ==> gathered(events.push(e)).finish_reason == "length"@,
        !ends_reply(e) ==> gathered(events.push(e)).finish_reason == gathered(events).finish_reason,
{
    lemma_gather_push(events, e);
    lemma_kinds();
    lemma_one_kind(e);
}

/// The usage is that of the last completed response that has one.
pub proof fn law_usage_is_gathered(events: Seq<JsonSpec>, e: JsonSpec)
    ensures
        gathered(Seq::empty()).usage is None,
        is_kind(e, "response.completed"@) && e.get2("response"@, "usage"@) is Some ==> (gathered(
            events.push(e),
        ).usage matches Some(n) && counts(
            e.get2("response"@, "usage"@)->0,
            n.prompt_tokens,
            n.completion_tokens,
            n.total_tokens,
        )),
        !(is_kind(e, "response.completed"@) && e.get2("response"@, "usage"@) is Some) ==> gathered(
            events.push(e),
        ).usage == gathered(events).usage,
{
    lemma_gather_push(events, e);
    lemma_kinds();
    lemma_one_kind(e);
    match e.get2("response"@, "usage"@) {
        Some(u) => {
            law_usage_counts(u);
        },
        None => {},
    }
}

/// The reply says what was gathered, and what it was asked to be called.
pub proof fn law_reply_says_what_was_gathered(
    g: GatheredSpec,
    id: Seq<char>,
    model: Seq<char>,
    created: u64,
)
    ensures
        ({
            let r = completion_of(g, id, model, created);
            &&& r.id == id
            &&& r.model == model
            &&& r.created == created
            &&& r.object == "chat.completion"@
            &&& r.choices.len() == 1
            &&& r.choices[0].index == 0
            &&& r.choices[0].role == "assistant"@
            &&& r.choices[0].finish_reason == g.finish_reason
            &&& g.content.len() > 0 ==> r.choices[0].content == Some(g.content)
            &&& g.content.len() == 0 ==> r.choices[0].content is None
            &&& g.tool_calls.len() > 0 ==> r.choices[0].tool_calls == Some(g.tool_calls)
            &&& g.tool_calls.len() == 0 ==> r.choices[0].tool_calls is None
            &&& g.usage matches Some(u) ==> r.usage == u
            &&& g.usage is None ==> r.usage.prompt_tokens == 0 && r.usage.completion_tokens == 0
                && r.usage.total_tokens == 0
        }),
{
}

// ---- what the replies hold --------------------------------------------

/// The model of a tool call holds its fields.
pub proof fn law_tool_call_is_modelled(c: ToolCallResponse)
    ensures
        c@.id == c.id@,
        c@.call_type == c.call_type@,
        c@.name == c.function.name@,
        c@.arguments == c.function.arguments@,
{
}

/// The model of a reply holds its fields.
pub proof fn law_reply_is_modelled(r: ChatCompletionResponse, i: int)
    ensures
        r@.id == r.id@,
        r@.object == r.object@,
        r@.created == r.created,
        r@.model == r.model@,
        r@.usage == r.usage,
        r@.choices.len() == r.choices@.len(),
        0 <= i < r.choices@.len() ==> {
            let c = r.choices@[i];
            let s = r@.choices[i];
            &&& s.index == c.index
            &&& s.finish_reason == c.finish_reason@
            &&& s.role == c.message.role@
            &&& s.content == opt_view(c.message.content)
            &&& s.tool_calls is Some == c.message.tool_calls is Some
            &&& c.message.tool_calls matches Some(v) ==> {
                &&& s.tool_calls->0.len() == v@.len()
                &&& forall|k: int| 0 <= k < v@.len() ==> s.tool_calls->0[k] == (#[trigger] v@[k])@
            }
        },
{
}

/// The model of a chunk holds its fields.
pub proof fn law_chunk_is_modelled(r: ChatCompletionChunk, i: int, k: int)
    ensures
        r@.id == r.id@,
        r@.object == r.object@,
        r@.created == r.created,
        r@.model == r.model@,
        r@.usage == r.usage,
        r@.choices.len() == r.choices@.len(),
        0 <= i < r.choices@.len() ==> {
            let c = r.choices@[i];
            let s = r@.choices[i];
            &&& s.index == c.index
            &&& s.finish_reason == opt_view(c.finish_reason)
            &&& s.delta.role == opt_view(c.delta.role)
            &&& s.delta.content == opt_view(c.delta.content)
            &&& s.delta.tool_calls is Some == c.delta.tool_calls is Some
            &&& c.delta.tool_calls matches Some(v) ==> s.delta.tool_calls->0.len() == v@.len() && (0
                <= k < v@.len() ==> {
                let t = v@[k];
                let u = s.delta.tool_calls->0[k];
                &&& u.index == t.index
                &&& u.id == opt_view(t.id)
                &&& u.call_type == opt_view(t.call_type)
                &&& u.function is Some == t.function is Some
                &&& t.function matches Some(f) ==> u.function->0.name == opt_view(f.name)
                    && u.function->0.arguments == opt_view(f.arguments)
            })
        },
{
}

} // verus!
