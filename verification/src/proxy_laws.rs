//! What holds of the Responses endpoint as a whole: the events of the upstream on the
//! one side, and what the client gets on the other.

use vstd::prelude::*;
use vstd::utf8::{encode_utf8, encode_utf8_decode_utf8, encode_utf8_valid_utf8};

use crate::bytes::{byte_lines, crlf_blank, flat, lf_blank};
use crate::json::JsonSpec;
use crate::json_codec::{json_parse, json_text};
use crate::proxy::{
    collected_response, finished_items, frame_cut, frame_line_event, frames_of,
    items_after_frames, items_after_lines, last_response, law_back_cuts_do_not_matter,
    lemma_frame_cut, line_end, passed_event, passed_line, passed_lines, rest_of, sent_back,
    stream_requested,
};
use crate::text::{after_prefix, lemma_find_from, occurs_at, trim, utf8_lossy};

verus! {

// ---- events -----------------------------------------------------------

/// The event finishes an item of the output.
pub open spec fn finishes_item(e: JsonSpec) -> bool {
    &&& e.get("type"@) == Some(JsonSpec::Str("response.output_item.done"@))
    &&& e.get("item"@) is Some
}

/// The items that several events finish, in the order of the events.
pub open spec fn items_told(events: Seq<JsonSpec>) -> Seq<JsonSpec> {
    events.filter(|e: JsonSpec| finishes_item(e)).map_values(|e: JsonSpec| e.get("item"@)->0)
}

/// The event completes a response whose output is missing, is no list, or is empty.
pub open spec fn completes_without_output(e: JsonSpec) -> bool {
    &&& e.get("type"@) == Some(JsonSpec::Str("response.completed"@))
    &&& e.get("response"@) matches Some(JsonSpec::Object(_))
    &&& match e.get2("response"@, "output"@) {
        Some(JsonSpec::Array(v)) => v.len() == 0,
        _ => true,
    }
}

/// Two values are the same but for what they have under a key.
pub open spec fn same_but_for(a: JsonSpec, b: JsonSpec, key: Seq<char>) -> bool {
    &&& a is Object
    &&& b is Object
    &&& forall|k: Seq<char>| k != key ==> #[trigger] a.get(k) == b.get(k)
}

/// The types of events differ from one another.
proof fn lemma_types()
    ensures
        "response.output_item.done"@ != "response.completed"@,
{
    reveal_strlit("response.output_item.done");
    reveal_strlit("response.completed");
    assert("response.output_item.done"@.len() == 25);
    assert("response.completed"@.len() == 18);
}

/// One more event tells its item, where it finishes one.
proof fn lemma_items_told_push(events: Seq<JsonSpec>, e: JsonSpec)
    ensures
        items_told(Seq::empty()) == Seq::<JsonSpec>::empty(),
        finishes_item(e) ==> items_told(events.push(e)) == items_told(events).push(
            e.get("item"@)->0,
        ),
        !finishes_item(e) ==> items_told(events.push(e)) == items_told(events),
{
    reveal(Seq::filter);
    let p = |e: JsonSpec| finishes_item(e);
    assert(events.push(e).drop_last() =~= events);
    assert(Seq::<JsonSpec>::empty().filter(p) =~= Seq::empty());
    assert(items_told(Seq::empty()) =~= Seq::<JsonSpec>::empty());
    if finishes_item(e) {
        assert(events.push(e).filter(p) =~= events.filter(p).push(e));
        assert(items_told(events.push(e)) =~= items_told(events).push(e.get("item"@)->0));
    } else {
        assert(events.push(e).filter(p) =~= events.filter(p));
    }
}

/// What several events finish is told in two parts as in one.
proof fn lemma_items_told_add(a: Seq<JsonSpec>, b: Seq<JsonSpec>)
    ensures
        items_told(a + b) == items_told(a) + items_told(b),
    decreases b.len(),
{
    if b.len() == 0 {
        assert(a + b =~= a);
        lemma_items_told_push(a, JsonSpec::Null);
        assert(b =~= Seq::empty());
        assert(items_told(a) + items_told(b) =~= items_told(a));
    } else {
        let front = b.drop_last();
        lemma_items_told_add(a, front);
        assert(a + b =~= (a + front).push(b.last()));
        assert(b =~= front.push(b.last()));
        lemma_items_told_push(a + front, b.last());
        lemma_items_told_push(front, b.last());
        assert(items_told(a + b) =~= items_told(a) + items_told(b));
    }
}

// ---- the response in one piece ----------------------------------------

/// The items that are gathered are those of the events that finish one: each of them,
/// once, and in the order of the events.
pub proof fn law_every_finished_item_is_gathered(events: Seq<JsonSpec>)
    ensures
        finished_items(events) == items_told(events),
    decreases events.len(),
{
    if events.len() == 0 {
        lemma_items_told_push(events, JsonSpec::Null);
        assert(events =~= Seq::empty());
    } else {
        let front = events.drop_last();
        law_every_finished_item_is_gathered(front);
        assert(front.push(events.last()) =~= events);
        lemma_items_told_push(front, events.last());
    }
}

/// Items that are gathered in two turns are those of the first, then those of the
/// second, and as many as there are events that finish one.
pub proof fn law_finished_items_add_up(a: Seq<JsonSpec>, b: Seq<JsonSpec>)
    ensures
        finished_items(a + b) == finished_items(a) + finished_items(b),
        finished_items(a).len() == a.filter(|e: JsonSpec| finishes_item(e)).len(),
{
    law_every_finished_item_is_gathered(a);
    law_every_finished_item_is_gathered(b);
    law_every_finished_item_is_gathered(a + b);
    lemma_items_told_add(a, b);
}

/// The response of a stream is that of the last event which carries one.
pub proof fn law_last_response_counts(events: Seq<JsonSpec>, e: JsonSpec)
    ensures
        last_response(Seq::empty()) is None,
        e.get("response"@) matches Some(r) ==> last_response(events.push(e)) == Some(r),
        e.get("response"@) is None ==> last_response(events.push(e)) == last_response(events),
{
    assert(events.push(e).drop_last() =~= events);
}

/// Whether the answer is this response, with the finished items of the events as its
/// output where it has none of its own.
pub open spec fn answers_with(answer: JsonSpec, resp: JsonSpec, items: Seq<JsonSpec>) -> bool {
    let lacks = resp is Object && match resp.get("output"@) {
        Some(JsonSpec::Array(v)) => v.len() == 0,
        _ => true,
    };
    if lacks && items.len() > 0 {
        &&& answer.get("output"@) == Some(JsonSpec::Array(items))
        &&& same_but_for(answer, resp, "output"@)
    } else {
        answer == resp
    }
}

/// The client that asked for the response in one piece gets the upstream's last
/// response, with every item that was finished as its output where it has none; and an
/// error where there was no response.
pub proof fn law_collected_response_has_every_item(events: Seq<JsonSpec>)
    ensures
        last_response(events) matches Some(resp) ==> answers_with(
            collected_response(events),
            resp,
            items_told(events),
        ),
        last_response(events) is None ==> collected_response(events).get2("error"@, "message"@)
            == Some(JsonSpec::Str("Upstream did not return a response"@)),
{
    law_every_finished_item_is_gathered(events);
    reveal_strlit("error");
    reveal_strlit("message");
}

/// The client asked to stream exactly where the request says so.
pub proof fn law_stream_is_asked_for(v: JsonSpec)
    ensures
        stream_requested(v) <==> v.get("stream"@) == Some(JsonSpec::Bool(true)),
{
}

// ---- the stream on its way back ---------------------------------------

/// The events on several lines.
pub open spec fn line_events(ls: Seq<Seq<u8>>) -> Seq<JsonSpec>
    decreases ls.len(),
{
    if ls.len() == 0 {
        seq![]
    } else {
        match frame_line_event(ls.last()) {
            Some(e) => line_events(ls.drop_last()).push(e),
            None => line_events(ls.drop_last()),
        }
    }
}

/// What a line carries: the JSON value after `data: `, but for the end mark.
pub proof fn law_data_line_is_read(text: Seq<char>, line: Seq<u8>)
    ensures
        trim(text) != "[DONE]"@ ==> frame_line_event(encode_utf8("data: "@ + text)) == json_parse(
            trim(text),
        ),
        trim(text) == "[DONE]"@ ==> frame_line_event(encode_utf8("data: "@ + text)) is None,
        !(utf8_lossy(line).len() >= 6 && utf8_lossy(line).take(6) == seq![
            'd',
            'a',
            't',
            'a',
            ':',
            ' ',
        ]) ==> frame_line_event(line) is None,
{
    let whole = "data: "@ + text;
    encode_utf8_valid_utf8(whole);
    encode_utf8_decode_utf8(whole);
    reveal_strlit("data: ");
    assert("data: "@ =~= seq!['d', 'a', 't', 'a', ':', ' ']);
    assert(whole.take(6) =~= "data: "@);
    assert(whole.skip(6) =~= text);
    assert(after_prefix(whole, "data: "@) == Some(text));
}

/// The items that were seen are those of the events that finish one, after those that
/// were seen before: each of them, once, and in the order of the events.
pub proof fn law_every_finished_item_is_seen(ls: Seq<Seq<u8>>, items: Seq<JsonSpec>)
    ensures
        items_after_lines(ls, items) == items + items_told(line_events(ls)),
    decreases ls.len(),
{
    if ls.len() == 0 {
        lemma_items_told_push(Seq::empty(), JsonSpec::Null);
        assert(items + Seq::<JsonSpec>::empty() =~= items);
    } else {
        let front = ls.drop_last();
        law_every_finished_item_is_seen(front, items);
        match frame_line_event(ls.last()) {
            Some(e) => {
                lemma_items_told_push(line_events(front), e);
                assert(items_after_lines(ls, items) =~= items + items_told(line_events(ls)));
            },
            None => {},
        }
    }
}

/// Bytes that hold no blank line are no frame.
proof fn lemma_no_frame(s: Seq<u8>)
    ensures
        frame_cut(rest_of(s)) is None,
    decreases s.len(),
{
    match frame_cut(s) {
        Some((f, p)) => {
            lemma_frame_cut(s);
            lemma_no_frame(s.skip(f + p));
        },
        None => {},
    }
}

/// A frame is passed on as soon as its blank line came: what waits holds none. And
/// nothing is lost or added: the frames and what waits are the bytes that came.
pub proof fn law_complete_frames_do_not_wait(s: Seq<u8>, i: int)
    ensures
        !occurs_at(rest_of(s), lf_blank(), i),
        !occurs_at(rest_of(s), crlf_blank(), i),
        flat(frames_of(s)) + rest_of(s) == s,
{
    lemma_no_frame(s);
    lemma_find_from(rest_of(s), lf_blank(), 0);
    lemma_find_from(rest_of(s), crlf_blank(), 0);
    lemma_frames_flat(s);
}

/// The frames of bytes and what follows them are the bytes.
proof fn lemma_frames_flat(s: Seq<u8>)
    ensures
        flat(frames_of(s)) + rest_of(s) == s,
    decreases s.len(),
{
    match frame_cut(s) {
        Some((f, p)) => {
            lemma_frame_cut(s);
            let tail = s.skip(f + p);
            lemma_frames_flat(tail);
            let one = seq![s.take(f + p)];
            crate::bytes::lemma_flat_add(one, frames_of(tail));
            crate::bytes::lemma_flat_one(s.take(f + p));
            assert(flat(frames_of(s)) + rest_of(s) =~= s.take(f + p) + (flat(frames_of(tail))
                + rest_of(tail)));
            assert(s.take(f + p) + tail =~= s);
        },
        None => {
            assert(flat(frames_of(s)) + rest_of(s) =~= s);
        },
    }
}

/// The end of a line is all its line feeds and carriage returns at the end, and
/// nothing else.
pub proof fn law_line_end(line: Seq<u8>)
    ensures
        line_end(line).len() <= line.len(),
        line_end(line) == line.skip(line.len() - line_end(line).len()),
        forall|i: int|
            0 <= i < line_end(line).len() ==> #[trigger] line_end(line)[i] == 10 || line_end(
                line,
            )[i] == 13,
        line_end(line).len() < line.len() ==> ({
            let b = line[line.len() - line_end(line).len() - 1];
            b != 10 && b != 13
        }),
    decreases line.len(),
{
    if line.len() > 0 && (line.last() == 10 || line.last() == 13) {
        law_line_end(line.drop_last());
        let n = line_end(line.drop_last()).len();
        assert(line_end(line) =~= line.skip(line.len() - n - 1));
    } else {
        assert(line.skip(line.len() as int) =~= Seq::empty());
    }
}

/// Whether a line is passed on as the event with these items as the output of its
/// response, and with the end of the line.
pub open spec fn carries_output(
    sent: Seq<u8>,
    line: Seq<u8>,
    e: JsonSpec,
    v: JsonSpec,
    items: Seq<JsonSpec>,
) -> bool {
    &&& sent == encode_utf8("data: "@ + json_text(v)) + line_end(line)
    &&& v.get2("response"@, "output"@) == Some(JsonSpec::Array(items))
    &&& same_but_for(v, e, "response"@)
    &&& same_but_for(v.get("response"@)->0, e.get("response"@)->0, "output"@)
}

/// A line that completes a response without output is passed on with every item seen so
/// far as the output, and otherwise as it came; any other line is passed on as it is.
pub proof fn law_lines_are_passed_on(line: Seq<u8>, items: Seq<JsonSpec>)
    ensures
        match frame_line_event(line) {
            Some(e) => if completes_without_output(e) && items.len() > 0 {
                exists|v: JsonSpec| #[trigger]
                    carries_output(passed_line(line, items), line, e, v, items)
            } else {
                passed_line(line, items) == line
            },
            None => passed_line(line, items) == line,
        },
{
    lemma_types();
    match frame_line_event(line) {
        Some(e) => {
            if completes_without_output(e) && items.len() > 0 {
                let v = passed_event(e, items);
                assert(carries_output(passed_line(line, items), line, e, v, items));
            }
        },
        None => {},
    }
}

/// The client of a stream is sent each line in turn, and the line at `at` with the items
/// of all the events before it, wherever the network cuts the upstream's stream.
pub proof fn law_completed_response_comes_back_with_every_item(
    chunks: Seq<Seq<u8>>,
    at: int,
    e: JsonSpec,
)
    requires
        0 <= at < byte_lines(flat(chunks)).len(),
        frame_line_event(byte_lines(flat(chunks))[at]) == Some(e),
        completes_without_output(e),
    ensures
        ({
            let ls = byte_lines(flat(chunks));
            let items = items_told(line_events(ls.take(at)));
            &&& items.len() > 0 ==> exists|v: JsonSpec, a: Seq<u8>, sent: Seq<u8>, b: Seq<u8>|
                #![trigger carries_output(sent, ls[at], e, v, items), a + sent + b]
                sent_back(chunks) == a + sent + b && carries_output(sent, ls[at], e, v, items) && a
                    == passed_lines(ls.take(at), seq![])
            &&& items.len() == 0 ==> exists|a: Seq<u8>, b: Seq<u8>|
                sent_back(chunks) == #[trigger] (a + ls[at] + b)
        }),
{
    let ls = byte_lines(flat(chunks));
    let none = Seq::<JsonSpec>::empty();
    let items = items_told(line_events(ls.take(at)));
    law_back_cuts_do_not_matter(chunks);
    law_every_finished_item_is_seen(ls.take(at), none);
    assert(none + items =~= items);
    law_lines_are_passed_on(ls[at], items);
    let sent = passed_line(ls[at], items);
    let a = passed_lines(ls.take(at), none);
    let upto = ls.take(at + 1);
    assert(upto.drop_last() =~= ls.take(at));
    assert(passed_lines(upto, none) == a + sent);
    let b = lemma_passed_begins(ls, at + 1, none);
    assert(sent_back(chunks) == a + sent + b);
    if items.len() > 0 {
        let v = choose|v: JsonSpec| #[trigger] carries_output(sent, ls[at], e, v, items);
        assert(carries_output(sent, ls[at], e, v, items));
    } else {
        assert(sent_back(chunks) == a + ls[at] + b);
    }
}

/// What is passed on for several lines begins with what is passed on for the first of
/// them.
proof fn lemma_passed_begins(ls: Seq<Seq<u8>>, n: int, items: Seq<JsonSpec>) -> (rest: Seq<u8>)
    requires
        0 <= n <= ls.len(),
    ensures
        passed_lines(ls, items) == passed_lines(ls.take(n), items) + rest,
    decreases ls.len(),
{
    if n == ls.len() {
        assert(ls.take(n) =~= ls);
        assert(passed_lines(ls, items) + Seq::<u8>::empty() =~= passed_lines(ls, items));
        Seq::empty()
    } else {
        let front = ls.drop_last();
        let rest = lemma_passed_begins(front, n, items);
        assert(front.take(n) =~= ls.take(n));
        let last = passed_line(ls.last(), items_after_lines(front, items));
        assert(passed_lines(ls, items) =~= passed_lines(ls.take(n), items) + (rest + last));
        rest + last
    }
}

/// The items that a stream has seen after several frames are those of all the events in
/// them, in order.
pub proof fn law_frames_tell_every_item(frames: Seq<Seq<u8>>, items: Seq<JsonSpec>)
    ensures
        items_after_frames(frames, items) == items + items_told(frame_events(frames)),
    decreases frames.len(),
{
    if frames.len() == 0 {
        lemma_items_told_push(Seq::empty(), JsonSpec::Null);
        assert(items + Seq::<JsonSpec>::empty() =~= items);
    } else {
        let front = frames.drop_last();
        let last = line_events(byte_lines(frames.last()));
        law_frames_tell_every_item(front, items);
        law_every_finished_item_is_seen(
            byte_lines(frames.last()),
            items_after_frames(front, items),
        );
        lemma_items_told_add(frame_events(front), last);
        assert(items_after_frames(frames, items) =~= items + items_told(frame_events(frames)));
    }
}

/// The events of several frames.
pub open spec fn frame_events(frames: Seq<Seq<u8>>) -> Seq<JsonSpec>
    decreases frames.len(),
{
    if frames.len() == 0 {
        seq![]
    } else {
        frame_events(frames.drop_last()) + line_events(byte_lines(frames.last()))
    }
}

} // verus!
