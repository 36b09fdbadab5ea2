//! The Responses endpoint: the request on its way to the upstream, and the
//! stream of events on its way back.

use vstd::prelude::*;
use vstd::utf8::encode_utf8;

use crate::bytes::{
    byte_lines, byte_seqs, copy_bytes, copy_range, crlf_blank, find_bytes, flat,
    lemma_byte_seqs_push, lemma_flat_add, lemma_flat_one, lemma_lines_flat, lemma_lines_split,
    lf_blank, lines_of_bytes, push_bytes, LINE_FEED,
};
use crate::errors::{error_body, error_of};
use crate::headers::{header_bytes, make_header_value};
use crate::json::{items_view, lemma_items_push, put, remove_key, Json, JsonSpec};
use crate::json_codec::{
    json_parse, json_parse_bytes, json_text, read_json, read_json_bytes, rereadable, write_json,
    write_json_bytes, READ_DEPTH,
};
use crate::sse::{body_events, read_body_events};
use crate::text::{
    after_prefix, concat, find, lemma_find_from, lemma_find_from_is, lossy_text, occurs_at, str_eq,
    strip_prefix, trim, trimmed, utf8_lossy,
};

verus! {

// ---- the request ------------------------------------------------------

/// The fields as the upstream takes them: no `safety_identifier`, instructions
/// and `store` there, and `stream` on.
pub open spec fn sanitized(m: Map<Seq<char>, JsonSpec>) -> Map<Seq<char>, JsonSpec> {
    let a = m.remove("safety_identifier"@);
    let b = if a.contains_key("instructions"@) {
        a
    } else {
        a.insert("instructions"@, JsonSpec::Str(seq![]))
    };
    let c = if b.contains_key("store"@) {
        b
    } else {
        b.insert("store"@, JsonSpec::Bool(false))
    };
    c.insert("stream"@, JsonSpec::Bool(true))
}

/// A request as the upstream takes it.
pub open spec fn sanitized_value(v: JsonSpec) -> JsonSpec {
    match v {
        JsonSpec::Object(m) => JsonSpec::Object(sanitized(m)),
        other => other,
    }
}

/// Whether the client asked to stream.
pub open spec fn stream_requested(v: JsonSpec) -> bool {
    v.get_bool("stream"@) == Some(true)
}

/// The bytes to send to the upstream, and whether the client asked to stream.
/// What is not JSON is passed on as it is. The bytes read back as the request
/// that the upstream takes, but for numbers that are not integers, for values
/// nested deeper than reading follows, and for objects with the key by which
/// `serde_json` marks unread text.
pub fn sanitize_responses_body(body: &[u8]) -> (r: (Vec<u8>, bool))
    ensures
        match json_parse_bytes(body@) {
            Some(v) => {
                &&& r.0@ == encode_utf8(json_text(sanitized_value(v)))
                &&& r.1 == stream_requested(v)
                &&& rereadable(sanitized_value(v), READ_DEPTH as nat) ==> json_parse_bytes(r.0@)
                    == Some(sanitized_value(v))
            },
            None => r.0@ == body@ && !r.1,
        },
{
    match read_json_bytes(body) {
        Some(v) => {
            let (out, stream) = sanitize_value(v);
            (write_json_bytes(&out), stream)
        },
        None => (copy_bytes(body), false),
    }
}

/// A request as the upstream takes it, and whether the client asked to stream.
pub fn sanitize_value(v: Json) -> (r: (Json, bool))
    ensures
        r.0@ == sanitized_value(v@),
        r.1 == stream_requested(v@),
{
    let stream = match v.get_bool("stream") {
        Some(b) => b,
        None => false,
    };
    match v {
        Json::Object(entries) => {
            let mut entries = entries;
            remove_key(&mut entries, "safety_identifier");
            if crate::json::find_entry(&entries, "instructions").is_none() {
                proof {
                    reveal_strlit("");
                    assert(""@ =~= seq![]);
                }
                put(&mut entries, "instructions", Json::text(""));
            }
            if crate::json::find_entry(&entries, "store").is_none() {
                put(&mut entries, "store", Json::Bool(false));
            }
            put(&mut entries, "stream", Json::Bool(true));
            (Json::Object(entries), stream)
        },
        other => (other, stream),
    }
}

// ---- frames -----------------------------------------------------------

/// Where the first frame of bytes ends, and how long the blank line after it is.
pub open spec fn frame_cut(s: Seq<u8>) -> Option<(int, int)> {
    match (find(s, lf_blank()), find(s, crlf_blank())) {
        (Some(lf), Some(crlf)) => if crlf < lf {
            Some((crlf, 4))
        } else {
            Some((lf, 2))
        },
        (Some(lf), None) => Some((lf, 2)),
        (None, Some(crlf)) => Some((crlf, 4)),
        (None, None) => None,
    }
}

/// A frame and the blank line after it lie in the bytes, and end in a line feed.
pub proof fn lemma_frame_cut(s: Seq<u8>)
    ensures
        frame_cut(s) matches Some((f, p)) ==> 0 <= f && 0 < p && f + p <= s.len() && s[f + p - 1]
            == LINE_FEED,
{
    lemma_find_from(s, lf_blank(), 0);
    lemma_find_from(s, crlf_blank(), 0);
    match frame_cut(s) {
        Some((f, p)) => {
            if p == 2 {
                assert(s.subrange(f, f + 2)[1] == s[f + 1]);
            } else {
                assert(s.subrange(f, f + 4)[3] == s[f + 3]);
            }
        },
        None => {},
    }
}

/// The complete frames of bytes, each with the blank line that ends it.
pub open spec fn frames_of(s: Seq<u8>) -> Seq<Seq<u8>>
    decreases s.len(),
    via frames_of_decreases
{
    match frame_cut(s) {
        Some((f, p)) => seq![s.take(f + p)] + frames_of(s.skip(f + p)),
        None => seq![],
    }
}

#[via_fn]
proof fn frames_of_decreases(s: Seq<u8>) {
    lemma_frame_cut(s);
}

/// What follows the complete frames of bytes.
pub open spec fn rest_of(s: Seq<u8>) -> Seq<u8>
    decreases s.len(),
    via rest_of_decreases
{
    match frame_cut(s) {
        Some((f, p)) => rest_of(s.skip(f + p)),
        None => s,
    }
}

#[via_fn]
proof fn rest_of_decreases(s: Seq<u8>) {
    lemma_frame_cut(s);
}

/// Where the first frame of bytes ends, and how long the blank line after it is.
pub fn next_sse_frame(buffer: &[u8]) -> (r: Option<(usize, usize)>)
    ensures
        match r {
            Some((f, p)) => frame_cut(buffer@) == Some((f as int, p as int)) && f + p
                <= buffer@.len(),
            None => frame_cut(buffer@) is None,
        },
{
    let lf_pat: [u8; 2] = [10, 10];
    let crlf_pat: [u8; 4] = [13, 10, 13, 10];
    proof {
        assert(lf_pat@ =~= lf_blank());
        assert(crlf_pat@ =~= crlf_blank());
    }
    match (find_bytes(buffer, lf_pat.as_slice(), 0), find_bytes(buffer, crlf_pat.as_slice(), 0)) {
        (Some(lf), Some(crlf)) => if crlf < lf {
            Some((crlf, 4))
        } else {
            Some((lf, 2))
        },
        (Some(lf), None) => Some((lf, 2)),
        (None, Some(crlf)) => Some((crlf, 4)),
        (None, None) => None,
    }
}

// ---- events -----------------------------------------------------------

/// Whether an event has this type.
pub open spec fn has_type(event: JsonSpec, kind: Seq<char>) -> bool {
    event.get_str("type"@) == Some(kind)
}

/// Whether a response lacks its output.
pub open spec fn needs_output(resp: JsonSpec) -> bool {
    match resp.get("output"@) {
        Some(JsonSpec::Array(v)) => v.len() == 0,
        _ => true,
    }
}

/// A response with its output, where it lacked it and items were seen.
pub open spec fn with_output(resp: JsonSpec, items: Seq<JsonSpec>) -> JsonSpec {
    match resp {
        JsonSpec::Object(m) => if needs_output(resp) && items.len() > 0 {
            JsonSpec::Object(m.insert("output"@, JsonSpec::Array(items)))
        } else {
            resp
        },
        other => other,
    }
}

/// The items seen after one more event.
pub open spec fn items_after(items: Seq<JsonSpec>, event: JsonSpec) -> Seq<JsonSpec> {
    match event.get("item"@) {
        Some(item) => if has_type(event, "response.output_item.done"@) {
            items.push(item)
        } else {
            items
        },
        None => items,
    }
}

/// An event as it is passed on, when `items` were seen up to it.
pub open spec fn passed_event(event: JsonSpec, items: Seq<JsonSpec>) -> JsonSpec {
    match event {
        JsonSpec::Object(m) => if has_type(event, "response.completed"@) && m.contains_key(
            "response"@,
        ) {
            JsonSpec::Object(m.insert("response"@, with_output(m["response"@], items)))
        } else {
            event
        },
        other => other,
    }
}

/// Whether a response lacks its output.
fn is_without_output(resp: &Json) -> (r: bool)
    ensures
        r == needs_output(resp@),
{
    match resp.get("output") {
        Some(Json::Array(v)) => v.len() == 0,
        _ => true,
    }
}

/// A copy of several values.
fn copy_items(items: &Vec<Json>) -> (r: Vec<Json>)
    ensures
        items_view(r@) == items_view(items@),
{
    let mut out: Vec<Json> = Vec::new();
    let mut i: usize = 0;
    while i < items.len()
        invariant
            i <= items@.len(),
            items_view(out@) == items_view(items@).take(i as int),
        decreases items@.len() - i,
    {
        let c = items[i].clone();
        proof {
            lemma_items_push(out@, c);
            assert(items_view(items@).take(i + 1) =~= items_view(items@).take(i as int).push(c@));
        }
        out.push(c);
        i = i + 1;
    }
    proof {
        assert(items_view(items@).take(items@.len() as int) =~= items_view(items@));
    }
    out
}

/// Gives a response its output, where it lacks it and items were seen.
pub fn add_output(resp: Json, items: &Vec<Json>) -> (r: Json)
    ensures
        r@ == with_output(resp@, items_view(items@)),
{
    let lacking = is_without_output(&resp);
    match resp {
        Json::Object(entries) => {
            let mut entries = entries;
            if lacking && items.len() > 0 {
                put(&mut entries, "output", Json::Array(copy_items(items)));
            }
            Json::Object(entries)
        },
        other => other,
    }
}

/// Takes up the item that an event finished.
pub fn note_item(event: &Json, items: &mut Vec<Json>)
    ensures
        items_view(final(items)@) == items_after(items_view(old(items)@), event@),
{
    if event.has_str("type", "response.output_item.done") {
        match event.get("item") {
            Some(item) => {
                let c = item.clone();
                proof {
                    lemma_items_push(items@, c);
                }
                items.push(c);
            },
            None => {},
        }
    }
}

/// An event as it is passed on.
pub fn pass_event(event: Json, items: &Vec<Json>) -> (r: Json)
    ensures
        r@ == passed_event(event@, items_view(items@)),
{
    if !event.has_str("type", "response.completed") {
        return event;
    }
    let resp = match event.get("response") {
        Some(v) => v.clone(),
        None => {
            return event;
        },
    };
    match event {
        Json::Object(entries) => {
            let mut entries = entries;
            put(&mut entries, "response", add_output(resp, items));
            Json::Object(entries)
        },
        other => other,
    }
}

/// The event on a line of a frame.
pub open spec fn frame_line_event(line: Seq<u8>) -> Option<JsonSpec> {
    match after_prefix(utf8_lossy(line), "data: "@) {
        Some(data) => if trim(data) == "[DONE]"@ {
            None
        } else {
            json_parse(trim(data))
        },
        None => None,
    }
}

/// Whether an event completes a response that lacks its output.
pub open spec fn lacks_output(event: JsonSpec) -> bool {
    has_type(event, "response.completed"@) && match event.get("response"@) {
        Some(resp) => resp is Object && needs_output(resp),
        None => false,
    }
}

/// The line feed that ends a line, with the carriage returns before it.
pub open spec fn line_end(line: Seq<u8>) -> Seq<u8>
    decreases line.len(),
{
    if line.len() > 0 && (line.last() == 10 || line.last() == 13) {
        line_end(line.drop_last()).push(line.last())
    } else {
        seq![]
    }
}

/// The items seen after one more line of a frame.
pub open spec fn line_items(line: Seq<u8>, items: Seq<JsonSpec>) -> Seq<JsonSpec> {
    match frame_line_event(line) {
        Some(event) => items_after(items, event),
        None => items,
    }
}

/// A line of a frame as it is passed on: as it came, but for an event that
/// completes a response which lacks its output, when items were seen.
pub open spec fn passed_line(line: Seq<u8>, items: Seq<JsonSpec>) -> Seq<u8> {
    match frame_line_event(line) {
        Some(event) => if lacks_output(event) && items_after(items, event).len() > 0 {
            encode_utf8("data: "@ + json_text(passed_event(event, items_after(items, event))))
                + line_end(line)
        } else {
            line
        },
        None => line,
    }
}

/// The items seen after several lines.
pub open spec fn items_after_lines(ls: Seq<Seq<u8>>, items: Seq<JsonSpec>) -> Seq<JsonSpec>
    decreases ls.len(),
{
    if ls.len() == 0 {
        items
    } else {
        line_items(ls.last(), items_after_lines(ls.drop_last(), items))
    }
}

/// Several lines as they are passed on, one after the other.
pub open spec fn passed_lines(ls: Seq<Seq<u8>>, items: Seq<JsonSpec>) -> Seq<u8>
    decreases ls.len(),
{
    if ls.len() == 0 {
        seq![]
    } else {
        passed_lines(ls.drop_last(), items) + passed_line(
            ls.last(),
            items_after_lines(ls.drop_last(), items),
        )
    }
}

/// The items seen after a frame.
pub open spec fn items_after_frame(frame: Seq<u8>, items: Seq<JsonSpec>) -> Seq<JsonSpec> {
    items_after_lines(byte_lines(frame), items)
}

/// A frame as it is passed on, when `items` were seen before it.
pub open spec fn passed_frame(frame: Seq<u8>, items: Seq<JsonSpec>) -> Seq<u8> {
    passed_lines(byte_lines(frame), items)
}

/// The event on a line of a frame.
fn read_frame_line_event(line: &[u8]) -> (r: Option<Json>)
    ensures
        crate::json::opt_owned(r) == frame_line_event(line@),
{
    let text = lossy_text(line);
    match strip_prefix(text.as_str(), "data: ") {
        Some(data) => {
            let t = trimmed(data.as_str());
            if str_eq(t.as_str(), "[DONE]") {
                None
            } else {
                read_json(t.as_str())
            }
        },
        None => None,
    }
}

/// Whether an event completes a response that lacks its output.
fn is_lacking(event: &Json) -> (r: bool)
    ensures
        r == lacks_output(event@),
{
    if !event.has_str("type", "response.completed") {
        return false;
    }
    match event.get("response") {
        Some(resp) => match resp {
            Json::Object(_) => is_without_output(resp),
            _ => false,
        },
        None => false,
    }
}

/// Where the line feed that ends a line begins, with the carriage returns before
/// it.
fn line_end_start(line: &[u8]) -> (r: usize)
    ensures
        r <= line@.len(),
        line@.skip(r as int) == line_end(line@),
{
    let mut i: usize = line.len();
    let ghost whole = line@;
    proof {
        assert(whole.take(i as int) =~= whole);
        assert(line_end(whole.take(i as int)) + whole.skip(i as int) =~= line_end(whole));
    }
    while i > 0 && (line[i - 1] == 10 || line[i - 1] == 13)
        invariant
            i <= line@.len(),
            whole == line@,
            line_end(whole.take(i as int)) + whole.skip(i as int) == line_end(whole),
        decreases i,
    {
        proof {
            let t = whole.take(i as int);
            assert(t.drop_last() =~= whole.take(i - 1));
            assert(line_end(t.drop_last()).push(t.last()) + whole.skip(i as int) =~= line_end(
                whole.take(i - 1),
            ) + whole.skip(i - 1));
        }
        i = i - 1;
    }
    proof {
        assert(line_end(whole.take(i as int)) + whole.skip(i as int) =~= whole.skip(i as int));
    }
    i
}

/// Passes a line of a frame on.
fn pass_line(line: &[u8], output_items: &mut Vec<Json>) -> (r: Vec<u8>)
    ensures
        r@ == passed_line(line@, items_view(old(output_items)@)),
        items_view(final(output_items)@) == line_items(line@, items_view(old(output_items)@)),
{
    match read_frame_line_event(line) {
        Some(event) => {
            note_item(&event, output_items);
            proof {
                assert(items_view(output_items@).len() == output_items@.len());
            }
            if is_lacking(&event) && output_items.len() > 0 {
                let passed = pass_event(event, output_items);
                let text = write_json(&passed);
                let data = concat("data: ", text.as_str());
                let mut out = copy_bytes(data.as_str().as_bytes());
                let n = line.len();
                let from = line_end_start(line);
                let end = copy_range(line, from, n);
                proof {
                    assert(end@ =~= line@.skip(from as int));
                }
                push_bytes(&mut out, end.as_slice());
                out
            } else {
                copy_bytes(line)
            }
        },
        None => copy_bytes(line),
    }
}

/// Passes a frame on: an item that it finishes is taken up, and a response that
/// it completes is given its output where it lacks it. All else stays as it came.
pub fn transform_response_sse_frame(frame: &[u8], output_items: &mut Vec<Json>) -> (r: Vec<u8>)
    ensures
        r@ == passed_frame(frame@, items_view(old(output_items)@)),
        items_view(final(output_items)@) == items_after_frame(
            frame@,
            items_view(old(output_items)@),
        ),
{
    let ls = lines_of_bytes(frame);
    let ghost all = byte_lines(frame@);
    let ghost first = items_view(output_items@);
    let mut out: Vec<u8> = Vec::new();
    let mut i: usize = 0;
    proof {
        assert(out@ =~= passed_lines(all.take(0), first));
    }
    while i < ls.len()
        invariant
            i <= ls@.len(),
            all == byte_lines(frame@),
            byte_seqs(ls@) == all,
            out@ == passed_lines(all.take(i as int), first),
            items_view(output_items@) == items_after_lines(all.take(i as int), first),
        decreases ls@.len() - i,
    {
        proof {
            assert(byte_seqs(ls@)[i as int] == ls@[i as int]@);
            assert(all.take(i + 1).drop_last() =~= all.take(i as int));
            assert(all.take(i + 1).last() == ls@[i as int]@);
        }
        let passed = pass_line(ls[i].as_slice(), output_items);
        push_bytes(&mut out, passed.as_slice());
        i = i + 1;
    }
    proof {
        assert(all.len() == ls@.len());
        assert(all.take(all.len() as int) =~= all);
    }
    out
}

// ---- the stream on its way back ---------------------------------------

/// The items seen after several frames.
pub open spec fn items_after_frames(frames: Seq<Seq<u8>>, items: Seq<JsonSpec>) -> Seq<JsonSpec>
    decreases frames.len(),
{
    if frames.len() == 0 {
        items
    } else {
        items_after_frame(frames.last(), items_after_frames(frames.drop_last(), items))
    }
}

/// Several frames as they are passed on.
pub open spec fn passed_frames(frames: Seq<Seq<u8>>, items: Seq<JsonSpec>) -> Seq<Seq<u8>>
    decreases frames.len(),
{
    if frames.len() == 0 {
        seq![]
    } else {
        passed_frames(frames.drop_last(), items).push(
            passed_frame(frames.last(), items_after_frames(frames.drop_last(), items)),
        )
    }
}

/// A stream of events on its way back: the bytes that are no complete frame yet,
/// and the items that were seen.
#[derive(Debug)]
pub struct ResponseSseTransform {
    pub buffer: Vec<u8>,
    pub output_items: Vec<Json>,
}

impl ResponseSseTransform {
    /// The bytes that are no complete frame yet.
    pub open spec fn pending(self) -> Seq<u8> {
        self.buffer@
    }

    /// The items that were seen.
    pub open spec fn items(self) -> Seq<JsonSpec> {
        items_view(self.output_items@)
    }

    /// A stream of which nothing came.
    pub fn new() -> (r: ResponseSseTransform)
        ensures
            r.pending() == Seq::<u8>::empty(),
            r.items() == Seq::<JsonSpec>::empty(),
    {
        let r = ResponseSseTransform { buffer: Vec::new(), output_items: Vec::new() };
        proof {
            assert(r.items() =~= Seq::empty());
        }
        r
    }

    /// Bytes came: the frames to pass on.
    pub fn on_bytes(&mut self, bytes: &[u8]) -> (r: Vec<Vec<u8>>)
        ensures
            ({
                let all = old(self).pending() + bytes@;
                &&& byte_seqs(r@) == passed_frames(frames_of(all), old(self).items())
                &&& final(self).pending() == rest_of(all)
                &&& final(self).items() == items_after_frames(frames_of(all), old(self).items())
            }),
    {
        push_bytes(&mut self.buffer, bytes);
        self.drain_complete_sse_frames()
    }

    /// Passes on the frames that are complete.
    pub fn drain_complete_sse_frames(&mut self) -> (r: Vec<Vec<u8>>)
        ensures
            byte_seqs(r@) == passed_frames(frames_of(old(self).pending()), old(self).items()),
            final(self).pending() == rest_of(old(self).pending()),
            final(self).items() == items_after_frames(
                frames_of(old(self).pending()),
                old(self).items(),
            ),
    {
        let ghost whole = self.pending();
        let ghost first = self.items();
        let ghost mut done: Seq<Seq<u8>> = seq![];
        let mut out: Vec<Vec<u8>> = Vec::new();
        proof {
            assert(byte_seqs(out@) =~= passed_frames(done, first));
            assert(done + frames_of(self.buffer@) =~= frames_of(whole));
        }
        loop
            invariant_except_break
                done + frames_of(self.buffer@) == frames_of(whole),
                rest_of(self.buffer@) == rest_of(whole),
                byte_seqs(out@) == passed_frames(done, first),
                self.items() == items_after_frames(done, first),
            ensures
                done == frames_of(whole),
                self.buffer@ == rest_of(whole),
                byte_seqs(out@) == passed_frames(done, first),
                self.items() == items_after_frames(done, first),
            decreases self.buffer@.len(),
        {
            let n = self.buffer.len();
            match next_sse_frame(self.buffer.as_slice()) {
                Some((f, p)) => {
                    let ghost v = self.buffer@;
                    proof {
                        lemma_frame_cut(v);
                        assert(v.subrange(0, f + p) =~= v.take(f + p));
                        assert(v.subrange(f + p, v.len() as int) =~= v.skip(f + p));
                    }
                    let frame = copy_range(self.buffer.as_slice(), 0, f + p);
                    let rest = copy_range(self.buffer.as_slice(), f + p, n);
                    let passed = transform_response_sse_frame(
                        frame.as_slice(),
                        &mut self.output_items,
                    );
                    proof {
                        let next = done.push(frame@);
                        assert(next.drop_last() =~= done);
                        assert(next + frames_of(v.skip(f + p)) =~= done + frames_of(v));
                        lemma_byte_seqs_push(out@, passed);
                        done = next;
                    }
                    out.push(passed);
                    self.buffer = rest;
                },
                None => {
                    proof {
                        assert(done + frames_of(self.buffer@) =~= done);
                    }
                    break;
                },
            }
        }
        out
    }

    /// The stream ended: what is left is passed on, where anything is left.
    pub fn on_end(&mut self) -> (r: Option<Vec<u8>>)
        ensures
            match r {
                Some(b) => old(self).pending().len() > 0 && b@ == passed_frame(
                    old(self).pending(),
                    old(self).items(),
                ),
                None => old(self).pending().len() == 0,
            },
            final(self).pending() == Seq::<u8>::empty(),
            final(self).items() == items_after_frame(old(self).pending(), old(self).items()),
    {
        let mut frame: Vec<u8> = Vec::new();
        std::mem::swap(&mut self.buffer, &mut frame);
        if frame.len() == 0 {
            proof {
                assert(byte_lines(frame@) =~= seq![]);
            }
            return None;
        }
        Some(transform_response_sse_frame(frame.as_slice(), &mut self.output_items))
    }
}

/// The content type of a streamed answer: the upstream's, else that of a stream of
/// events.
pub fn stream_content_type(upstream: Option<axum::http::HeaderValue>) -> (r:
    axum::http::HeaderValue)
    ensures
        match upstream {
            Some(v) => r == v,
            None => header_bytes(r) == encode_utf8("text/event-stream"@),
        },
{
    match upstream {
        Some(v) => v,
        None => {
            proof {
                reveal_strlit("text/event-stream");
            }
            make_header_value("text/event-stream").unwrap()
        },
    }
}

// ---- the response in one piece ----------------------------------------

/// The items that several events finish.
pub open spec fn finished_items(events: Seq<JsonSpec>) -> Seq<JsonSpec>
    decreases events.len(),
{
    if events.len() == 0 {
        seq![]
    } else {
        items_after(finished_items(events.drop_last()), events.last())
    }
}

/// The response that the last event with one carries.
pub open spec fn last_response(events: Seq<JsonSpec>) -> Option<JsonSpec>
    decreases events.len(),
{
    if events.len() == 0 {
        None
    } else {
        match events.last().get("response"@) {
            Some(resp) => Some(resp),
            None => last_response(events.drop_last()),
        }
    }
}

/// The answer to a client that asked for the response in one piece.
pub open spec fn collected_response(events: Seq<JsonSpec>) -> JsonSpec {
    match last_response(events) {
        Some(resp) => with_output(resp, finished_items(events)),
        None => error_of("Upstream did not return a response"@),
    }
}

/// The answer to a client that asked for the response in one piece.
pub fn collect_response(events: &Vec<Json>) -> (r: Json)
    ensures
        r@ == collected_response(items_view(events@)),
{
    let ghost all = items_view(events@);
    let mut items: Vec<Json> = Vec::new();
    let mut last: Option<Json> = None;
    let mut i: usize = 0;
    proof {
        assert(items_view(items@) =~= finished_items(all.take(0)));
    }
    while i < events.len()
        invariant
            i <= events@.len(),
            all == items_view(events@),
            items_view(items@) == finished_items(all.take(i as int)),
            crate::json::opt_owned(last) == last_response(all.take(i as int)),
        decreases events@.len() - i,
    {
        let event = &events[i];
        proof {
            assert(all.take(i + 1).drop_last() =~= all.take(i as int));
            assert(all.take(i + 1).last() == event@);
        }
        note_item(event, &mut items);
        match event.get("response") {
            Some(resp) => {
                last = Some(resp.clone());
            },
            None => {},
        }
        i = i + 1;
    }
    proof {
        assert(all.take(all.len() as int) =~= all);
    }
    match last {
        Some(resp) => add_output(resp, &items),
        None => error_body("Upstream did not return a response"),
    }
}

/// The bytes of the answer to a client that asked for the response in one piece.
pub fn collect_sse_to_json(raw: &[u8]) -> (r: Vec<u8>)
    ensures
        r@ == encode_utf8(json_text(collected_response(body_events(raw@)))),
{
    let events = read_body_events(raw);
    let answer = collect_response(&events);
    write_json_bytes(&answer)
}

// ---- laws -------------------------------------------------------------

/// What sanitizing changes: `safety_identifier` goes, `stream` is on,
/// `instructions` and `store` are there, and all else stays as it was.
pub proof fn law_sanitize_keeps_the_rest(m: Map<Seq<char>, JsonSpec>, k: Seq<char>)
    ensures
        !sanitized(m).contains_key("safety_identifier"@),
        sanitized(m).contains_key("stream"@),
        sanitized(m)["stream"@] == JsonSpec::Bool(true),
        sanitized(m).contains_key("instructions"@),
        sanitized(m).contains_key("store"@),
        m.contains_key("instructions"@) ==> sanitized(m)["instructions"@] == m["instructions"@],
        !m.contains_key("instructions"@) ==> sanitized(m)["instructions"@] == JsonSpec::Str(
            seq![],
        ),
        m.contains_key("store"@) ==> sanitized(m)["store"@] == m["store"@],
        !m.contains_key("store"@) ==> sanitized(m)["store"@] == JsonSpec::Bool(false),
        k != "safety_identifier"@ && k != "stream"@ && k != "instructions"@ && k != "store"@ ==> (
        sanitized(m).contains_key(k) <==> m.contains_key(k)) && (m.contains_key(k) ==> sanitized(
            m,
        )[k] == m[k]),
{
    reveal_strlit("safety_identifier");
    reveal_strlit("stream");
    reveal_strlit("instructions");
    reveal_strlit("store");
    assert("safety_identifier"@.len() == 17);
    assert("stream"@.len() == 6);
    assert("instructions"@.len() == 12);
    assert("store"@.len() == 5);
}

/// A request that was sanitized is not changed by sanitizing it again.
pub proof fn law_sanitize_twice(v: JsonSpec)
    ensures
        sanitized_value(sanitized_value(v)) == sanitized_value(v),
{
    match v {
        JsonSpec::Object(m) => {
            law_sanitize_keeps_the_rest(m, "stream"@);
            assert(sanitized(sanitized(m)) =~= sanitized(m));
        },
        _ => {},
    }
}

/// A blank line that ends in the first of two parts is where the first frame of
/// both together ends.
proof fn lemma_cut_stable(a: Seq<u8>, b: Seq<u8>)
    requires
        frame_cut(a) is Some,
    ensures
        frame_cut(a + b) == frame_cut(a),
{
    let lf = lf_blank();
    let crlf = crlf_blank();
    let s = a + b;
    lemma_find_from(a, lf, 0);
    lemma_find_from(a, crlf, 0);
    lemma_find_from(s, lf, 0);
    lemma_find_from(s, crlf, 0);
    assert forall|k: int| 0 <= k && k + 2 <= a.len() implies occurs_at(s, lf, k) == occurs_at(
        a,
        lf,
        k,
    ) by {
        assert(s.subrange(k, k + 2) =~= a.subrange(k, k + 2));
    }
    assert forall|k: int| 0 <= k && k + 4 <= a.len() implies occurs_at(s, crlf, k) == occurs_at(
        a,
        crlf,
        k,
    ) by {
        assert(s.subrange(k, k + 4) =~= a.subrange(k, k + 4));
    }
    if find(a, lf) is Some {
        lemma_find_from_is(s, lf, 0, find(a, lf)->0);
    }
    if find(a, crlf) is Some {
        lemma_find_from_is(s, crlf, 0, find(a, crlf)->0);
    }
    if find(a, crlf) is None && find(s, crlf) is Some {
        // A blank line that begins in `a` and ends in `b` begins behind the one
        // that ends in `a`.
        let c = find(s, crlf)->0;
        let l = find(a, lf)->0;
        if c < l {
            assert(c == a.len() - 3 && l == a.len() - 2);
            assert(s.subrange(c, c + 4)[2] == s[c + 2]);
            assert(s.subrange(l, l + 2)[1] == s[l + 1]);
        }
    }
}

/// However the bytes of a stream are cut into pieces, the same frames come out of
/// it and the same bytes are left: what is left of one piece is put before the
/// next.
pub proof fn law_frames_do_not_depend_on_pieces(a: Seq<u8>, b: Seq<u8>)
    ensures
        frames_of(a + b) == frames_of(a) + frames_of(rest_of(a) + b),
        rest_of(a + b) == rest_of(rest_of(a) + b),
    decreases a.len(),
{
    match frame_cut(a) {
        Some((f, p)) => {
            lemma_frame_cut(a);
            lemma_cut_stable(a, b);
            let tail = a.skip(f + p);
            law_frames_do_not_depend_on_pieces(tail, b);
            assert((a + b).skip(f + p) =~= tail + b);
            assert((a + b).take(f + p) =~= a.take(f + p));
            assert(frames_of(a + b) =~= frames_of(a) + frames_of(rest_of(a) + b));
        },
        None => {
            assert(frames_of(a) + frames_of(rest_of(a) + b) =~= frames_of(a + b));
        },
    }
}

/// Frames that are passed on in two turns are passed on as in one.
pub proof fn law_passing_on_does_not_depend_on_turns(
    first: Seq<Seq<u8>>,
    second: Seq<Seq<u8>>,
    items: Seq<JsonSpec>,
)
    ensures
        passed_frames(first + second, items) == passed_frames(first, items) + passed_frames(
            second,
            items_after_frames(first, items),
        ),
        items_after_frames(first + second, items) == items_after_frames(
            second,
            items_after_frames(first, items),
        ),
    decreases second.len(),
{
    if second.len() == 0 {
        assert(first + second =~= first);
        assert(passed_frames(first, items) + passed_frames(
            second,
            items_after_frames(first, items),
        ) =~= passed_frames(first, items));
    } else {
        law_passing_on_does_not_depend_on_turns(first, second.drop_last(), items);
        assert((first + second).drop_last() =~= first + second.drop_last());
        assert((first + second).last() == second.last());
        assert(passed_frames(first + second, items) =~= passed_frames(first, items)
            + passed_frames(second, items_after_frames(first, items)));
    }
}

/// Lines that are passed on in two turns are passed on as in one.
proof fn lemma_lines_in_turns(a: Seq<Seq<u8>>, b: Seq<Seq<u8>>, items: Seq<JsonSpec>)
    ensures
        passed_lines(a + b, items) == passed_lines(a, items) + passed_lines(
            b,
            items_after_lines(a, items),
        ),
        items_after_lines(a + b, items) == items_after_lines(b, items_after_lines(a, items)),
    decreases b.len(),
{
    if b.len() == 0 {
        assert(a + b =~= a);
        assert(passed_lines(a, items) + passed_lines(b, items_after_lines(a, items))
            =~= passed_lines(a, items));
    } else {
        lemma_lines_in_turns(a, b.drop_last(), items);
        assert((a + b).drop_last() =~= a + b.drop_last());
        assert((a + b).last() == b.last());
        assert(passed_lines(a + b, items) =~= passed_lines(a, items) + passed_lines(
            b,
            items_after_lines(a, items),
        ));
    }
}

/// Bytes that are passed on frame by frame, with what is left at the end, are
/// passed on as the bytes as a whole.
proof fn lemma_frames_as_whole(s: Seq<u8>, items: Seq<JsonSpec>)
    ensures
        flat(passed_frames(frames_of(s), items)) + passed_frame(
            rest_of(s),
            items_after_frames(frames_of(s), items),
        ) == passed_frame(s, items),
    decreases s.len(),
{
    match frame_cut(s) {
        Some((f, p)) => {
            lemma_frame_cut(s);
            let frame = s.take(f + p);
            let tail = s.skip(f + p);
            let now = items_after_frame(frame, items);
            assert(frame.last() == LINE_FEED);
            assert(frame + tail =~= s);
            lemma_lines_split(frame, tail);
            lemma_lines_in_turns(byte_lines(frame), byte_lines(tail), items);
            lemma_frames_as_whole(tail, now);
            let one = seq![frame];
            assert(one.drop_last() =~= seq![]);
            assert(passed_frames(one, items) =~= seq![passed_frame(frame, items)]) by {
                assert(passed_frames(one.drop_last(), items) =~= seq![]);
                assert(items_after_frames(one.drop_last(), items) == items);
            }
            assert(items_after_frames(one, items) == now) by {
                assert(items_after_frames(one.drop_last(), items) == items);
            }
            law_passing_on_does_not_depend_on_turns(one, frames_of(tail), items);
            lemma_flat_add(passed_frames(one, items), passed_frames(frames_of(tail), now));
            lemma_flat_one(passed_frame(frame, items));
            let x = passed_frame(frame, items);
            let y = flat(passed_frames(frames_of(tail), now));
            let z = passed_frame(rest_of(tail), items_after_frames(frames_of(tail), now));
            assert((x + y) + z =~= x + (y + z));
        },
        None => {
            assert(flat(passed_frames(frames_of(s), items)) =~= seq![]);
            assert(seq![] + passed_frame(s, items) =~= passed_frame(s, items));
        },
    }
}

/// A stream on its way back: the bytes that wait, the items that were seen, and
/// what was passed on so far.
#[verifier::ext_equal]
pub struct BackSpec {
    pub pending: Seq<u8>,
    pub items: Seq<JsonSpec>,
    pub passed: Seq<u8>,
}

/// A stream on its way back after several chunks.
pub open spec fn back_after(chunks: Seq<Seq<u8>>) -> BackSpec
    decreases chunks.len(),
{
    if chunks.len() == 0 {
        BackSpec { pending: seq![], items: seq![], passed: seq![] }
    } else {
        let b = back_after(chunks.drop_last());
        let all = b.pending + chunks.last();
        BackSpec {
            pending: rest_of(all),
            items: items_after_frames(frames_of(all), b.items),
            passed: b.passed + flat(passed_frames(frames_of(all), b.items)),
        }
    }
}

/// What the client is sent for a stream of several chunks and its end.
pub open spec fn sent_back(chunks: Seq<Seq<u8>>) -> Seq<u8> {
    let b = back_after(chunks);
    b.passed + passed_frame(b.pending, b.items)
}

/// Several chunks are passed on as the complete frames of all of them.
proof fn lemma_back_after(chunks: Seq<Seq<u8>>)
    ensures
        back_after(chunks) == (BackSpec {
            pending: rest_of(flat(chunks)),
            items: items_after_frames(frames_of(flat(chunks)), seq![]),
            passed: flat(passed_frames(frames_of(flat(chunks)), seq![])),
        }),
    decreases chunks.len(),
{
    let none = Seq::<JsonSpec>::empty();
    if chunks.len() == 0 {
        let s = flat(chunks);
        lemma_find_from(s, lf_blank(), 0);
        lemma_find_from(s, crlf_blank(), 0);
        assert(frames_of(s) =~= seq![]);
        assert(back_after(chunks) =~= BackSpec {
            pending: rest_of(s),
            items: items_after_frames(frames_of(s), none),
            passed: flat(passed_frames(frames_of(s), none)),
        });
    } else {
        let before = flat(chunks.drop_last());
        let last = chunks.last();
        lemma_back_after(chunks.drop_last());
        law_frames_do_not_depend_on_pieces(before, last);
        let x = frames_of(before);
        let y = frames_of(rest_of(before) + last);
        law_passing_on_does_not_depend_on_turns(x, y, none);
        lemma_flat_add(
            passed_frames(x, none),
            passed_frames(y, items_after_frames(x, none)),
        );
        assert(back_after(chunks) =~= BackSpec {
            pending: rest_of(flat(chunks)),
            items: items_after_frames(frames_of(flat(chunks)), none),
            passed: flat(passed_frames(frames_of(flat(chunks)), none)),
        });
    }
}

/// Wherever the network cuts the upstream's stream, the client is sent what the
/// stream as a whole is passed on as; so two ways to cut the same bytes send the
/// same bytes.
pub proof fn law_back_cuts_do_not_matter(chunks: Seq<Seq<u8>>)
    ensures
        sent_back(chunks) == passed_frame(flat(chunks), seq![]),
{
    lemma_back_after(chunks);
    lemma_frames_as_whole(flat(chunks), seq![]);
}

/// Lines of which none completes a response that lacks its output are passed on
/// as they came.
proof fn lemma_lines_unchanged(ls: Seq<Seq<u8>>, items: Seq<JsonSpec>)
    requires
        forall|i: int|
            0 <= i < ls.len() ==> !(frame_line_event(#[trigger] ls[i]) matches Some(e)
                && lacks_output(e)),
    ensures
        passed_lines(ls, items) == flat(ls),
    decreases ls.len(),
{
    if ls.len() > 0 {
        let front = ls.drop_last();
        assert forall|i: int| 0 <= i < front.len() implies !(frame_line_event(
            #[trigger] front[i],
        ) matches Some(e) && lacks_output(e)) by {
            assert(front[i] == ls[i]);
        }
        lemma_lines_unchanged(front, items);
        assert(ls.last() == ls[ls.len() - 1]);
    }
}

/// A stream in which no event completes a response that lacks its output comes
/// back byte for byte as the upstream sent it, wherever the network cuts it.
pub proof fn law_stream_comes_back_verbatim(chunks: Seq<Seq<u8>>)
    requires
        forall|i: int|
            0 <= i < byte_lines(flat(chunks)).len() ==> !(frame_line_event(
                #[trigger] byte_lines(flat(chunks))[i],
            ) matches Some(e) && lacks_output(e)),
    ensures
        sent_back(chunks) == flat(chunks),
{
    law_back_cuts_do_not_matter(chunks);
    lemma_lines_unchanged(byte_lines(flat(chunks)), seq![]);
    lemma_lines_flat(flat(chunks));
}

/// A completed response that lacks its output is passed on with the items that
/// were seen as its output; any other event is passed on as it is.
pub proof fn law_completed_event_has_output(event: JsonSpec, items: Seq<JsonSpec>)
    ensures
        lacks_output(event) && items.len() > 0 ==> passed_event(event, items).get2(
            "response"@,
            "output"@,
        ) == Some(JsonSpec::Array(items)),
        !lacks_output(event) ==> passed_event(event, items) == event,
{
    match event {
        JsonSpec::Object(m) => {
            if m.contains_key("response"@) {
                assert(m.insert("response"@, m["response"@]) =~= m);
            }
        },
        _ => {},
    }
}

} // verus!
