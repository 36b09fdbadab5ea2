//! Server-sent events: the payloads of `data:` lines and the events in them.

use vstd::prelude::*;

use crate::bytes::{byte_lines, byte_seqs, lemma_lines_split, lines_of_bytes, LINE_FEED};
use crate::json::{items_view, lemma_items_push, opt_owned, Json, JsonSpec};
use crate::json_codec::{json_parse, read_json};
use crate::text::{
    after_prefix, lossy_text, str_eq, strip_prefix, trim, trimmed, utf8_lossy,
};

verus! {

/// What a line carries after `data: `, white space around the line apart.
pub open spec fn payload(line: Seq<char>) -> Option<Seq<char>> {
    after_prefix(trim(line), "data: "@)
}

/// What a line carries after `data: `.
pub fn line_payload(line: &str) -> (r: Option<String>)
    ensures
        crate::text::opt_view(r) == payload(line@),
{
    let t = trimmed(line);
    strip_prefix(t.as_str(), "data: ")
}

// ---- events -----------------------------------------------------------

/// The event of a line: none where the line carries no data, carries `[DONE]`,
/// or carries what is not JSON.
pub open spec fn line_event(line: Seq<char>) -> Option<JsonSpec> {
    match payload(line) {
        Some(data) => if trim(data) == "[DONE]"@ {
            None
        } else {
            json_parse(trim(data))
        },
        None => None,
    }
}

/// The events of several lines, in order.
pub open spec fn events_of(ls: Seq<Seq<char>>) -> Seq<JsonSpec>
    decreases ls.len(),
{
    if ls.len() == 0 {
        seq![]
    } else {
        match line_event(ls.last()) {
            Some(e) => events_of(ls.drop_last()).push(e),
            None => events_of(ls.drop_last()),
        }
    }
}

/// The event of a line.
pub fn read_line_event(line: &str) -> (r: Option<Json>)
    ensures
        opt_owned(r) == line_event(line@),
{
    match line_payload(line) {
        Some(data) => {
            let t = trimmed(data.as_str());
            if str_eq(t.as_str(), "[DONE]") {
                None
            } else {
                read_json(t.as_str())
            }
        },
        None => None,
    }
}

/// The texts of the lines of bytes, each with the line feed that ends it.
pub open spec fn line_texts(raw: Seq<u8>) -> Seq<Seq<char>> {
    byte_lines(raw).map_values(|l: Seq<u8>| utf8_lossy(l))
}

/// The events of a body.
pub open spec fn body_events(raw: Seq<u8>) -> Seq<JsonSpec> {
    events_of(line_texts(raw))
}

/// The events of a body.
pub fn read_body_events(raw: &[u8]) -> (r: Vec<Json>)
    ensures
        items_view(r@) == body_events(raw@),
{
    let ls = lines_of_bytes(raw);
    let ghost all = line_texts(raw@);
    let mut out: Vec<Json> = Vec::new();
    let mut i: usize = 0;
    proof {
        assert(all.len() == ls@.len());
        assert(items_view(out@) =~= events_of(all.take(0)));
    }
    while i < ls.len()
        invariant
            i <= ls@.len(),
            all == line_texts(raw@),
            all.len() == ls@.len(),
            byte_seqs(ls@) == byte_lines(raw@),
            items_view(out@) == events_of(all.take(i as int)),
        decreases ls@.len() - i,
    {
        proof {
            assert(byte_seqs(ls@)[i as int] == ls@[i as int]@);
            assert(all.take(i + 1).drop_last() =~= all.take(i as int));
            assert(all.take(i + 1).last() == utf8_lossy(ls@[i as int]@));
        }
        let line = lossy_text(ls[i].as_slice());
        match read_line_event(line.as_str()) {
            Some(j) => {
                proof {
                    lemma_items_push(out@, j);
                }
                out.push(j);
            },
            None => {},
        }
        i = i + 1;
    }
    proof {
        assert(all.take(all.len() as int) =~= all);
    }
    out
}

// ---- events and end marks ---------------------------------------------

/// One line of a stream: the mark that ends it, or an event.
pub enum StreamItem {
    Done,
    Event(Json),
}

/// What a line of a stream is.
pub enum StreamItemSpec {
    Done,
    Event(JsonSpec),
}

impl View for StreamItem {
    type V = StreamItemSpec;

    open spec fn view(&self) -> StreamItemSpec {
        match *self {
            StreamItem::Done => StreamItemSpec::Done,
            StreamItem::Event(j) => StreamItemSpec::Event(j@),
        }
    }
}

/// The item of a line: the end mark where its data is `[DONE]`, the event where
/// its data is JSON, else none.
pub open spec fn line_item(line: Seq<char>) -> Option<StreamItemSpec> {
    match payload(line) {
        Some(data) => if data == "[DONE]"@ {
            Some(StreamItemSpec::Done)
        } else {
            match json_parse(data) {
                Some(e) => Some(StreamItemSpec::Event(e)),
                None => None,
            }
        },
        None => None,
    }
}

/// The items of several lines, in order.
pub open spec fn items_of(ls: Seq<Seq<char>>) -> Seq<StreamItemSpec>
    decreases ls.len(),
{
    if ls.len() == 0 {
        seq![]
    } else {
        match line_item(ls.last()) {
            Some(e) => items_of(ls.drop_last()).push(e),
            None => items_of(ls.drop_last()),
        }
    }
}

/// What several lines of a stream are.
pub open spec fn stream_items_view(items: Seq<StreamItem>) -> Seq<StreamItemSpec> {
    items.map_values(|i: StreamItem| i@)
}

/// The items of a chunk of a stream.
pub open spec fn chunk_items(chunk: Seq<u8>) -> Seq<StreamItemSpec> {
    items_of(line_texts(chunk))
}

/// The item of a line.
pub fn read_line_item(line: &str) -> (r: Option<StreamItem>)
    ensures
        match r {
            Some(i) => line_item(line@) == Some(i@),
            None => line_item(line@) is None,
        },
{
    match line_payload(line) {
        Some(data) => {
            if str_eq(data.as_str(), "[DONE]") {
                Some(StreamItem::Done)
            } else {
                match read_json(data.as_str()) {
                    Some(e) => Some(StreamItem::Event(e)),
                    None => None,
                }
            }
        },
        None => None,
    }
}

/// The items of a chunk of a stream.
pub fn read_chunk_items(chunk: &[u8]) -> (r: Vec<StreamItem>)
    ensures
        stream_items_view(r@) == chunk_items(chunk@),
{
    let ls = lines_of_bytes(chunk);
    let ghost all = line_texts(chunk@);
    let mut out: Vec<StreamItem> = Vec::new();
    let mut i: usize = 0;
    proof {
        assert(all.len() == ls@.len());
        assert(stream_items_view(out@) =~= items_of(all.take(0)));
    }
    while i < ls.len()
        invariant
            i <= ls@.len(),
            all == line_texts(chunk@),
            all.len() == ls@.len(),
            byte_seqs(ls@) == byte_lines(chunk@),
            stream_items_view(out@) == items_of(all.take(i as int)),
        decreases ls@.len() - i,
    {
        proof {
            assert(byte_seqs(ls@)[i as int] == ls@[i as int]@);
            assert(all.take(i + 1).drop_last() =~= all.take(i as int));
            assert(all.take(i + 1).last() == utf8_lossy(ls@[i as int]@));
        }
        let line = lossy_text(ls[i].as_slice());
        match read_line_item(line.as_str()) {
            Some(x) => {
                let ghost before = out@;
                out.push(x);
                proof {
                    assert(stream_items_view(out@) =~= stream_items_view(before).push(x@));
                }
            },
            None => {},
        }
        i = i + 1;
    }
    proof {
        assert(all.take(all.len() as int) =~= all);
    }
    out
}

// ---- laws -------------------------------------------------------------

/// The items of lines in two parts.
proof fn lemma_items_of_add(a: Seq<Seq<char>>, b: Seq<Seq<char>>)
    ensures
        items_of(a + b) == items_of(a) + items_of(b),
    decreases b.len(),
{
    if b.len() == 0 {
        assert(a + b =~= a);
        assert(items_of(a) + items_of(b) =~= items_of(a));
    } else {
        lemma_items_of_add(a, b.drop_last());
        assert((a + b).drop_last() =~= a + b.drop_last());
        assert((a + b).last() == b.last());
        assert(items_of(a + b) =~= items_of(a) + items_of(b));
    }
}

/// The events of lines in two parts.
proof fn lemma_events_of_add(a: Seq<Seq<char>>, b: Seq<Seq<char>>)
    ensures
        events_of(a + b) == events_of(a) + events_of(b),
    decreases b.len(),
{
    if b.len() == 0 {
        assert(a + b =~= a);
        assert(events_of(a) + events_of(b) =~= events_of(a));
    } else {
        lemma_events_of_add(a, b.drop_last());
        assert((a + b).drop_last() =~= a + b.drop_last());
        assert((a + b).last() == b.last());
        assert(events_of(a + b) =~= events_of(a) + events_of(b));
    }
}

/// Bytes that are cut at the end of a line carry what both parts carry, one after
/// the other.
pub proof fn law_lines_split(a: Seq<u8>, b: Seq<u8>)
    requires
        a.len() == 0 || a.last() == LINE_FEED,
    ensures
        line_texts(a + b) == line_texts(a) + line_texts(b),
        chunk_items(a + b) == chunk_items(a) + chunk_items(b),
        body_events(a + b) == body_events(a) + body_events(b),
{
    lemma_lines_split(a, b);
    assert(line_texts(a + b) =~= line_texts(a) + line_texts(b));
    lemma_items_of_add(line_texts(a), line_texts(b));
    lemma_events_of_add(line_texts(a), line_texts(b));
}

} // verus!
