//! What holds of texts: how they come apart and go together again, and what the lines
//! of a stream carry.

use vstd::prelude::*;

use crate::encoding::{hex_text, hex_value, is_unreserved, percent_encoded};
use crate::json_codec::json_parse;
use crate::sse::{events_of, items_of, line_event, line_item, payload, StreamItemSpec};
use crate::text::{
    all_digits, decimal, i64_text, is_digit, is_space, lemma_index_of_char_is, lines, split_char,
    trim, trim_end, trim_start, u64_text,
};

verus! {

// ---- white space ------------------------------------------------------

/// The text begins and ends with something else than white space, or is empty.
pub open spec fn is_tight(s: Seq<char>) -> bool {
    s.len() > 0 ==> !is_space(s[0]) && !is_space(s.last())
}

/// All of it is white space.
pub open spec fn is_blank(s: Seq<char>) -> bool {
    forall|i: int| 0 <= i < s.len() ==> is_space(#[trigger] s[i])
}

/// White space before a text goes.
proof fn lemma_trim_start(a: Seq<char>, s: Seq<char>)
    requires
        is_blank(a),
        s.len() > 0 ==> !is_space(s[0]),
    ensures
        trim_start(a + s) == s,
    decreases a.len(),
{
    if a.len() == 0 {
        assert(a + s =~= s);
    } else {
        let b = a.drop_first();
        assert forall|i: int| 0 <= i < b.len() implies is_space(#[trigger] b[i]) by {
            assert(b[i] == a[i + 1]);
        }
        lemma_trim_start(b, s);
        assert(is_space(a[0]));
        assert((a + s).drop_first() =~= b + s);
    }
}

/// White space after a text goes.
pub proof fn lemma_trim_end(s: Seq<char>, b: Seq<char>)
    requires
        is_blank(b),
        s.len() > 0 ==> !is_space(s.last()),
    ensures
        trim_end(s + b) == s,
    decreases b.len(),
{
    if b.len() == 0 {
        assert(s + b =~= s);
    } else {
        let c = b.drop_last();
        assert forall|i: int| 0 <= i < c.len() implies is_space(#[trigger] c[i]) by {
            assert(c[i] == b[i]);
        }
        lemma_trim_end(s, c);
        assert(is_space(b[b.len() - 1]));
        assert((s + b).drop_last() =~= s + c);
    }
}

/// White space around a text goes, and nothing else.
pub proof fn law_trim_takes_white_space_away(a: Seq<char>, s: Seq<char>, b: Seq<char>)
    requires
        is_blank(a),
        is_blank(b),
        is_tight(s),
    ensures
        trim(a + s + b) == s,
{
    if s.len() > 0 {
        assert((s + b)[0] == s[0]);
        assert(a + s + b =~= a + (s + b));
        lemma_trim_start(a, s + b);
        lemma_trim_end(s, b);
    } else {
        let all = a + s + b;
        assert forall|i: int| 0 <= i < all.len() implies is_space(#[trigger] all[i]) by {
            if i < a.len() {
                assert(all[i] == a[i]);
            } else {
                assert(all[i] == b[i - a.len() - s.len()]);
            }
        }
        lemma_trim_start(all, Seq::empty());
        assert(all + Seq::<char>::empty() =~= all);
        assert(trim(all) =~= s);
    }
}

// ---- pieces -----------------------------------------------------------

/// The character stands nowhere in the text.
pub open spec fn is_without(s: Seq<char>, c: char) -> bool {
    forall|i: int| 0 <= i < s.len() ==> #[trigger] s[i] != c
}

/// A text comes apart at each `c`.
pub proof fn law_split_comes_apart(piece: Seq<char>, rest: Seq<char>, c: char)
    requires
        is_without(piece, c),
    ensures
        split_char(piece, c) == seq![piece],
        split_char(piece + seq![c] + rest, c) == seq![piece] + split_char(rest, c),
{
    lemma_index_of_char_is(piece, c, piece.len() as int);
    let whole = piece + seq![c] + rest;
    assert(whole[piece.len() as int] == c);
    assert forall|k: int| 0 <= k < piece.len() implies whole[k] != c by {
        assert(whole[k] == piece[k]);
    }
    lemma_index_of_char_is(whole, c, piece.len() as int);
    assert(whole.take(piece.len() as int) =~= piece);
    assert(whole.skip(piece.len() as int + 1) =~= rest);
}

/// A line ends at a line feed, with or without a carriage return before it.
pub proof fn law_lines_come_apart(line: Seq<char>, rest: Seq<char>)
    requires
        is_without(line, '\n'),
        line.len() == 0 || line.last() != '\r',
    ensures
        lines(Seq::empty()) == Seq::<Seq<char>>::empty(),
        line.len() > 0 ==> lines(line) == seq![line],
        lines(line + seq!['\n'] + rest) == seq![line] + lines(rest),
        lines(line + seq!['\r', '\n'] + rest) == seq![line] + lines(rest),
{
    lemma_index_of_char_is(line, '\n', line.len() as int);
    let a = line + seq!['\n'] + rest;
    assert(a[line.len() as int] == '\n');
    assert forall|k: int| 0 <= k < line.len() implies a[k] != '\n' by {
        assert(a[k] == line[k]);
    }
    lemma_index_of_char_is(a, '\n', line.len() as int);
    assert(a.take(line.len() as int) =~= line);
    assert(a.skip(line.len() as int + 1) =~= rest);
    let b = line + seq!['\r', '\n'] + rest;
    assert(b[line.len() as int + 1] == '\n');
    assert forall|k: int| 0 <= k < line.len() + 1 implies b[k] != '\n' by {
        if k < line.len() {
            assert(b[k] == line[k]);
        } else {
            assert(b[k] == '\r');
        }
    }
    lemma_index_of_char_is(b, '\n', line.len() as int + 1);
    assert(b.take(line.len() as int + 1) =~= line.push('\r'));
    assert(line.push('\r').drop_last() =~= line);
    assert(b.skip(line.len() as int + 2) =~= rest);
}

// ---- numbers ----------------------------------------------------------

/// Digits make a number, each one more ten times the number before and the digit, as long
/// as it fits; a sign may stand before them, and a minus makes the number negative.
pub proof fn law_numbers_are_read(s: Seq<char>, d: u8)
    requires
        d < 10,
        forall|i: int| 0 <= i < s.len() ==> '0' <= #[trigger] s[i] <= '9',
    ensures
        ({
            let c = ('0' as u32 + d) as char;
            let before: int = match u64_text(s) {
                Some(n) => n as int,
                None => 0,
            };
            &&& u64_text(seq![c]) == Some(d as u64)
            &&& s.len() > 0 && u64_text(s) is Some && before * 10 + d <= u64::MAX ==> u64_text(
                s.push(c),
            ) == Some((before * 10 + d) as u64)
            &&& s.len() > 0 && u64_text(s) is Some && before * 10 + d > u64::MAX ==> u64_text(
                s.push(c),
            ) is None
            &&& u64_text(seq!['+'] + s) == u64_text(s)
            &&& u64_text(s) matches Some(n) ==> (n <= i64::MAX ==> i64_text(s) == Some(n as i64)
                && i64_text(seq!['-'] + s) == Some((-n) as i64) && i64_text(seq!['+'] + s) == Some(
                n as i64,
            ))
        }),
        u64_text(Seq::empty()) is None,
{
    let c = ('0' as u32 + d) as char;
    let one = seq![c];
    assert(one.drop_last() =~= Seq::<char>::empty());
    assert(decimal(one) == d) by {
        reveal_with_fuel(decimal, 2);
    }
    assert(s.push(c).drop_last() =~= s);
    let plus = seq!['+'] + s;
    let minus = seq!['-'] + s;
    assert(plus.skip(1) =~= s);
    assert(minus.skip(1) =~= s);
    if s.len() > 0 {
        assert('0' <= s[0]);
        assert(s.push(c)[0] == s[0]);
        assert forall|i: int| 0 <= i < s.push(c).len() implies is_digit(#[trigger] s.push(c)[i]) by {
            if i < s.len() {
                assert(s.push(c)[i] == s[i]);
            }
        }
        assert(all_digits(s.push(c)));
    }
}

// ---- encodings --------------------------------------------------------

/// A text in percent-encoding holds no sign that could end it in a query.
pub proof fn law_quoted_ends_nothing(bytes: Seq<u8>)
    ensures
        is_without(percent_encoded(bytes), '&'),
        is_without(percent_encoded(bytes), '='),
        is_without(percent_encoded(bytes), '?'),
        is_without(percent_encoded(bytes), ' '),
        is_without(percent_encoded(bytes), '#'),
    decreases bytes.len(),
{
    if bytes.len() > 0 {
        let b = bytes[0];
        let rest = bytes.drop_first();
        law_quoted_ends_nothing(rest);
        let first = if is_unreserved(b) {
            seq![b as char]
        } else {
            seq!['%', crate::encoding::hex_upper(b / 16), crate::encoding::hex_upper(b % 16)]
        };
        let all = percent_encoded(bytes);
        assert(all == first + percent_encoded(rest));
        assert forall|i: int| 0 <= i < all.len() implies all[i] != '&' && all[i] != '=' && all[i]
            != '?' && all[i] != ' ' && all[i] != '#' by {
            if i < first.len() {
                assert(all[i] == first[i]);
            } else {
                assert(all[i] == percent_encoded(rest)[i - first.len()]);
            }
        }
    }
}

/// Unreserved bytes stand for themselves in percent-encoding, and each other byte is a
/// percent sign and its two digits.
pub proof fn law_quoted_byte(bytes: Seq<u8>, b: u8)
    ensures
        percent_encoded(Seq::empty()) == Seq::<char>::empty(),
        is_unreserved(b) ==> percent_encoded(seq![b] + bytes) == seq![b as char] + percent_encoded(
            bytes,
        ),
        !is_unreserved(b) ==> ({
            let all = percent_encoded(seq![b] + bytes);
            &&& all.len() == 3 + percent_encoded(bytes).len()
            &&& all[0] == '%'
            &&& hex_value(all[1] as u8) == Some((b / 16) as u8)
            &&& hex_value(all[2] as u8) == Some((b % 16) as u8)
            &&& all.skip(3) == percent_encoded(bytes)
        }),
{
    assert((seq![b] + bytes).drop_first() =~= bytes);
    if !is_unreserved(b) {
        let all = percent_encoded(seq![b] + bytes);
        assert(all.skip(3) =~= percent_encoded(bytes));
    }
}

/// Each byte is two digits in hexadecimal, the larger first.
pub proof fn law_hex_byte(bytes: Seq<u8>, b: u8)
    ensures
        hex_text(Seq::empty()) == Seq::<char>::empty(),
        ({
            let all = hex_text(bytes.push(b));
            let n = hex_text(bytes).len() as int;
            &&& all.len() == n + 2
            &&& all.take(n) == hex_text(bytes)
            &&& hex_value(all[n] as u8) == Some((b / 16) as u8)
            &&& hex_value(all[n + 1] as u8) == Some((b % 16) as u8)
            &&& !('A' <= all[n] <= 'Z') && !('A' <= all[n + 1] <= 'Z')
        }),
{
    assert(bytes.push(b).drop_last() =~= bytes);
    let all = hex_text(bytes.push(b));
    let n = hex_text(bytes).len() as int;
    assert(all.take(n) =~= hex_text(bytes));
}

// ---- the lines of a stream --------------------------------------------

/// A line that carries data: white space apart, the data follows `data: `.
pub proof fn law_data_line_carries_data(data: Seq<char>, end: Seq<char>)
    requires
        data.len() > 0,
        is_tight(data),
        is_blank(end),
    ensures
        payload("data: "@ + data + end) == Some(data),
        data == "[DONE]"@ ==> line_item("data: "@ + data + end) == Some(StreamItemSpec::Done)
            && line_event("data: "@ + data + end) is None,
        data != "[DONE]"@ ==> line_event("data: "@ + data + end) == json_parse(data),
        data != "[DONE]"@ ==> (json_parse(data) matches Some(e) ==> line_item(
            "data: "@ + data + end,
        ) == Some(StreamItemSpec::Event(e))),
        data != "[DONE]"@ && json_parse(data) is None ==> line_item("data: "@ + data + end) is None,
{
    reveal_strlit("data: ");
    let s = "data: "@ + data;
    assert(s[0] == 'd');
    assert(s.last() == data.last());
    law_trim_takes_white_space_away(Seq::empty(), s, end);
    assert(Seq::<char>::empty() + s + end =~= s + end);
    assert(s.take(6) =~= "data: "@);
    assert(s.skip(6) =~= data);
    law_trim_takes_white_space_away(Seq::empty(), data, Seq::empty());
    assert(Seq::<char>::empty() + data + Seq::<char>::empty() =~= data);
}

/// A line that does not begin with `data: ` carries nothing.
pub proof fn law_other_lines_carry_nothing(line: Seq<char>)
    requires
        trim(line).len() < 6 || trim(line).take(6) != "data: "@,
    ensures
        payload(line) is None,
        line_item(line) is None,
        line_event(line) is None,
{
    reveal_strlit("data: ");
    assert("data: "@.len() == 6);
}

/// The events of lines are those of each, in the order of the lines.
pub proof fn law_events_are_in_order(ls: Seq<Seq<char>>, line: Seq<char>)
    ensures
        events_of(Seq::empty()) == Seq::<crate::json::JsonSpec>::empty(),
        events_of(ls.push(line)) == match line_event(line) {
            Some(e) => events_of(ls).push(e),
            None => events_of(ls),
        },
        items_of(Seq::empty()) == Seq::<StreamItemSpec>::empty(),
        items_of(ls.push(line)) == match line_item(line) {
            Some(e) => items_of(ls).push(e),
            None => items_of(ls),
        },
{
    assert(ls.push(line).drop_last() =~= ls);
}

} // verus!
