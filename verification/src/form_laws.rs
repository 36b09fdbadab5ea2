//! What holds of forms: what the header lines of a part say, and how the text of a field
//! comes through.

use vstd::prelude::*;
use vstd::utf8::{encode_utf8, encode_utf8_decode_utf8, encode_utf8_valid_utf8};

use crate::bytes::{crlf_blank, is_white, lemma_trim_back, trim_back, trim_front};
use crate::encoding::base64_standard;
use crate::multipart::{
    attr_of, boundary_in, cut_part, data_url, first_boundary, head_of, part_field, text_value,
    upload_part,
};
use crate::text::{
    ascii_lower, contains_text, find, finishes_with, is_space, lemma_find_from, lemma_find_from_is,
    lemma_index_of_char_is, lines, occurs_at, trim, trim_end_char, trim_start_char,
    utf8_lossy,
};
use crate::text_laws::{
    is_blank, is_tight, is_without, law_trim_takes_white_space_away, lemma_trim_end,
};

verus! {

/// An attribute is what stands between its name with an equals sign and a quote, where
/// that stands first, and the next quote.
pub proof fn law_attribute_is_found(
    front: Seq<char>,
    attr: Seq<char>,
    value: Seq<char>,
    rest: Seq<char>,
)
    requires
        is_without(value, '"'),
        find(front + attr + seq!['=', '"'], attr + seq!['=', '"']) == Some(front.len() as int),
    ensures
        attr_of(front + attr + seq!['=', '"'] + value + seq!['"'] + rest, attr) == Some(value),
{
    reveal_strlit("=\"");
    assert("=\""@ =~= seq!['=', '"']);
    let pat = attr + seq!['=', '"'];
    let head = front + attr + seq!['=', '"'];
    let tail = value + seq!['"'] + rest;
    let whole = front + attr + seq!['=', '"'] + value + seq!['"'] + rest;
    assert(whole =~= head + tail);
    assert(head =~= front + pat);
    lemma_find_from(head, pat, 0);
    assert forall|k: int| 0 <= k <= front.len() implies occurs_at(whole, pat, k) == occurs_at(
        head,
        pat,
        k,
    ) by {
        assert(whole.subrange(k, k + pat.len()) =~= head.subrange(k, k + pat.len()));
    }
    lemma_find_from_is(whole, pat, 0, front.len() as int);
    assert(whole.skip(front.len() + pat.len() as int) =~= tail);
    assert(tail[value.len() as int] == '"');
    assert forall|k: int| 0 <= k < value.len() implies tail[k] != '"' by {
        assert(tail[k] == value[k]);
    }
    lemma_index_of_char_is(tail, '"', value.len() as int);
    assert(tail.take(value.len() as int) =~= value);
}

/// What the header lines say: the disposition gives the name of the field and whether it
/// is a file, the content type gives the media type, the last line of each counts, and
/// other lines say nothing.
pub proof fn law_header_lines(ls: Seq<Seq<char>>, text: Seq<char>, other: Seq<char>)
    requires
        text.len() > 0,
        is_tight(text),
        trim(other).len() < 20 || trim(other).take(20) != "Content-Disposition:"@,
        trim(other).len() < 13 || trim(other).take(13) != "Content-Type:"@,
    ensures
        head_of(Seq::empty()).name is None,
        head_of(Seq::empty()).content_type is None,
        !head_of(Seq::empty()).is_file,
        head_of(ls.push(other)) == head_of(ls),
        ({
            let before = head_of(ls);
            let after = head_of(ls.push("Content-Disposition: "@ + text));
            &&& attr_of(text, "name"@) matches Some(n) ==> after.name == Some(n)
            &&& attr_of(text, "name"@) is None ==> after.name == before.name
            &&& after.is_file == contains_text(text, "filename="@)
            &&& after.content_type == before.content_type
        }),
        ({
            let before = head_of(ls);
            let after = head_of(ls.push("Content-Type: "@ + text));
            &&& after.content_type == Some(text)
            &&& after.name == before.name
            &&& after.is_file == before.is_file
        }),
{
    reveal_strlit("Content-Disposition:");
    reveal_strlit("Content-Disposition: ");
    reveal_strlit("Content-Type:");
    reveal_strlit("Content-Type: ");
    assert("Content-Disposition:"@.len() == 20 && "Content-Type:"@.len() == 13);
    assert("Content-Disposition: "@ =~= "Content-Disposition:"@ + seq![' ']);
    assert("Content-Type: "@ =~= "Content-Type:"@ + seq![' ']);
    assert(ls.push(other).drop_last() =~= ls);
    let none = Seq::<char>::empty();
    let a = "Content-Disposition: "@ + text;
    let b = "Content-Type: "@ + text;
    assert(ls.push(a).drop_last() =~= ls);
    assert(ls.push(b).drop_last() =~= ls);
    assert(a[0] == 'C' && b[0] == 'C' && a.last() == text.last() && b.last() == text.last());
    law_trim_takes_white_space_away(none, a, none);
    law_trim_takes_white_space_away(none, b, none);
    assert(none + a + none =~= a);
    assert(none + b + none =~= b);
    let sp = seq![' '];
    law_trim_takes_white_space_away(sp, text, none);
    assert(a.take(20) =~= "Content-Disposition:"@);
    assert(a.skip(20) =~= sp + text + none);
    assert(b.take(13) =~= "Content-Type:"@);
    assert(b.skip(13) =~= sp + text + none);
    assert("Content-Disposition:"@[8] == 'D' && "Content-Type:"@[8] == 'T');
    assert(b[8] == 'T');
    if b.len() >= 20 {
        assert(b.take(20)[8] == 'T');
    }
}

/// The data URL of bytes names the media type and holds the base64 text of the bytes.
pub proof fn law_data_url(t: Seq<char>, content: Seq<u8>)
    ensures
        data_url(Some(t), content) == "data:"@ + t + ";base64,"@ + base64_standard(content),
        data_url(None, content) == data_url(Some("application/octet-stream"@), content),
{
}

/// The text of a field comes through, with white space at its end apart, if it does not
/// end in dashes.
pub proof fn law_text_comes_through(text: Seq<char>, end: Seq<char>)
    requires
        text.len() > 0,
        !is_space(text.last()),
        text.last() != '-',
        is_blank(end),
    ensures
        text_value(text + end) == Some(text),
        text_value(end) is None,
{
    lemma_trim_end(text, end);
    reveal_strlit("\r\n");
    reveal_strlit("--");
    assert("\r\n"@.len() == 2 && "\r\n"@[1] == '\n');
    assert("--"@.len() == 2 && "--"@[1] == '-');
    assert(!finishes_with(text, "\r\n"@)) by {
        if finishes_with(text, "\r\n"@) {
            assert(text.skip(text.len() - 2)[1] == text.last());
        }
    }
    assert(!finishes_with(text, "--"@)) by {
        if finishes_with(text, "--"@) {
            assert(text.skip(text.len() - 2)[1] == text.last());
        }
    }
    lemma_not_blank(text, end);
    law_trim_takes_white_space_away(Seq::empty(), Seq::empty(), end);
    assert(Seq::<char>::empty() + Seq::<char>::empty() + end =~= end);
}

/// A text with something else than white space at its end is not blank.
proof fn lemma_not_blank(text: Seq<char>, end: Seq<char>)
    requires
        text.len() > 0,
        !is_space(text.last()),
        is_blank(end),
    ensures
        trim(text + end).len() > 0,
    decreases text.len(),
{
    if is_space(text[0]) {
        let rest = text.drop_first();
        assert(rest.last() == text.last());
        lemma_not_blank(rest, end);
        assert((text + end).drop_first() =~= rest + end);
        assert((text + end)[0] == text[0]);
    } else {
        assert((text + end)[0] == text[0]);
        lemma_trim_end(text, end);
    }
}

/// The bytes of two texts are those of the first, then those of the second.
proof fn lemma_encode_add(a: Seq<char>, b: Seq<char>)
    ensures
        encode_utf8(a + b) == encode_utf8(a) + encode_utf8(b),
    decreases a.len(),
{
    if a.len() == 0 {
        assert(a + b =~= b);
        assert(encode_utf8(a) + encode_utf8(b) =~= encode_utf8(b));
    } else {
        lemma_encode_add(a.drop_first(), b);
        assert((a + b).drop_first() =~= a.drop_first() + b);
        let x = vstd::utf8::encode_scalar(a[0] as u32);
        assert(x + (encode_utf8(a.drop_first()) + encode_utf8(b)) =~= (x + encode_utf8(
            a.drop_first(),
        )) + encode_utf8(b));
    }
}

/// The bytes of a line end.
proof fn lemma_line_end_bytes()
    ensures
        encode_utf8(seq!['\r', '\n']) == seq![13u8, 10u8],
{
    let s = seq!['\r', '\n'];
    assert((13u32 & 0x7F) as u8 == 13u8) by (bit_vector);
    assert((10u32 & 0x7F) as u8 == 10u8) by (bit_vector);
    reveal_with_fuel(encode_utf8, 3);
    assert(s.drop_first() =~= seq!['\n']);
    assert(s.drop_first().drop_first() =~= Seq::<char>::empty());
    assert(encode_utf8(s) =~= seq![13u8, 10u8]);
}

/// The first byte of a character that is not white space is not white space.
proof fn lemma_first_byte(c: char)
    requires
        !is_space(c),
    ensures
        vstd::utf8::encode_scalar(c as u32).len() > 0,
        !is_white(vstd::utf8::encode_scalar(c as u32)[0]),
{
    let v = c as u32;
    let bytes = vstd::utf8::encode_scalar(v);
    assert(v <= 0x7F ==> (v & 0x7F) as u8 == v) by (bit_vector);
    assert(0xC0u8 | ((v >> 6) & 0x1F) as u8 >= 0xC0u8) by (bit_vector);
    assert(0xE0u8 | ((v >> 12) & 0x0F) as u8 >= 0xE0u8) by (bit_vector);
    assert(0xF0u8 | ((v >> 18) & 0x7) as u8 >= 0xF0u8) by (bit_vector);
    if v <= 0x7F {
        assert(bytes[0] == v as u8);
    } else if v <= 0x7FF {
        assert(bytes[0] >= 0xC0);
    } else if v <= 0xFFFF {
        assert(bytes[0] >= 0xE0);
    } else {
        assert(bytes[0] >= 0xF0);
    }
}

/// A text with something else than white space at its end has a byte that is none.
proof fn lemma_byte_that_is_not_white(text: Seq<char>) -> (k: int)
    requires
        text.len() > 0,
        !is_space(text.last()),
    ensures
        0 <= k < encode_utf8(text).len(),
        !is_white(encode_utf8(text)[k]),
{
    let front = text.drop_last();
    let one = seq![text.last()];
    assert(front + one =~= text);
    lemma_encode_add(front, one);
    assert(one.drop_first() =~= Seq::<char>::empty());
    let bytes = vstd::utf8::encode_scalar(text.last() as u32);
    assert(encode_utf8(one) =~= bytes) by {
        reveal_with_fuel(encode_utf8, 2);
    }
    lemma_first_byte(text.last());
    encode_utf8(front).len() as int
}

/// A part with a header, a blank line and something else than white space after it is
/// cut at the blank line.
proof fn lemma_cut_at_blank_line(header: Seq<u8>, content: Seq<u8>, k: int)
    requires
        header.len() > 0,
        !is_white(header[0]),
        find(header + crlf_blank(), crlf_blank()) == Some(header.len() as int),
        0 <= k < content.len(),
        !is_white(content[k]),
    ensures
        cut_part(upload_part(header, content)) == Some((header, content + seq![13u8, 10u8])),
{
    let blank = crlf_blank();
    let front = header + blank;
    let rest = content + seq![13u8, 10u8];
    let part = upload_part(header, content);
    let whole = front + rest;
    let n = header.len() as int;
    assert(part.drop_first().drop_first() =~= whole);
    assert(part.drop_first()[0] == 10u8);
    assert(whole[0] == header[0]);
    assert(trim_front(part) == whole) by {
        reveal_with_fuel(trim_front, 3);
    }
    let seen = trim_back(whole);
    lemma_trim_back(whole);
    assert(whole[n + 4 + k] == content[k]);
    lemma_find_from(front, blank, 0);
    assert forall|k: int| 0 <= k <= n implies occurs_at(seen, blank, k) == occurs_at(
        front,
        blank,
        k,
    ) by {
        assert(seen.subrange(k, k + 4) =~= front.subrange(k, k + 4));
    }
    lemma_find_from_is(seen, blank, 0, n);
    assert(whole.take(n) =~= header);
    assert(whole.skip(n + 4) =~= rest);
}

/// A field of text in a form comes through as it is: a part with a header that names it,
/// a blank line, the text and a line end is the field with that text, if the text does
/// not end in white space or in dashes.
pub proof fn law_text_field_comes_through(header: Seq<u8>, text: Seq<char>, name: Seq<char>)
    requires
        header.len() > 0,
        !is_white(header[0]),
        find(header + crlf_blank(), crlf_blank()) == Some(header.len() as int),
        !head_of(lines(utf8_lossy(header))).is_file,
        head_of(lines(utf8_lossy(header))).name == Some(name),
        text.len() > 0,
        !is_space(text.last()),
        text.last() != '-',
    ensures
        part_field(upload_part(header, encode_utf8(text))) == Some((name, text)),
{
    let k = lemma_byte_that_is_not_white(text);
    lemma_cut_at_blank_line(header, encode_utf8(text), k);
    let end = seq!['\r', '\n'];
    lemma_encode_add(text, end);
    lemma_line_end_bytes();
    encode_utf8_valid_utf8(text + end);
    encode_utf8_decode_utf8(text + end);
    assert(is_blank(end));
    law_text_comes_through(text, end);
}

/// The boundary is what follows `boundary=`, whatever the case of that word, white space
/// around it apart; the first piece that names one counts.
pub proof fn law_boundary_is_found(
    word: Seq<char>,
    boundary: Seq<char>,
    pieces: Seq<Seq<char>>,
    piece: Seq<char>,
)
    requires
        word.len() == 9,
        ascii_lower(word) == "boundary="@,
        boundary.len() > 0,
        is_tight(word + boundary),
        boundary[0] != '"',
        boundary.last() != '"',
    ensures
        boundary_in(word + boundary) == Some(boundary),
        boundary_in(word + seq!['"'] + boundary + seq!['"']) == Some(boundary),
        first_boundary(Seq::empty()) is None,
        first_boundary(pieces) is Some ==> first_boundary(pieces.push(piece)) == first_boundary(
            pieces,
        ),
        first_boundary(pieces) is None ==> first_boundary(pieces.push(piece)) == boundary_in(piece),
{
    let none = Seq::<char>::empty();
    let s = word + boundary;
    law_trim_takes_white_space_away(none, s, none);
    assert(none + s + none =~= s);
    assert(s.take(9) =~= word);
    assert(s.skip(9) =~= boundary);
    let q = word + seq!['"'] + boundary + seq!['"'];
    assert(q[0] == word[0] && s[0] == word[0]);
    law_trim_takes_white_space_away(none, q, none);
    assert(none + q + none =~= q);
    assert(q.take(9) =~= word);
    let quoted = q.skip(9);
    assert(quoted =~= seq!['"'] + boundary + seq!['"']);
    assert(quoted.drop_first() =~= boundary + seq!['"']);
    assert((boundary + seq!['"'])[0] == boundary[0]);
    assert((boundary + seq!['"']).drop_last() =~= boundary);
    reveal_with_fuel(trim_start_char, 2);
    reveal_with_fuel(trim_end_char, 2);
    assert(pieces.push(piece).drop_last() =~= pieces);
}

} // verus!
