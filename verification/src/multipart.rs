//! Multipart forms: text fields as they are, uploaded files as data URLs.

use vstd::prelude::*;
use vstd::utf8::encode_utf8;

use crate::bytes::{
    byte_seqs, copy_range, crlf_blank, find_bytes, is_white, lemma_trim_back, lf_blank,
    split_bytes, trim_back, trim_front, white_back, white_front,
};
use crate::encoding::{base64_encode, base64_standard};
use crate::text::{
    after_prefix, ascii_lower, chars_of, concat, concat3, contains, contains_text, find,
    find_chars, index_of, index_of_char, is_empty, join, keep_clear, lemma_find_from,
    lemma_find_from_is, lemma_split_joined, lines, lines_of, lossy_text, occurs_at, opt_view,
    split, split_char, split_text, str_eq, string_of_range, strip_prefix, texts, to_ascii_lower,
    trim, trim_end, trim_end_char, trim_end_matches, trim_end_text, trim_matches, trim_start_char,
    trimmed, trimmed_end, utf8_lossy,
};

verus! {

// ---- the boundary -----------------------------------------------------

/// The boundary that a piece of a content type names, as it was sent; the word
/// `boundary` may stand in capitals.
pub open spec fn boundary_in(piece: Seq<char>) -> Option<Seq<char>> {
    let t = trim(piece);
    if t.len() >= 9 && ascii_lower(t.take(9)) == "boundary="@ {
        Some(trim_end_char(trim_start_char(t.skip(9), '"'), '"'))
    } else {
        None
    }
}

/// The first boundary that one of the pieces names.
pub open spec fn first_boundary(pieces: Seq<Seq<char>>) -> Option<Seq<char>>
    decreases pieces.len(),
{
    if pieces.len() == 0 {
        None
    } else {
        match first_boundary(pieces.drop_last()) {
            Some(b) => Some(b),
            None => boundary_in(pieces.last()),
        }
    }
}

/// The boundary that a content type names.
pub open spec fn boundary_of(content_type: Seq<char>) -> Option<Seq<char>> {
    first_boundary(split_char(content_type, ';'))
}

/// The boundary that a piece of a content type names.
fn read_boundary(piece: &str) -> (r: Option<String>)
    ensures
        opt_view(r) == boundary_in(piece@),
{
    let t = trimmed(piece);
    let v = chars_of(t.as_str());
    let n = v.len();
    if n < 9 {
        return None;
    }
    let word = string_of_range(&v, 0, 9);
    let value = string_of_range(&v, 9, n);
    proof {
        assert(word@ =~= t@.take(9));
        assert(value@ =~= t@.skip(9));
    }
    let lower = to_ascii_lower(word.as_str());
    if str_eq(lower.as_str(), "boundary=") {
        Some(trim_matches(value.as_str(), '"'))
    } else {
        None
    }
}

/// The boundary that a content type names.
pub fn extract_boundary(content_type: &str) -> (r: Option<String>)
    ensures
        opt_view(r) == boundary_of(content_type@),
{
    let pieces = split(content_type, ';');
    let ghost all = texts(pieces@);
    let mut found: Option<String> = None;
    let mut i: usize = 0;
    while i < pieces.len()
        invariant
            i <= pieces@.len(),
            all == texts(pieces@),
            opt_view(found) == first_boundary(all.take(i as int)),
        decreases pieces@.len() - i,
    {
        proof {
            assert(all.take(i + 1).drop_last() =~= all.take(i as int));
            assert(all.take(i + 1).last() == pieces@[i as int]@);
        }
        if found.is_none() {
            found = read_boundary(pieces[i].as_str());
        }
        i = i + 1;
    }
    proof {
        assert(all.take(all.len() as int) =~= all);
    }
    found
}

// ---- attributes -------------------------------------------------------

/// The value of an attribute: what stands between `attr="` and the next quote.
pub open spec fn attr_of(header: Seq<char>, attr: Seq<char>) -> Option<Seq<char>> {
    let pattern = attr + "=\""@;
    match find(header, pattern) {
        Some(at) => {
            let rest = header.skip(at + pattern.len());
            let end = index_of_char(rest, '"');
            if end < rest.len() {
                Some(rest.take(end))
            } else {
                None
            }
        },
        None => None,
    }
}

/// The value of an attribute.
pub fn extract_attr(header: &str, attr: &str) -> (r: Option<String>)
    ensures
        opt_view(r) == attr_of(header@, attr@),
{
    let v = chars_of(header);
    let pattern = concat(attr, "=\"");
    let w = chars_of(pattern.as_str());
    let n = v.len();
    match find_chars(&v, &w, 0) {
        Some(at) => {
            let start = at + w.len();
            let end = index_of(&v, '"', start);
            let ghost rest = header@.skip(start as int);
            if end < n {
                proof {
                    assert(v@.subrange(start as int, end as int) =~= rest.take(end - start));
                }
                Some(string_of_range(&v, start, end))
            } else {
                None
            }
        },
        None => None,
    }
}

// ---- fields -----------------------------------------------------------

/// The fields of a form. Where a name occurs twice, the later field counts.
#[derive(Debug)]
pub struct FormFields {
    pub entries: Vec<(String, String)>,
}

/// The fields of several entries.
pub open spec fn fields_view(entries: Seq<(String, String)>) -> Map<Seq<char>, Seq<char>>
    decreases entries.len(),
{
    if entries.len() == 0 {
        Map::empty()
    } else {
        fields_view(entries.drop_last()).insert(entries.last().0@, entries.last().1@)
    }
}

impl View for FormFields {
    type V = Map<Seq<char>, Seq<char>>;

    open spec fn view(&self) -> Map<Seq<char>, Seq<char>> {
        fields_view(self.entries@)
    }
}

/// The value of a field, where there is one.
pub open spec fn field(m: Map<Seq<char>, Seq<char>>, name: Seq<char>) -> Option<Seq<char>> {
    if m.contains_key(name) {
        Some(m[name])
    } else {
        None
    }
}

impl FormFields {
    /// The value of a field, where there is one.
    pub fn get(&self, name: &str) -> (r: Option<&str>)
        ensures
            crate::text::opt_str_view(r) == field(self@, name@),
    {
        let ghost all = self.entries@;
        let mut i: usize = self.entries.len();
        proof {
            assert(all.take(i as int) =~= all);
        }
        while i > 0
            invariant
                i <= all.len(),
                all == self.entries@,
                field(self@, name@) == field(fields_view(all.take(i as int)), name@),
            decreases i,
        {
            i = i - 1;
            proof {
                assert(all.take(i + 1).drop_last() =~= all.take(i as int));
                assert(all.take(i + 1).last() == all[i as int]);
            }
            if str_eq(self.entries[i].0.as_str(), name) {
                return Some(self.entries[i].1.as_str());
            }
        }
        None
    }

    /// The value of a field, owned, where there is one.
    pub fn get_owned(&self, name: &str) -> (r: Option<String>)
        ensures
            opt_view(r) == field(self@, name@),
    {
        match self.get(name) {
            Some(v) => Some(v.to_owned()),
            None => None,
        }
    }
}

// ---- parts ------------------------------------------------------------

/// What the header lines of a part say.
#[verifier::ext_equal]
pub struct HeadSpec {
    pub name: Option<Seq<char>>,
    pub content_type: Option<Seq<char>>,
    pub is_file: bool,
}

/// What the header lines of a part say.
#[derive(Debug)]
pub struct PartHead {
    pub name: Option<String>,
    pub content_type: Option<String>,
    pub is_file: bool,
}

impl View for PartHead {
    type V = HeadSpec;

    open spec fn view(&self) -> HeadSpec {
        HeadSpec {
            name: opt_view(self.name),
            content_type: opt_view(self.content_type),
            is_file: self.is_file,
        }
    }
}

/// The head after one more header line.
pub open spec fn head_step(h: HeadSpec, line: Seq<char>) -> HeadSpec {
    match after_prefix(trim(line), "Content-Disposition:"@) {
        Some(rest) => {
            let cd = trim(rest);
            HeadSpec {
                name: match attr_of(cd, "name"@) {
                    Some(n) => Some(n),
                    None => h.name,
                },
                is_file: contains_text(cd, "filename="@),
                ..h
            }
        },
        None => match after_prefix(trim(line), "Content-Type:"@) {
            Some(rest) => HeadSpec { content_type: Some(trim(rest)), ..h },
            None => h,
        },
    }
}

/// What several header lines say.
pub open spec fn head_of(ls: Seq<Seq<char>>) -> HeadSpec
    decreases ls.len(),
{
    if ls.len() == 0 {
        HeadSpec { name: None, content_type: None, is_file: false }
    } else {
        head_step(head_of(ls.drop_last()), ls.last())
    }
}

/// A part cut at its first blank line: its header, and what follows. White space
/// around the whole part makes no blank line, so a part with nothing but white
/// space after its header is not cut.
pub open spec fn cut_part(part: Seq<u8>) -> Option<(Seq<u8>, Seq<u8>)> {
    let whole = trim_front(part);
    match find(trim_back(whole), crlf_blank()) {
        Some(i) => Some((whole.take(i), whole.skip(i + 4))),
        None => match find(trim_back(whole), lf_blank()) {
            Some(i) => Some((whole.take(i), whole.skip(i + 2))),
            None => None,
        },
    }
}

/// What a part holds: all that follows its blank line but the line end that
/// belongs to the next delimiter.
pub open spec fn part_content(rest: Seq<u8>) -> Seq<u8> {
    if rest.len() >= 2 && rest[rest.len() - 2] == 13 && rest.last() == 10 {
        rest.take(rest.len() - 2)
    } else if rest.len() >= 1 && rest.last() == 10 {
        rest.take(rest.len() - 1)
    } else {
        rest
    }
}

/// The data URL of bytes, of an unspecific media type where none is named.
pub open spec fn data_url(content_type: Option<Seq<char>>, content: Seq<u8>) -> Seq<char> {
    let ct = match content_type {
        Some(t) => t,
        None => "application/octet-stream"@,
    };
    "data:"@ + ct + ";base64,"@ + base64_standard(content)
}

/// The text of a field: without white space at its end, and without the line ends
/// and dashes that close it. None where it is blank.
pub open spec fn text_value(text: Seq<char>) -> Option<Seq<char>> {
    if trim(text).len() == 0 {
        None
    } else {
        Some(
            trim_end_text(trim_end_text(trim_end_text(trim_end(text), "\r\n"@), "--"@), "\r\n"@),
        )
    }
}

/// The value of a part: the data URL of a file, or the text of another field.
pub open spec fn part_value(head: HeadSpec, rest: Seq<u8>) -> Option<Seq<char>> {
    if head.is_file {
        Some(data_url(head.content_type, part_content(rest)))
    } else {
        text_value(utf8_lossy(rest))
    }
}

/// The field of a part: none where it has no blank line, has no name, or is a
/// blank text.
pub open spec fn part_field(part: Seq<u8>) -> Option<(Seq<char>, Seq<char>)> {
    match cut_part(part) {
        Some((header, rest)) => {
            let head = head_of(lines(utf8_lossy(header)));
            match (head.name, part_value(head, rest)) {
                (Some(name), Some(value)) => Some((name, value)),
                _ => None,
            }
        },
        None => None,
    }
}

/// The fields of several parts.
pub open spec fn fields_of(parts: Seq<Seq<u8>>) -> Map<Seq<char>, Seq<char>>
    decreases parts.len(),
{
    if parts.len() == 0 {
        Map::empty()
    } else {
        match part_field(parts.last()) {
            Some((name, value)) => fields_of(parts.drop_last()).insert(name, value),
            None => fields_of(parts.drop_last()),
        }
    }
}

/// The bytes that stand before each part.
pub open spec fn delimiter(boundary: Seq<char>) -> Seq<u8> {
    encode_utf8("--"@ + boundary)
}

/// The fields of a form.
pub open spec fn form_of(body: Seq<u8>, boundary: Seq<char>) -> Map<Seq<char>, Seq<char>> {
    fields_of(split_text(body, delimiter(boundary)))
}

/// Takes up one more header line.
fn read_head_line(h: PartHead, line: &str) -> (r: PartHead)
    ensures
        r@ == head_step(h@, line@),
{
    let t = trimmed(line);
    match strip_prefix(t.as_str(), "Content-Disposition:") {
        Some(rest) => {
            let cd = trimmed(rest.as_str());
            let name = match extract_attr(cd.as_str(), "name") {
                Some(n) => Some(n),
                None => h.name,
            };
            let is_file = contains(cd.as_str(), "filename=");
            PartHead { name, content_type: h.content_type, is_file }
        },
        None => match strip_prefix(t.as_str(), "Content-Type:") {
            Some(rest) => {
                let ct = trimmed(rest.as_str());
                PartHead { name: h.name, content_type: Some(ct), is_file: h.is_file }
            },
            None => h,
        },
    }
}

/// What the header lines of a part say.
fn read_head(header: &str) -> (r: PartHead)
    ensures
        r@ == head_of(lines(header@)),
{
    let ls = lines_of(header);
    let ghost all = texts(ls@);
    let mut h = PartHead { name: None, content_type: None, is_file: false };
    let mut i: usize = 0;
    while i < ls.len()
        invariant
            i <= ls@.len(),
            all == texts(ls@),
            h@ == head_of(all.take(i as int)),
        decreases ls@.len() - i,
    {
        proof {
            assert(all.take(i + 1).drop_last() =~= all.take(i as int));
            assert(all.take(i + 1).last() == ls@[i as int]@);
        }
        h = read_head_line(h, ls[i].as_str());
        i = i + 1;
    }
    proof {
        assert(all.take(all.len() as int) =~= all);
    }
    h
}

/// A part cut at the first blank line.
fn cut(part: &[u8]) -> (r: Option<(Vec<u8>, Vec<u8>)>)
    ensures
        match r {
            Some((h, b)) => cut_part(part@) == Some((h@, b@)),
            None => cut_part(part@) is None,
        },
{
    let start = white_front(part);
    let whole = copy_range(part, start, part.len());
    let n = whole.len();
    let end = white_back(whole.as_slice());
    let seen = copy_range(whole.as_slice(), 0, end);
    let crlf: [u8; 4] = [13, 10, 13, 10];
    let lf: [u8; 2] = [10, 10];
    proof {
        assert(part@.subrange(start as int, part@.len() as int) =~= part@.skip(start as int));
        assert(whole@.subrange(0, end as int) =~= whole@.take(end as int));
        assert(crlf@ =~= crlf_blank());
        assert(lf@ =~= lf_blank());
    }
    match find_bytes(seen.as_slice(), crlf.as_slice(), 0) {
        Some(i) => {
            proof {
                assert(whole@.subrange(0, i as int) =~= whole@.take(i as int));
                assert(whole@.subrange(i + 4, n as int) =~= whole@.skip(i + 4));
            }
            Some((copy_range(whole.as_slice(), 0, i), copy_range(whole.as_slice(), i + 4, n)))
        },
        None => match find_bytes(seen.as_slice(), lf.as_slice(), 0) {
            Some(i) => {
                proof {
                    assert(whole@.subrange(0, i as int) =~= whole@.take(i as int));
                    assert(whole@.subrange(i + 2, n as int) =~= whole@.skip(i + 2));
                }
                Some((copy_range(whole.as_slice(), 0, i), copy_range(whole.as_slice(), i + 2, n)))
            },
            None => None,
        },
    }
}

/// What a part holds.
fn content_of(rest: &Vec<u8>) -> (r: Vec<u8>)
    ensures
        r@ == part_content(rest@),
{
    let n = rest.len();
    let end = if n >= 2 && rest[n - 2] == 13 && rest[n - 1] == 10 {
        n - 2
    } else if n >= 1 && rest[n - 1] == 10 {
        n - 1
    } else {
        n
    };
    proof {
        assert(rest@.subrange(0, end as int) =~= rest@.take(end as int));
        assert(rest@.take(n as int) =~= rest@);
    }
    copy_range(rest.as_slice(), 0, end)
}

/// The data URL of bytes.
pub fn make_data_url(content_type: Option<&str>, content: &[u8]) -> (r: String)
    ensures
        r@ == data_url(crate::text::opt_str_view(content_type), content@),
{
    let ct = match content_type {
        Some(t) => t,
        None => "application/octet-stream",
    };
    let data = base64_encode(content);
    let mut url = concat3("data:", ct, ";base64,");
    url.append(data.as_str());
    url
}

/// The text of a field.
pub fn make_text(text: &str) -> (r: Option<String>)
    ensures
        opt_view(r) == text_value(text@),
{
    let t = trimmed(text);
    if is_empty(t.as_str()) {
        return None;
    }
    let e = trimmed_end(text);
    let a = trim_end_matches(e.as_str(), "\r\n");
    let b = trim_end_matches(a.as_str(), "--");
    Some(trim_end_matches(b.as_str(), "\r\n"))
}

/// The value of a part.
fn make_value(head: &PartHead, rest: &Vec<u8>) -> (r: Option<String>)
    ensures
        opt_view(r) == part_value(head@, rest@),
{
    if head.is_file {
        let content = content_of(rest);
        let ct = match &head.content_type {
            Some(t) => Some(t.as_str()),
            None => None,
        };
        Some(make_data_url(ct, content.as_slice()))
    } else {
        let text = lossy_text(rest.as_slice());
        make_text(text.as_str())
    }
}

/// The field of a part.
fn read_part(part: &[u8]) -> (r: Option<(String, String)>)
    ensures
        match r {
            Some((n, v)) => part_field(part@) == Some((n@, v@)),
            None => part_field(part@) is None,
        },
{
    match cut(part) {
        Some((header, rest)) => {
            let text = lossy_text(header.as_slice());
            let head = read_head(text.as_str());
            let value = make_value(&head, &rest);
            match (head.name, value) {
                (Some(name), Some(v)) => Some((name, v)),
                _ => None,
            }
        },
        None => None,
    }
}

/// The fields of a form.
pub fn parse_multipart(body: &[u8], boundary: &str) -> (r: FormFields)
    ensures
        r@ == form_of(body@, boundary@),
{
    let mark = concat("--", boundary);
    let parts = split_bytes(body, mark.as_str().as_bytes());
    let ghost all = byte_seqs(parts@);
    let mut entries: Vec<(String, String)> = Vec::new();
    let mut i: usize = 0;
    while i < parts.len()
        invariant
            i <= parts@.len(),
            all == byte_seqs(parts@),
            fields_view(entries@) == fields_of(all.take(i as int)),
        decreases parts@.len() - i,
    {
        proof {
            assert(all.take(i + 1).drop_last() =~= all.take(i as int));
            assert(all.take(i + 1).last() == parts@[i as int]@);
        }
        match read_part(parts[i].as_slice()) {
            Some(f) => {
                let ghost before = entries@;
                entries.push(f);
                proof {
                    assert(entries@.drop_last() =~= before);
                }
            },
            None => {},
        }
        i = i + 1;
    }
    proof {
        assert(all.take(all.len() as int) =~= all);
    }
    FormFields { entries }
}

// ---- laws -------------------------------------------------------------

/// The part of an uploaded file as it is sent: a line end, the header, a blank
/// line, the bytes of the file and a line end.
pub open spec fn upload_part(header: Seq<u8>, content: Seq<u8>) -> Seq<u8> {
    seq![13u8, 10u8] + header + crlf_blank() + content + seq![13u8, 10u8]
}

/// The header says that the part is a file in the field `name`, and holds no blank
/// line.
pub open spec fn heads_upload(header: Seq<u8>, name: Seq<char>) -> bool {
    &&& header.len() > 0
    &&& !is_white(header[0])
    &&& find(header + crlf_blank(), crlf_blank()) == Some(header.len() as int)
    &&& head_of(lines(utf8_lossy(header))).is_file
    &&& head_of(lines(utf8_lossy(header))).name == Some(name)
}

/// The bytes of an uploaded file come through as they are, whatever they are, if
/// they are more than white space: the part that sends them is the field whose
/// data URL is that of the bytes.
pub proof fn law_upload_comes_through(header: Seq<u8>, content: Seq<u8>, name: Seq<char>)
    requires
        heads_upload(header, name),
        exists|i: int| 0 <= i < content.len() && !is_white(#[trigger] content[i]),
    ensures
        part_field(upload_part(header, content)) == Some(
            (name, data_url(head_of(lines(utf8_lossy(header))).content_type, content)),
        ),
{
    let blank = crlf_blank();
    let front = header + blank;
    let rest = content + seq![13u8, 10u8];
    let part = upload_part(header, content);
    let whole = front + rest;
    let n = header.len() as int;
    assert(part.drop_first().drop_first() =~= whole);
    assert(part.drop_first()[0] == 10u8);
    assert(whole[0] == header[0]);
    assert(trim_front(part) == whole) by {
        reveal_with_fuel(trim_front, 3);
    }
    let seen = trim_back(whole);
    lemma_trim_back(whole);
    let k = choose|k: int| 0 <= k < content.len() && !is_white(#[trigger] content[k]);
    assert(whole[n + 4 + k] == content[k]);
    lemma_find_from(front, blank, 0);
    assert forall|k: int| 0 <= k <= n implies occurs_at(seen, blank, k) == occurs_at(
        front,
        blank,
        k,
    ) by {
        assert(seen.subrange(k, k + 4) =~= front.subrange(k, k + 4));
    }
    lemma_find_from_is(seen, blank, 0, n);
    assert(whole.take(n) =~= header);
    assert(whole.skip(n + 4) =~= rest);
    assert(part_content(rest) =~= content);
}

/// A body made of parts with the delimiter between them has the fields of those
/// parts, if the delimiter stands nowhere else.
pub proof fn law_body_has_the_fields_of_its_parts(parts: Seq<Seq<u8>>, boundary: Seq<char>)
    requires
        keep_clear(parts, delimiter(boundary)),
    ensures
        form_of(join(parts, delimiter(boundary)), boundary) == fields_of(parts),
{
    reveal_strlit("--");
    let text = "--"@ + boundary;
    assert(text.len() > 0);
    assert(delimiter(boundary).len() > 0);
    lemma_split_joined(parts, delimiter(boundary));
}

/// The last part that gives a field gives the field's value.
proof fn lemma_last_field(parts: Seq<Seq<u8>>, at: int, name: Seq<char>, value: Seq<char>)
    requires
        0 <= at < parts.len(),
        part_field(parts[at]) == Some((name, value)),
        forall|j: int|
            at < j < parts.len() ==> (part_field(#[trigger] parts[j]) matches Some(f) ==> f.0
                != name),
    ensures
        fields_of(parts).contains_pair(name, value),
    decreases parts.len(),
{
    if at < parts.len() - 1 {
        let shorter = parts.drop_last();
        assert forall|j: int| at < j < shorter.len() implies (part_field(
            #[trigger] shorter[j],
        ) matches Some(f) ==> f.0 != name) by {
            assert(shorter[j] == parts[j]);
        }
        lemma_last_field(shorter, at, name, value);
        assert(parts[parts.len() - 1] == parts.last());
    }
}

/// A file that is uploaded in a body comes through as it is: where the delimiter
/// stands in none of the parts and no later part is in the same field, the form has
/// the data URL of the file's bytes under the field's name.
pub proof fn law_uploaded_file_is_in_the_form(
    parts: Seq<Seq<u8>>,
    at: int,
    boundary: Seq<char>,
    header: Seq<u8>,
    content: Seq<u8>,
    name: Seq<char>,
)
    requires
        keep_clear(parts, delimiter(boundary)),
        0 <= at < parts.len(),
        parts[at] == upload_part(header, content),
        heads_upload(header, name),
        exists|i: int| 0 <= i < content.len() && !is_white(#[trigger] content[i]),
        forall|j: int|
            at < j < parts.len() ==> (part_field(#[trigger] parts[j]) matches Some(f) ==> f.0
                != name),
    ensures
        form_of(join(parts, delimiter(boundary)), boundary).contains_pair(
            name,
            data_url(head_of(lines(utf8_lossy(header))).content_type, content),
        ),
{
    law_body_has_the_fields_of_its_parts(parts, boundary);
    law_upload_comes_through(header, content, name);
    lemma_last_field(
        parts,
        at,
        name,
        data_url(head_of(lines(utf8_lossy(header))).content_type, content),
    );
}

} // verus!
