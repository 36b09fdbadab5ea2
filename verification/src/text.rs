//! Text operations over sequences of characters.

use vstd::prelude::*;
use vstd::utf8::{decode_utf8, encode_utf8, encode_utf8_decode_utf8, is_ascii_chars, valid_utf8};

verus! {

// ---- building strings -------------------------------------------------

/// `String::push` puts one character at the end of the string.
pub assume_specification[ String::push ](s: &mut String, c: char)
    ensures
        final(s)@ == old(s)@.push(c),
;

/// What `str::to_lowercase` makes of a text that is not ASCII.
pub uninterp spec fn unicode_lowercase(s: Seq<char>) -> Seq<char>;

/// The lower-case form of a text: of an ASCII text, the letters `A` to `Z` made
/// small, else what the rules of Unicode give.
pub open spec fn lowercase(s: Seq<char>) -> Seq<char> {
    if is_ascii_chars(s) {
        ascii_lower(s)
    } else {
        unicode_lowercase(s)
    }
}

/// `str::to_lowercase` gives the lower-case form of a text by the rules of
/// Unicode. Of an ASCII text it changes the letters `A` to `Z` alone; what it
/// makes of another text is part of the name.
pub assume_specification[ str::to_lowercase ](s: &str) -> (r: String)
    ensures
        is_ascii_chars(s@) ==> r@ == ascii_lower(s@),
        !is_ascii_chars(s@) ==> r@ == unicode_lowercase(s@),
;

/// What `String::from_utf8_lossy` makes of bytes that are not UTF-8.
pub uninterp spec fn repaired_utf8(bytes: Seq<u8>) -> Seq<char>;

/// The text of bytes: what they encode, or what repairs them where they are not
/// UTF-8.
pub open spec fn utf8_lossy(bytes: Seq<u8>) -> Seq<char> {
    if valid_utf8(bytes) {
        decode_utf8(bytes)
    } else {
        repaired_utf8(bytes)
    }
}

/// `String::from_utf8_lossy` decodes bytes as UTF-8. Valid UTF-8 is decoded as
/// it is; what replaces an invalid sequence is part of the name.
#[verifier::external_body]
pub(crate) fn lossy_text(bytes: &[u8]) -> (r: String)
    ensures
        valid_utf8(bytes@) ==> r@ == decode_utf8(bytes@),
        !valid_utf8(bytes@) ==> r@ == repaired_utf8(bytes@),
{
    String::from_utf8_lossy(bytes).into_owned()
}

/// The characters of a string.
pub fn chars_of(s: &str) -> (r: Vec<char>)
    ensures
        r@ == s@,
{
    let mut out: Vec<char> = Vec::new();
    for c in it: s.chars()
        invariant
            it.seq() == s@,
            out@ == s@.take(it.index() as int),
    {
        out.push(c);
        proof {
            assert(s@.take(it.index() + 1) =~= s@.take(it.index() as int).push(c));
        }
    }
    proof {
        assert(s@.take(s@.len() as int) =~= s@);
    }
    out
}

/// The string made of the characters from `from` up to `to`.
pub fn string_of_range(v: &Vec<char>, from: usize, to: usize) -> (r: String)
    requires
        from <= to <= v@.len(),
    ensures
        r@ == v@.subrange(from as int, to as int),
{
    let mut out = String::new();
    let mut i: usize = from;
    while i < to
        invariant
            from <= i <= to <= v@.len(),
            out@ == v@.subrange(from as int, i as int),
        decreases to - i,
    {
        out.push(v[i]);
        proof {
            assert(v@.subrange(from as int, i + 1) =~= v@.subrange(from as int, i as int).push(v@[i as int]));
        }
        i = i + 1;
    }
    out
}

/// Whether two strings hold the same characters.
pub fn str_eq(a: &str, b: &str) -> (r: bool)
    ensures
        r == (a@ == b@),
{
    let x = a.as_bytes();
    let y = b.as_bytes();
    proof {
        encode_utf8_decode_utf8(a@);
        encode_utf8_decode_utf8(b@);
    }
    if x.len() != y.len() {
        return false;
    }
    let mut i: usize = 0;
    while i < x.len()
        invariant
            i <= x@.len(),
            x@.len() == y@.len(),
            x@ == encode_utf8(a@),
            y@ == encode_utf8(b@),
            decode_utf8(encode_utf8(a@)) == a@,
            decode_utf8(encode_utf8(b@)) == b@,
            forall|k: int| 0 <= k < i ==> x@[k] == y@[k],
        decreases x@.len() - i,
    {
        if x[i] != y[i] {
            return false;
        }
        i = i + 1;
    }
    proof {
        assert(x@ =~= y@);
    }
    true
}

/// Whether the string has no character.
pub fn is_empty(s: &str) -> (r: bool)
    ensures
        r == (s@.len() == 0),
{
    proof {
        reveal_strlit("");
        assert(s@.len() == 0 ==> s@ =~= ""@);
    }
    str_eq(s, "")
}

/// The three strings one after the other.
pub fn concat3(a: &str, b: &str, c: &str) -> (r: String)
    ensures
        r@ == a@ + b@ + c@,
{
    let mut out = concat(a, b);
    out.append(c);
    out
}

/// One string after the other.
pub fn concat(a: &str, b: &str) -> (r: String)
    ensures
        r@ == a@ + b@,
{
    let mut out = a.to_owned();
    out.append(b);
    out
}

// ---- white space ------------------------------------------------------

/// The characters with the Unicode property `White_Space`.
pub open spec fn is_space(c: char) -> bool {
    ||| '\u{9}' <= c <= '\u{d}'
    ||| c == ' '
    ||| c == '\u{85}'
    ||| c == '\u{a0}'
    ||| c == '\u{1680}'
    ||| '\u{2000}' <= c <= '\u{200a}'
    ||| c == '\u{2028}'
    ||| c == '\u{2029}'
    ||| c == '\u{202f}'
    ||| c == '\u{205f}'
    ||| c == '\u{3000}'
}

/// Whether a character is white space.
pub fn is_space_char(c: char) -> (r: bool)
    ensures
        r == is_space(c),
{
    ('\u{9}' <= c && c <= '\u{d}') || c == ' ' || c == '\u{85}' || c == '\u{a0}' || c == '\u{1680}'
        || ('\u{2000}' <= c && c <= '\u{200a}') || c == '\u{2028}' || c == '\u{2029}' || c
        == '\u{202f}' || c == '\u{205f}' || c == '\u{3000}'
}

/// `s` without its leading white space.
pub open spec fn trim_start(s: Seq<char>) -> Seq<char>
    decreases s.len(),
{
    if s.len() > 0 && is_space(s[0]) {
        trim_start(s.drop_first())
    } else {
        s
    }
}

/// `s` without its trailing white space.
pub open spec fn trim_end(s: Seq<char>) -> Seq<char>
    decreases s.len(),
{
    if s.len() > 0 && is_space(s.last()) {
        trim_end(s.drop_last())
    } else {
        s
    }
}

/// `s` without white space at either end.
pub open spec fn trim(s: Seq<char>) -> Seq<char> {
    trim_end(trim_start(s))
}

/// The string without white space at either end.
pub fn trimmed(s: &str) -> (r: String)
    ensures
        r@ == trim(s@),
{
    let v = chars_of(s);
    let mut i: usize = 0;
    proof {
        assert(s@.skip(0) =~= s@);
    }
    while i < v.len() && is_space_char(v[i])
        invariant
            v@ == s@,
            i <= v@.len(),
            trim_start(s@) == trim_start(s@.skip(i as int)),
        decreases v@.len() - i,
    {
        proof {
            assert(s@.skip(i as int).drop_first() =~= s@.skip(i + 1));
        }
        i = i + 1;
    }
    let mut j: usize = v.len();
    proof {
        assert(s@.subrange(i as int, j as int) =~= s@.skip(i as int));
    }
    while j > i && is_space_char(v[j - 1])
        invariant
            v@ == s@,
            i <= j <= v@.len(),
            trim_start(s@) == s@.skip(i as int),
            trim(s@) == trim_end(s@.subrange(i as int, j as int)),
        decreases j,
    {
        proof {
            assert(s@.subrange(i as int, j as int).drop_last() =~= s@.subrange(i as int, j - 1));
        }
        j = j - 1;
    }
    string_of_range(&v, i, j)
}

/// The string without white space at its end.
pub fn trimmed_end(s: &str) -> (r: String)
    ensures
        r@ == trim_end(s@),
{
    let v = chars_of(s);
    let mut j: usize = v.len();
    proof {
        assert(s@.subrange(0, j as int) =~= s@);
    }
    while j > 0 && is_space_char(v[j - 1])
        invariant
            v@ == s@,
            j <= v@.len(),
            trim_end(s@) == trim_end(s@.subrange(0, j as int)),
        decreases j,
    {
        proof {
            assert(s@.subrange(0, j as int).drop_last() =~= s@.subrange(0, j - 1));
        }
        j = j - 1;
    }
    string_of_range(&v, 0, j)
}

// ---- prefixes and suffixes --------------------------------------------

/// `s` begins with `p`.
pub open spec fn begins_with(s: Seq<char>, p: Seq<char>) -> bool {
    p.len() <= s.len() && s.take(p.len() as int) == p
}

/// `s` ends with `p`.
pub open spec fn finishes_with(s: Seq<char>, p: Seq<char>) -> bool {
    p.len() <= s.len() && s.skip(s.len() - p.len()) == p
}

/// What follows the prefix `p` in `s`, where `s` begins with it.
pub open spec fn after_prefix(s: Seq<char>, p: Seq<char>) -> Option<Seq<char>> {
    if begins_with(s, p) {
        Some(s.skip(p.len() as int))
    } else {
        None
    }
}

/// What precedes the suffix `p` in `s`, where `s` ends with it.
pub open spec fn before_suffix(s: Seq<char>, p: Seq<char>) -> Option<Seq<char>> {
    if finishes_with(s, p) {
        Some(s.take(s.len() - p.len()))
    } else {
        None
    }
}

/// The characters of an optional string.
pub open spec fn opt_view(s: Option<String>) -> Option<Seq<char>> {
    match s {
        Some(t) => Some(t@),
        None => None,
    }
}

/// The characters of an optional string slice.
pub open spec fn opt_str_view(s: Option<&str>) -> Option<Seq<char>> {
    match s {
        Some(t) => Some(t@),
        None => None,
    }
}

/// A copy of a text, where there is one.
pub(crate) fn copy_opt(s: &Option<String>) -> (r: Option<String>)
    ensures
        opt_view(r) == opt_view(*s),
{
    match s {
        Some(t) => Some(t.clone()),
        None => None,
    }
}

/// `pat` stands in `s` at position `i`.
pub open spec fn occurs_at<T>(s: Seq<T>, pat: Seq<T>, i: int) -> bool {
    0 <= i && i + pat.len() <= s.len() && s.subrange(i, i + pat.len()) == pat
}

/// Whether `pat` stands in `v` at position `i`.
pub fn matches_at(v: &Vec<char>, pat: &Vec<char>, i: usize) -> (r: bool)
    ensures
        r == occurs_at(v@, pat@, i as int),
{
    if i > v.len() || v.len() - i < pat.len() {
        return false;
    }
    let n = v.len();
    let mut k: usize = 0;
    while k < pat.len()
        invariant
            k <= pat@.len(),
            n == v@.len(),
            i + pat@.len() <= n,
            forall|m: int| 0 <= m < k ==> v@[i + m] == pat@[m],
        decreases pat@.len() - k,
    {
        if v[i + k] != pat[k] {
            proof {
                assert(v@.subrange(i as int, i + pat@.len())[k as int] != pat@[k as int]);
            }
            return false;
        }
        k = k + 1;
    }
    proof {
        assert(v@.subrange(i as int, i + pat@.len()) =~= pat@);
    }
    true
}

/// Whether the string begins with `p`.
pub fn starts_with(s: &str, p: &str) -> (r: bool)
    ensures
        r == begins_with(s@, p@),
{
    let v = chars_of(s);
    let w = chars_of(p);
    proof {
        if p@.len() <= s@.len() {
            assert(s@.subrange(0, p@.len() as int) =~= s@.take(p@.len() as int));
        }
    }
    matches_at(&v, &w, 0)
}

/// Whether the string ends with `p`.
pub fn ends_with(s: &str, p: &str) -> (r: bool)
    ensures
        r == finishes_with(s@, p@),
{
    let v = chars_of(s);
    let w = chars_of(p);
    if v.len() < w.len() {
        return false;
    }
    proof {
        assert(s@.subrange(s@.len() - p@.len(), s@.len() as int) =~= s@.skip(s@.len() - p@.len()));
    }
    matches_at(&v, &w, v.len() - w.len())
}

/// What follows the prefix `p`, where the string begins with it.
pub fn strip_prefix(s: &str, p: &str) -> (r: Option<String>)
    ensures
        opt_view(r) == after_prefix(s@, p@),
{
    if starts_with(s, p) {
        let v = chars_of(s);
        let w = chars_of(p);
        proof {
            assert(s@.subrange(p@.len() as int, s@.len() as int) =~= s@.skip(p@.len() as int));
        }
        Some(string_of_range(&v, w.len(), v.len()))
    } else {
        None
    }
}

/// What precedes the suffix `p`, where the string ends with it.
pub fn strip_suffix(s: &str, p: &str) -> (r: Option<String>)
    ensures
        opt_view(r) == before_suffix(s@, p@),
{
    if ends_with(s, p) {
        let v = chars_of(s);
        let w = chars_of(p);
        proof {
            assert(s@.subrange(0, s@.len() - p@.len()) =~= s@.take(s@.len() - p@.len()));
        }
        Some(string_of_range(&v, 0, v.len() - w.len()))
    } else {
        None
    }
}

// ---- searching --------------------------------------------------------

/// The first position at or after `from` where `pat` stands in `s`.
pub open spec fn find_from<T>(s: Seq<T>, pat: Seq<T>, from: int) -> Option<int>
    decreases s.len() + 1 - from,
{
    if from < 0 || from + pat.len() > s.len() {
        None
    } else if occurs_at(s, pat, from) {
        Some(from)
    } else {
        find_from(s, pat, from + 1)
    }
}

/// The first position where `pat` stands in `s`.
pub open spec fn find<T>(s: Seq<T>, pat: Seq<T>) -> Option<int> {
    find_from(s, pat, 0)
}

/// `find_from` gives the least position, and gives one wherever there is one.
pub proof fn lemma_find_from<T>(s: Seq<T>, pat: Seq<T>, from: int)
    requires
        from >= 0,
    ensures
        match find_from(s, pat, from) {
            Some(i) => from <= i && occurs_at(s, pat, i) && (forall|k: int|
                from <= k < i ==> !occurs_at(s, pat, k)),
            None => forall|k: int| from <= k ==> !occurs_at(s, pat, k),
        },
    decreases s.len() + 1 - from,
{
    if from + pat.len() <= s.len() && !occurs_at(s, pat, from) {
        lemma_find_from(s, pat, from + 1);
    }
}

/// A position is what `find_from` gives when it is the least one that matches.
pub proof fn lemma_find_from_is<T>(s: Seq<T>, pat: Seq<T>, from: int, i: int)
    requires
        0 <= from <= i,
        occurs_at(s, pat, i),
        forall|k: int| from <= k < i ==> !occurs_at(s, pat, k),
    ensures
        find_from(s, pat, from) == Some(i),
{
    lemma_find_from(s, pat, from);
}

/// The first position at or after `from` where `pat` stands in `v`.
pub fn find_chars(v: &Vec<char>, pat: &Vec<char>, from: usize) -> (r: Option<usize>)
    ensures
        match r {
            Some(i) => find_from(v@, pat@, from as int) == Some(i as int) && from <= i && i + pat@.len()
                <= v@.len() && occurs_at(v@, pat@, i as int),
            None => find_from(v@, pat@, from as int) is None,
        },
{
    let n = v.len();
    let m = pat.len();
    let mut i: usize = from;
    while i <= n && m <= n - i
        invariant
            from <= i,
            n == v@.len(),
            m == pat@.len(),
            find_from(v@, pat@, from as int) == find_from(v@, pat@, i as int),
        decreases n + 1 - i,
    {
        if matches_at(v, pat, i) {
            return Some(i);
        }
        if i == n {
            proof {
                assert(find_from(v@, pat@, i + 1) is None);
            }
            return None;
        }
        i = i + 1;
    }
    None
}

/// `pat` stands somewhere in `s`.
pub open spec fn contains_text(s: Seq<char>, pat: Seq<char>) -> bool {
    find(s, pat) is Some
}

/// Whether `pat` stands somewhere in the string.
pub fn contains(s: &str, pat: &str) -> (r: bool)
    ensures
        r == contains_text(s@, pat@),
{
    let v = chars_of(s);
    let w = chars_of(pat);
    match find_chars(&v, &w, 0) {
        Some(_) => true,
        None => false,
    }
}

/// The last position of `c` in `s`.
pub open spec fn rfind_char(s: Seq<char>, c: char) -> Option<int>
    decreases s.len(),
{
    if s.len() == 0 {
        None
    } else if s.last() == c {
        Some(s.len() - 1)
    } else {
        rfind_char(s.drop_last(), c)
    }
}

/// The last position of `c` in `v`.
pub fn rfind_chars(v: &Vec<char>, c: char) -> (r: Option<usize>)
    ensures
        match r {
            Some(i) => rfind_char(v@, c) == Some(i as int) && i < v@.len(),
            None => rfind_char(v@, c) is None,
        },
{
    let mut j: usize = v.len();
    proof {
        assert(v@.take(j as int) =~= v@);
    }
    while j > 0
        invariant
            j <= v@.len(),
            rfind_char(v@, c) == rfind_char(v@.take(j as int), c),
        decreases j,
    {
        if v[j - 1] == c {
            return Some(j - 1);
        }
        proof {
            assert(v@.take(j as int).drop_last() =~= v@.take(j - 1));
        }
        j = j - 1;
    }
    None
}

/// The first position of `c` in `s`, or its length where there is none.
pub open spec fn index_of_char(s: Seq<char>, c: char) -> int
    decreases s.len(),
{
    if s.len() == 0 || s[0] == c {
        0
    } else {
        1 + index_of_char(s.drop_first(), c)
    }
}

/// `index_of_char` is a position of the sequence or its length.
pub proof fn lemma_index_of_char(s: Seq<char>, c: char)
    ensures
        0 <= index_of_char(s, c) <= s.len(),
        index_of_char(s, c) < s.len() ==> s[index_of_char(s, c)] == c,
        forall|k: int| 0 <= k < index_of_char(s, c) ==> s[k] != c,
    decreases s.len(),
{
    if s.len() > 0 && s[0] != c {
        lemma_index_of_char(s.drop_first(), c);
        assert forall|k: int| 0 <= k < index_of_char(s, c) implies s[k] != c by {
            if k > 0 {
                assert(s[k] == s.drop_first()[k - 1]);
            }
        }
    }
}

/// `index_of_char` is the position before which `c` does not occur.
pub proof fn lemma_index_of_char_is(s: Seq<char>, c: char, i: int)
    requires
        0 <= i <= s.len(),
        i < s.len() ==> s[i] == c,
        forall|k: int| 0 <= k < i ==> s[k] != c,
    ensures
        index_of_char(s, c) == i,
{
    lemma_index_of_char(s, c);
    let j = index_of_char(s, c);
    if j < i {
        assert(s[j] != c);
    }
    if i < j {
        assert(s[i] != c);
    }
}

/// The first position of `c` at or after `from`, or the length of `v`.
pub fn index_of(v: &Vec<char>, c: char, from: usize) -> (r: usize)
    requires
        from <= v@.len(),
    ensures
        from <= r <= v@.len(),
        r - from == index_of_char(v@.skip(from as int), c),
        r < v@.len() ==> v@[r as int] == c,
{
    let mut i: usize = from;
    while i < v.len() && v[i] != c
        invariant
            from <= i <= v@.len(),
            forall|k: int| from <= k < i ==> v@[k] != c,
        decreases v@.len() - i,
    {
        i = i + 1;
    }
    proof {
        let t = v@.skip(from as int);
        assert forall|k: int| 0 <= k < i - from implies t[k] != c by {
            assert(t[k] == v@[from + k]);
        }
        lemma_index_of_char_is(t, c, i - from);
    }
    i
}

// ---- pieces -----------------------------------------------------------

/// The pieces of `s` between the occurrences of `c`.
pub open spec fn split_char(s: Seq<char>, c: char) -> Seq<Seq<char>>
    decreases s.len(),
    via split_char_decreases
{
    let n = index_of_char(s, c);
    if n < s.len() {
        seq![s.take(n)] + split_char(s.skip(n + 1), c)
    } else {
        seq![s]
    }
}

#[via_fn]
proof fn split_char_decreases(s: Seq<char>, c: char) {
    lemma_index_of_char(s, c);
}

/// The characters of each of several strings.
pub open spec fn texts(v: Seq<String>) -> Seq<Seq<char>> {
    v.map_values(|s: String| s@)
}

/// The texts of a longer vector of strings.
pub proof fn lemma_texts_push(v: Seq<String>, s: String)
    ensures
        texts(v.push(s)) == texts(v).push(s@),
{
    assert(texts(v.push(s)) =~= texts(v).push(s@));
}

/// The pieces of the string between the occurrences of `c`.
pub fn split(s: &str, c: char) -> (r: Vec<String>)
    ensures
        texts(r@) == split_char(s@, c),
{
    let v = chars_of(s);
    let mut out: Vec<String> = Vec::new();
    let mut start: usize = 0;
    proof {
        assert(s@.skip(0) =~= s@);
        assert(texts(out@) + split_char(s@, c) =~= split_char(s@, c));
    }
    loop
        invariant_except_break
            v@ == s@,
            start <= v@.len(),
            split_char(s@, c) == texts(out@) + split_char(s@.skip(start as int), c),
        ensures
            split_char(s@, c) == texts(out@),
        decreases v@.len() - start,
    {
        let n = index_of(&v, c, start);
        let ghost rest = s@.skip(start as int);
        let ghost before = texts(out@);
        let piece = string_of_range(&v, start, n);
        proof {
            assert(s@.subrange(start as int, n as int) =~= rest.take(n - start));
            lemma_texts_push(out@, piece);
        }
        out.push(piece);
        if n == v.len() {
            proof {
                assert(rest.take(n - start) =~= rest);
                assert(texts(out@) =~= before + seq![rest]);
            }
            break;
        }
        proof {
            assert(rest.skip(n - start + 1) =~= s@.skip(n + 1));
            assert(texts(out@) + split_char(s@.skip(n + 1), c) =~= before + (seq![rest.take(n - start)]
                + split_char(s@.skip(n + 1), c)));
        }
        start = n + 1;
    }
    out
}

/// A line without the carriage return that may end it.
pub open spec fn without_cr(s: Seq<char>) -> Seq<char> {
    if s.len() > 0 && s.last() == '\r' {
        s.drop_last()
    } else {
        s
    }
}

/// The lines of `s`: each ends at a line feed, which is not part of it, nor is
/// a carriage return right before it. The last line feed is optional.
pub open spec fn lines(s: Seq<char>) -> Seq<Seq<char>>
    decreases s.len(),
    via lines_decreases
{
    let n = index_of_char(s, '\n');
    if s.len() == 0 {
        seq![]
    } else if n < s.len() {
        seq![without_cr(s.take(n))] + lines(s.skip(n + 1))
    } else {
        seq![s]
    }
}

#[via_fn]
proof fn lines_decreases(s: Seq<char>) {
    lemma_index_of_char(s, '\n');
}

/// The lines of the string.
pub fn lines_of(s: &str) -> (r: Vec<String>)
    ensures
        texts(r@) == lines(s@),
{
    let v = chars_of(s);
    let mut out: Vec<String> = Vec::new();
    let mut start: usize = 0;
    proof {
        assert(s@.skip(0) =~= s@);
        assert(texts(out@) + lines(s@) =~= lines(s@));
    }
    while start < v.len()
        invariant
            v@ == s@,
            start <= v@.len(),
            lines(s@) == texts(out@) + lines(s@.skip(start as int)),
        decreases v@.len() - start,
    {
        let n = index_of(&v, '\n', start);
        let ghost rest = s@.skip(start as int);
        let ghost before = texts(out@);
        let whole = n == v.len();
        let end = if !whole && n > start && v[n - 1] == '\r' { n - 1 } else { n };
        let line = string_of_range(&v, start, end);
        proof {
            assert(s@.subrange(start as int, n as int) =~= rest.take(n - start));
            if end < n {
                assert(rest.take(n - start).last() == '\r');
                assert(line@ =~= rest.take(n - start).drop_last());
            } else {
                assert(line@ =~= rest.take(n - start));
                if !whole && n > start {
                    assert(rest.take(n - start).last() == v@[n - 1]);
                }
            }
            lemma_texts_push(out@, line);
        }
        out.push(line);
        if whole {
            proof {
                assert(rest.take(n - start) =~= rest);
                assert(s@.skip(n as int) =~= Seq::<char>::empty());
                assert(texts(out@) + lines(s@.skip(n as int)) =~= before + seq![rest]);
            }
            start = n;
        } else {
            proof {
                assert(rest.skip(n - start + 1) =~= s@.skip(n + 1));
                assert(texts(out@) + lines(s@.skip(n + 1)) =~= before + (seq![
                    without_cr(rest.take(n - start)),
                ] + lines(s@.skip(n + 1))));
            }
            start = n + 1;
        }
    }
    proof {
        assert(s@.skip(start as int) =~= Seq::<char>::empty());
        assert(texts(out@) + lines(Seq::<char>::empty()) =~= texts(out@));
    }
    out
}

/// The pieces of `s` between the occurrences of `pat`, found from the left.
pub open spec fn split_text<T>(s: Seq<T>, pat: Seq<T>) -> Seq<Seq<T>>
    decreases s.len(),
{
    proof {
        lemma_find_from(s, pat, 0);
    }
    match find(s, pat) {
        Some(i) if pat.len() > 0 => seq![s.take(i)] + split_text(s.skip(i + pat.len()), pat),
        _ => seq![s],
    }
}

/// Matches of a tail are matches of the whole, shifted.
pub proof fn lemma_find_from_skip<T>(s: Seq<T>, pat: Seq<T>, start: int)
    requires
        0 <= start <= s.len(),
    ensures
        match find_from(s, pat, start) {
            Some(i) => find(s.skip(start), pat) == Some(i - start),
            None => find(s.skip(start), pat) is None,
        },
{
    let t = s.skip(start);
    assert forall|k: int| start <= k implies occurs_at(s, pat, k) == occurs_at(t, pat, k - start) by {
        if k + pat.len() <= s.len() {
            assert(s.subrange(k, k + pat.len()) =~= t.subrange(k - start, k - start + pat.len()));
        }
    }
    lemma_find_from(s, pat, start);
    lemma_find_from(t, pat, 0);
    match find_from(s, pat, start) {
        Some(i) => {
            assert forall|k: int| 0 <= k < i - start implies !occurs_at(t, pat, k) by {
                assert(!occurs_at(s, pat, k + start));
            }
            lemma_find_from_is(t, pat, 0, i - start);
        },
        None => {
            match find_from(t, pat, 0) {
                Some(k) => {
                    assert(!occurs_at(s, pat, k + start));
                },
                None => {},
            }
        },
    }
}

/// The parts one after the other, with `sep` between them.
pub open spec fn join<T>(parts: Seq<Seq<T>>, sep: Seq<T>) -> Seq<T>
    decreases parts.len(),
{
    if parts.len() == 0 {
        seq![]
    } else if parts.len() == 1 {
        parts[0]
    } else {
        join(parts.drop_last(), sep) + sep + parts.last()
    }
}

/// Parts, with `sep` between them, begin with the first.
proof fn lemma_join_first<T>(parts: Seq<Seq<T>>, sep: Seq<T>)
    requires
        parts.len() > 1,
    ensures
        join(parts, sep) == parts[0] + sep + join(parts.drop_first(), sep),
    decreases parts.len(),
{
    let rest = parts.drop_first();
    if parts.len() == 2 {
        assert(parts.drop_last() =~= seq![parts[0]]);
        assert(join(parts.drop_last(), sep) == parts[0]);
        assert(join(rest, sep) == parts[1]);
    } else {
        lemma_join_first(parts.drop_last(), sep);
        assert(parts.drop_last().drop_first() =~= rest.drop_last());
        assert(join(parts, sep) =~= parts[0] + sep + join(rest, sep));
    }
}

/// Parts that hold `sep` nowhere, and that make none together with the
/// one that follows them.
pub open spec fn keep_clear<T>(parts: Seq<Seq<T>>, sep: Seq<T>) -> bool {
    &&& parts.len() > 0
    &&& find(parts.last(), sep) is None
    &&& forall|i: int|
        0 <= i < parts.len() - 1 ==> find((#[trigger] parts[i]) + sep, sep) == Some(
            parts[i].len() as int,
        )
}

/// What was joined by `sep` comes apart at it again.
pub proof fn lemma_split_joined<T>(parts: Seq<Seq<T>>, sep: Seq<T>)
    requires
        sep.len() > 0,
        keep_clear(parts, sep),
    ensures
        split_text(join(parts, sep), sep) == parts,
    decreases parts.len(),
{
    let whole = join(parts, sep);
    if parts.len() == 1 {
        assert(split_text(whole, sep) =~= parts);
    } else {
        let rest = parts.drop_first();
        let tail = join(rest, sep);
        let n = parts[0].len() as int;
        let front = parts[0] + sep;
        assert forall|i: int| 0 <= i < rest.len() - 1 implies find((#[trigger] rest[i]) + sep, sep)
            == Some(rest[i].len() as int) by {
            assert(rest[i] == parts[i + 1]);
        }
        lemma_split_joined(rest, sep);
        lemma_join_first(parts, sep);
        lemma_find_from(front, sep, 0);
        assert forall|k: int| 0 <= k <= n implies occurs_at(whole, sep, k) == occurs_at(
            front,
            sep,
            k,
        ) by {
            assert(whole.subrange(k, k + sep.len()) =~= front.subrange(k, k + sep.len()));
        }
        lemma_find_from_is(whole, sep, 0, n);
        assert(whole.take(n) =~= parts[0]);
        assert(whole.skip(n + sep.len()) =~= tail);
        assert(split_text(whole, sep) =~= parts);
    }
}

/// The strings one after the other, with `sep` between them.
pub fn joined(parts: &Vec<String>, sep: &str) -> (r: String)
    ensures
        r@ == join(texts(parts@), sep@),
{
    let mut out = String::new();
    let mut i: usize = 0;
    let ghost all = texts(parts@);
    while i < parts.len()
        invariant
            i <= parts@.len(),
            all == texts(parts@),
            out@ == join(all.take(i as int), sep@),
        decreases parts@.len() - i,
    {
        if i > 0 {
            out.append(sep);
        }
        out.append(parts[i].as_str());
        proof {
            let t = all.take(i + 1);
            assert(t.drop_last() =~= all.take(i as int));
            assert(t.last() == parts@[i as int]@);
            if i == 0 {
                assert(out@ =~= parts@[0]@);
            }
        }
        i = i + 1;
    }
    proof {
        assert(all.take(all.len() as int) =~= all);
    }
    out
}

// ---- characters one by one --------------------------------------------

/// `s` with every `a` replaced by `b`.
pub open spec fn replace_char(s: Seq<char>, a: char, b: char) -> Seq<char> {
    s.map_values(|c: char| if c == a { b } else { c })
}

/// The string with every `a` replaced by `b`.
pub fn replaced(s: &str, a: char, b: char) -> (r: String)
    ensures
        r@ == replace_char(s@, a, b),
{
    let v = chars_of(s);
    let mut out = String::new();
    let mut i: usize = 0;
    while i < v.len()
        invariant
            v@ == s@,
            i <= v@.len(),
            out@ == replace_char(s@.take(i as int), a, b),
        decreases v@.len() - i,
    {
        out.push(if v[i] == a { b } else { v[i] });
        proof {
            assert(out@ =~= replace_char(s@.take(i + 1), a, b));
        }
        i = i + 1;
    }
    proof {
        assert(s@.take(s@.len() as int) =~= s@);
    }
    out
}

/// An ASCII capital letter made small; any other character as it is.
pub open spec fn lower(c: char) -> char {
    if 'A' <= c <= 'Z' {
        ((c as u32) + 32) as char
    } else {
        c
    }
}

/// `s` with its ASCII capital letters made small.
pub open spec fn ascii_lower(s: Seq<char>) -> Seq<char> {
    s.map_values(|c: char| lower(c))
}

/// An ASCII capital letter made small.
pub fn lower_char(c: char) -> (r: char)
    ensures
        r == lower(c),
{
    if 'A' <= c && c <= 'Z' {
        ((c as u8) + 32) as char
    } else {
        c
    }
}

/// The string with its ASCII capital letters made small.
pub fn to_ascii_lower(s: &str) -> (r: String)
    ensures
        r@ == ascii_lower(s@),
{
    let v = chars_of(s);
    let mut out = String::new();
    let mut i: usize = 0;
    while i < v.len()
        invariant
            v@ == s@,
            i <= v@.len(),
            out@ == ascii_lower(s@.take(i as int)),
        decreases v@.len() - i,
    {
        out.push(lower_char(v[i]));
        proof {
            assert(out@ =~= ascii_lower(s@.take(i + 1)));
        }
        i = i + 1;
    }
    proof {
        assert(s@.take(s@.len() as int) =~= s@);
    }
    out
}

/// Whether two strings are equal but for the case of ASCII letters.
pub fn eq_ignore_ascii_case(a: &str, b: &str) -> (r: bool)
    ensures
        r == (ascii_lower(a@) == ascii_lower(b@)),
{
    let x = to_ascii_lower(a);
    let y = to_ascii_lower(b);
    str_eq(x.as_str(), y.as_str())
}

/// `s` without the `c`s that begin it.
pub open spec fn trim_start_char(s: Seq<char>, c: char) -> Seq<char>
    decreases s.len(),
{
    if s.len() > 0 && s[0] == c {
        trim_start_char(s.drop_first(), c)
    } else {
        s
    }
}

/// `s` without the `c`s that end it.
pub open spec fn trim_end_char(s: Seq<char>, c: char) -> Seq<char>
    decreases s.len(),
{
    if s.len() > 0 && s.last() == c {
        trim_end_char(s.drop_last(), c)
    } else {
        s
    }
}

/// The string without the `c`s that begin it.
fn trim_start_matches(s: &str, c: char) -> (r: String)
    ensures
        r@ == trim_start_char(s@, c),
{
    let v = chars_of(s);
    let mut i: usize = 0;
    proof {
        assert(s@.skip(0) =~= s@);
    }
    while i < v.len() && v[i] == c
        invariant
            v@ == s@,
            i <= v@.len(),
            trim_start_char(s@, c) == trim_start_char(s@.skip(i as int), c),
        decreases v@.len() - i,
    {
        proof {
            assert(s@.skip(i as int).drop_first() =~= s@.skip(i + 1));
        }
        i = i + 1;
    }
    proof {
        assert(s@.subrange(i as int, s@.len() as int) =~= s@.skip(i as int));
    }
    string_of_range(&v, i, v.len())
}

/// The string without the `c`s that end it.
pub fn trim_end_of(s: &str, c: char) -> (r: String)
    ensures
        r@ == trim_end_char(s@, c),
{
    let v = chars_of(s);
    let mut j: usize = v.len();
    proof {
        assert(s@.take(j as int) =~= s@);
    }
    while j > 0 && v[j - 1] == c
        invariant
            v@ == s@,
            j <= v@.len(),
            trim_end_char(s@, c) == trim_end_char(s@.take(j as int), c),
        decreases j,
    {
        proof {
            assert(s@.take(j as int).drop_last() =~= s@.take(j - 1));
        }
        j = j - 1;
    }
    proof {
        assert(s@.subrange(0, j as int) =~= s@.take(j as int));
    }
    string_of_range(&v, 0, j)
}

/// The string without the `c`s that begin or end it.
pub fn trim_matches(s: &str, c: char) -> (r: String)
    ensures
        r@ == trim_end_char(trim_start_char(s@, c), c),
{
    let t = trim_start_matches(s, c);
    trim_end_of(t.as_str(), c)
}

/// `s` without the copies of `pat` that end it.
pub open spec fn trim_end_text(s: Seq<char>, pat: Seq<char>) -> Seq<char>
    decreases s.len(),
{
    if pat.len() > 0 && finishes_with(s, pat) {
        trim_end_text(s.take(s.len() - pat.len()), pat)
    } else {
        s
    }
}

/// The string without the copies of `pat` that end it.
pub fn trim_end_matches(s: &str, pat: &str) -> (r: String)
    ensures
        r@ == trim_end_text(s@, pat@),
{
    let v = chars_of(s);
    let w = chars_of(pat);
    let mut j: usize = v.len();
    proof {
        assert(s@.take(j as int) =~= s@);
    }
    while w.len() > 0 && j >= w.len() && matches_at(&v, &w, j - w.len())
        invariant
            v@ == s@,
            w@ == pat@,
            j <= v@.len(),
            trim_end_text(s@, pat@) == trim_end_text(s@.take(j as int), pat@),
        decreases j,
    {
        proof {
            let t = s@.take(j as int);
            assert(t.skip(t.len() - pat@.len()) =~= s@.subrange(j - pat@.len(), j as int));
            assert(t.take(t.len() - pat@.len()) =~= s@.take(j - pat@.len()));
        }
        j = j - w.len();
    }
    proof {
        let t = s@.take(j as int);
        if pat@.len() <= j {
            assert(t.skip(t.len() - pat@.len()) =~= s@.subrange(j - pat@.len(), j as int));
        }
        assert(s@.subrange(0, j as int) =~= t);
    }
    string_of_range(&v, 0, j)
}

// ---- numbers and flags ------------------------------------------------

/// An ASCII decimal digit.
pub open spec fn is_digit(c: char) -> bool {
    '0' <= c <= '9'
}

/// Every character is a decimal digit, and there is one.
pub open spec fn all_digits(s: Seq<char>) -> bool {
    s.len() > 0 && forall|i: int| 0 <= i < s.len() ==> is_digit(#[trigger] s[i])
}

/// The number that decimal digits write down.
pub open spec fn decimal(s: Seq<char>) -> nat
    decreases s.len(),
{
    if s.len() == 0 {
        0
    } else {
        decimal(s.drop_last()) * 10 + ((s.last() as u32) - ('0' as u32)) as nat
    }
}

/// `s` without the sign character `c` that may begin it.
pub open spec fn unsigned_part(s: Seq<char>, c: char) -> Seq<char> {
    if s.len() > 0 && s[0] == c {
        s.skip(1)
    } else {
        s
    }
}

/// What `s` reads as an unsigned number: an optional `+` and decimal digits,
/// whose value is at most the largest `u64`.
pub open spec fn u64_text(s: Seq<char>) -> Option<u64> {
    let t = unsigned_part(s, '+');
    if all_digits(t) && decimal(t) <= u64::MAX {
        Some(decimal(t) as u64)
    } else {
        None
    }
}

/// What `s` reads as a signed number: an optional `+` or `-` and decimal
/// digits, whose value is an `i64`.
pub open spec fn i64_text(s: Seq<char>) -> Option<i64> {
    if s.len() > 0 && s[0] == '-' {
        let t = s.skip(1);
        if all_digits(t) && -decimal(t) >= i64::MIN {
            Some((-decimal(t)) as i64)
        } else {
            None
        }
    } else {
        let t = unsigned_part(s, '+');
        if all_digits(t) && decimal(t) <= i64::MAX {
            Some(decimal(t) as i64)
        } else {
            None
        }
    }
}

/// More digits never make the number smaller.
proof fn lemma_decimal_grows(s: Seq<char>, i: int)
    requires
        0 <= i <= s.len(),
        forall|k: int| 0 <= k < s.len() ==> is_digit(#[trigger] s[k]),
    ensures
        decimal(s.take(i)) <= decimal(s),
    decreases s.len(),
{
    if i < s.len() {
        assert(s.drop_last().take(i) =~= s.take(i));
        lemma_decimal_grows(s.drop_last(), i);
    } else {
        assert(s.take(i) =~= s);
    }
}

/// The value of the decimal digits of `v` from `from` on, where it fits.
fn parse_digits(v: &Vec<char>, from: usize) -> (r: Option<u64>)
    requires
        from <= v@.len(),
    ensures
        r == ({
            let t = v@.skip(from as int);
            if all_digits(t) && decimal(t) <= u64::MAX {
                Some(decimal(t) as u64)
            } else {
                None::<u64>
            }
        }),
{
    let ghost t = v@.skip(from as int);
    if from == v.len() {
        return None;
    }
    let mut i: usize = from;
    while i < v.len()
        invariant
            from <= i <= v@.len(),
            t == v@.skip(from as int),
            forall|k: int| 0 <= k < i - from ==> is_digit(#[trigger] t[k]),
        decreases v@.len() - i,
    {
        if !('0' <= v[i] && v[i] <= '9') {
            proof {
                assert(t[i - from] == v@[i as int]);
            }
            return None;
        }
        proof {
            assert(t[i - from] == v@[i as int]);
        }
        i = i + 1;
    }
    let mut value: u64 = 0;
    let mut j: usize = from;
    proof {
        assert(t.take(0) =~= Seq::<char>::empty());
    }
    while j < v.len()
        invariant
            from <= j <= v@.len(),
            t == v@.skip(from as int),
            forall|k: int| 0 <= k < t.len() ==> is_digit(#[trigger] t[k]),
            value == decimal(t.take(j - from)),
        decreases v@.len() - j,
    {
        proof {
            assert(t[j - from] == v@[j as int]);
        }
        let d: u64 = (v[j] as u64) - ('0' as u64);
        proof {
            let p = t.take(j - from + 1);
            assert(p.drop_last() =~= t.take(j - from));
            assert(p.last() == v@[j as int]);
            assert(decimal(p) == value * 10 + d);
            lemma_decimal_grows(t, j - from + 1);
        }
        if value > (u64::MAX - d) / 10 {
            return None;
        }
        value = value * 10 + d;
        j = j + 1;
    }
    proof {
        assert(t.take(t.len() as int) =~= t);
    }
    Some(value)
}

/// The unsigned number that the string writes down.
pub fn parse_u64(s: &str) -> (r: Option<u64>)
    ensures
        r == u64_text(s@),
{
    let v = chars_of(s);
    let from: usize = if v.len() > 0 && v[0] == '+' { 1 } else { 0 };
    proof {
        assert(s@.skip(0) =~= s@);
    }
    parse_digits(&v, from)
}

/// The signed number that the string writes down.
pub fn parse_i64(s: &str) -> (r: Option<i64>)
    ensures
        r == i64_text(s@),
{
    let v = chars_of(s);
    proof {
        assert(s@.skip(0) =~= s@);
    }
    if v.len() > 0 && v[0] == '-' {
        match parse_digits(&v, 1) {
            Some(n) => if n <= 0x7fff_ffff_ffff_ffff {
                Some(-(n as i64))
            } else if n == 0x8000_0000_0000_0000 {
                Some(i64::MIN)
            } else {
                None
            },
            None => None,
        }
    } else {
        let from: usize = if v.len() > 0 && v[0] == '+' { 1 } else { 0 };
        match parse_digits(&v, from) {
            Some(n) => if n <= 0x7fff_ffff_ffff_ffff {
                Some(n as i64)
            } else {
                None
            },
            None => None,
        }
    }
}

/// What `s` reads as a flag.
pub open spec fn bool_text(s: Seq<char>) -> Option<bool> {
    if s == "true"@ {
        Some(true)
    } else if s == "false"@ {
        Some(false)
    } else {
        None
    }
}

/// The flag that the string writes down.
pub fn parse_bool(s: &str) -> (r: Option<bool>)
    ensures
        r == bool_text(s@),
{
    if str_eq(s, "true") {
        Some(true)
    } else if str_eq(s, "false") {
        Some(false)
    } else {
        None
    }
}

// ---- order ------------------------------------------------------------

/// `a` stands before `b` in the order of their characters.
pub open spec fn before(a: Seq<char>, b: Seq<char>) -> bool
    decreases a.len(),
{
    if b.len() == 0 {
        false
    } else if a.len() == 0 {
        true
    } else {
        a[0] < b[0] || (a[0] == b[0] && before(a.drop_first(), b.drop_first()))
    }
}

/// The texts stand in order, each once.
pub open spec fn ascending(v: Seq<Seq<char>>) -> bool {
    forall|i: int, j: int| 0 <= i < j < v.len() ==> before(#[trigger] v[i], #[trigger] v[j])
}

/// No text stands before itself.
pub proof fn lemma_not_before_itself(a: Seq<char>)
    ensures
        !before(a, a),
    decreases a.len(),
{
    if a.len() > 0 {
        lemma_not_before_itself(a.drop_first());
    }
}

/// The order is transitive.
pub proof fn lemma_before_transitive(a: Seq<char>, b: Seq<char>, c: Seq<char>)
    requires
        before(a, b),
        before(b, c),
    ensures
        before(a, c),
    decreases a.len(),
{
    if a.len() > 0 && a[0] == b[0] && b[0] == c[0] {
        lemma_before_transitive(a.drop_first(), b.drop_first(), c.drop_first());
    }
}

/// Of two texts that differ, one stands before the other.
pub proof fn lemma_before_total(a: Seq<char>, b: Seq<char>)
    ensures
        before(a, b) || before(b, a) || a == b,
    decreases a.len(),
{
    if a.len() == 0 || b.len() == 0 {
        if a.len() == 0 && b.len() == 0 {
            assert(a =~= b);
        }
    } else if a[0] == b[0] {
        lemma_before_total(a.drop_first(), b.drop_first());
        if a.drop_first() == b.drop_first() {
            assert(a =~= seq![a[0]] + a.drop_first());
            assert(b =~= seq![b[0]] + b.drop_first());
        }
    }
}

/// Whether `a` stands before `b`.
pub fn comes_before(a: &str, b: &str) -> (r: bool)
    ensures
        r == before(a@, b@),
{
    let v = chars_of(a);
    let w = chars_of(b);
    let mut i: usize = 0;
    proof {
        assert(a@.skip(0) =~= a@);
        assert(b@.skip(0) =~= b@);
    }
    while i < v.len() && i < w.len()
        invariant
            v@ == a@,
            w@ == b@,
            i <= v@.len(),
            i <= w@.len(),
            before(a@, b@) == before(a@.skip(i as int), b@.skip(i as int)),
        decreases v@.len() - i,
    {
        if v[i] < w[i] {
            return true;
        }
        if v[i] != w[i] {
            return false;
        }
        proof {
            assert(a@.skip(i as int).drop_first() =~= a@.skip(i + 1));
            assert(b@.skip(i as int).drop_first() =~= b@.skip(i + 1));
        }
        i = i + 1;
    }
    i < w.len()
}

/// The texts `now` are the texts `all` and `x`, whatever their order.
pub open spec fn holds_also(now: Seq<Seq<char>>, all: Seq<Seq<char>>, x: Seq<char>) -> bool {
    forall|t: Seq<char>| now.contains(t) <==> (#[trigger] all.contains(t) || t == x)
}

/// What texts hold that another one was put into.
proof fn lemma_insert_contains(all: Seq<Seq<char>>, i: int, x: Seq<char>)
    requires
        0 <= i <= all.len(),
    ensures
        holds_also(all.insert(i, x), all, x),
{
    let now = all.insert(i, x);
    assert forall|t: Seq<char>| now.contains(t) <==> (#[trigger] all.contains(t) || t == x) by {
        if now.contains(t) {
            let k = choose|k: int| 0 <= k < now.len() && now[k] == t;
            if k < i {
                assert(all[k] == t);
            } else if k > i {
                assert(all[k - 1] == t);
            }
        }
        if all.contains(t) {
            let k = choose|k: int| 0 <= k < all.len() && all[k] == t;
            if k < i {
                assert(now[k] == t);
            } else {
                assert(now[k + 1] == t);
            }
        }
        if t == x {
            assert(now[i] == t);
        }
    }
}

/// Puts a text into texts that stand in order, unless it is there.
pub fn insert_in_order(v: &mut Vec<String>, s: String)
    requires
        ascending(texts(old(v)@)),
    ensures
        ascending(texts(final(v)@)),
        holds_also(texts(final(v)@), texts(old(v)@), s@),
{
    let ghost all = texts(v@);
    let ghost x = s@;
    let mut i: usize = 0;
    while i < v.len() && comes_before(v[i].as_str(), s.as_str())
        invariant
            i <= v@.len(),
            all == texts(v@),
            forall|k: int| 0 <= k < i ==> before(#[trigger] all[k], s@),
        decreases v@.len() - i,
    {
        proof {
            assert(all[i as int] == v@[i as int]@);
        }
        i = i + 1;
    }
    if i < v.len() {
        proof {
            assert(all[i as int] == v@[i as int]@);
        }
        if str_eq(v[i].as_str(), s.as_str()) {
            proof {
                assert(all[i as int] == s@);
            }
            return;
        }
        proof {
            lemma_before_total(all[i as int], s@);
        }
    }
    v.insert(i, s);
    proof {
        let now = texts(v@);
        assert(all == texts(old(v)@));
        assert(now =~= all.insert(i as int, s@));
        assert forall|a: int, b: int| 0 <= a < b < now.len() implies before(
            #[trigger] now[a],
            #[trigger] now[b],
        ) by {
            if a < i && b == i {
                assert(now[a] == all[a]);
            } else if a == i {
                assert(now[b] == all[b - 1]);
                if b - 1 > i {
                    assert(before(all[i as int], all[b - 1]));
                    lemma_before_transitive(s@, all[i as int], all[b - 1]);
                }
            } else if a < i && b > i {
                assert(now[a] == all[a] && now[b] == all[b - 1]);
            } else if b < i {
                assert(now[a] == all[a] && now[b] == all[b]);
            } else {
                assert(now[a] == all[a - 1] && now[b] == all[b - 1]);
            }
        }
        lemma_insert_contains(all, i as int, x);
        assert(now == all.insert(i as int, x));
    }
}

/// Texts in order, each once, are told by which texts they are.
pub proof fn law_order_is_unique(a: Seq<Seq<char>>, b: Seq<Seq<char>>)
    requires
        ascending(a),
        ascending(b),
        forall|t: Seq<char>| a.contains(t) <==> b.contains(t),
    ensures
        a == b,
    decreases a.len(),
{
    if a.len() == 0 {
        if b.len() > 0 {
            assert(b.contains(b[0]));
        }
        assert(a =~= b);
    } else {
        assert(a.contains(a[0]));
        assert(b.len() > 0);
        assert(b.contains(b[0]));
        let i = choose|i: int| 0 <= i < b.len() && b[i] == a[0];
        let j = choose|j: int| 0 <= j < a.len() && a[j] == b[0];
        if i > 0 && j > 0 {
            assert(before(b[0], b[i]));
            assert(before(a[0], a[j]));
            lemma_before_transitive(a[0], b[0], a[0]);
            lemma_not_before_itself(a[0]);
        }
        assert(a[0] == b[0]);
        let x = a.drop_first();
        let y = b.drop_first();
        assert forall|t: Seq<char>| x.contains(t) <==> y.contains(t) by {
            if x.contains(t) {
                let k = choose|k: int| 0 <= k < x.len() && x[k] == t;
                assert(a[k + 1] == t);
                assert(a.contains(t));
                assert(before(a[0], a[k + 1]));
                lemma_not_before_itself(t);
                let m = choose|m: int| 0 <= m < b.len() && b[m] == t;
                assert(m > 0);
                assert(y[m - 1] == t);
            }
            if y.contains(t) {
                let k = choose|k: int| 0 <= k < y.len() && y[k] == t;
                assert(b[k + 1] == t);
                assert(b.contains(t));
                assert(before(b[0], b[k + 1]));
                lemma_not_before_itself(t);
                let m = choose|m: int| 0 <= m < a.len() && a[m] == t;
                assert(m > 0);
                assert(x[m - 1] == t);
            }
        }
        assert forall|p: int, q: int| 0 <= p < q < x.len() implies before(
            #[trigger] x[p],
            #[trigger] x[q],
        ) by {
            assert(before(a[p + 1], a[q + 1]));
        }
        assert forall|p: int, q: int| 0 <= p < q < y.len() implies before(
            #[trigger] y[p],
            #[trigger] y[q],
        ) by {
            assert(before(b[p + 1], b[q + 1]));
        }
        law_order_is_unique(x, y);
        assert(a =~= seq![a[0]] + x);
        assert(b =~= seq![b[0]] + y);
    }
}

} // verus!
