//! Operations over sequences of bytes: lines, searching, and pieces.

use vstd::prelude::*;

use crate::text::{find_from, lemma_find_from_skip, occurs_at, split_text};

verus! {

/// The byte that ends a line.
pub const LINE_FEED: u8 = 10;

// ---- copies -----------------------------------------------------------

/// The bytes from `from` up to `to`, owned.
pub fn copy_range(bytes: &[u8], from: usize, to: usize) -> (r: Vec<u8>)
    requires
        from <= to <= bytes@.len(),
    ensures
        r@ == bytes@.subrange(from as int, to as int),
{
    let mut out: Vec<u8> = Vec::new();
    let mut i: usize = from;
    while i < to
        invariant
            from <= i <= to <= bytes@.len(),
            out@ == bytes@.subrange(from as int, i as int),
        decreases to - i,
    {
        out.push(bytes[i]);
        proof {
            assert(out@ =~= bytes@.subrange(from as int, i + 1));
        }
        i = i + 1;
    }
    out
}

/// The same bytes, owned.
pub fn copy_bytes(bytes: &[u8]) -> (r: Vec<u8>)
    ensures
        r@ == bytes@,
{
    let r = copy_range(bytes, 0, bytes.len());
    proof {
        assert(bytes@.subrange(0, bytes@.len() as int) =~= bytes@);
    }
    r
}

/// Puts bytes at the end.
pub fn push_bytes(v: &mut Vec<u8>, bytes: &[u8])
    ensures
        final(v)@ == old(v)@ + bytes@,
{
    let mut i: usize = 0;
    let ghost first = v@;
    proof {
        assert(v@ =~= first + bytes@.take(0));
    }
    while i < bytes.len()
        invariant
            i <= bytes@.len(),
            v@ == first + bytes@.take(i as int),
        decreases bytes@.len() - i,
    {
        v.push(bytes[i]);
        proof {
            assert(v@ =~= first + bytes@.take(i + 1));
        }
        i = i + 1;
    }
    proof {
        assert(bytes@.take(bytes@.len() as int) =~= bytes@);
    }
}

/// The bytes of each of several vectors.
pub open spec fn byte_seqs(v: Seq<Vec<u8>>) -> Seq<Seq<u8>> {
    v.map_values(|b: Vec<u8>| b@)
}

/// The bytes of a longer vector of vectors.
pub proof fn lemma_byte_seqs_push(v: Seq<Vec<u8>>, b: Vec<u8>)
    ensures
        byte_seqs(v.push(b)) == byte_seqs(v).push(b@),
{
    assert(byte_seqs(v.push(b)) =~= byte_seqs(v).push(b@));
}

/// Several pieces, one after the other.
pub open spec fn flat<T>(pieces: Seq<Seq<T>>) -> Seq<T>
    decreases pieces.len(),
{
    if pieces.len() == 0 {
        seq![]
    } else {
        flat(pieces.drop_last()) + pieces.last()
    }
}

/// Pieces one after the other, in two parts.
pub proof fn lemma_flat_add<T>(a: Seq<Seq<T>>, b: Seq<Seq<T>>)
    ensures
        flat(a + b) == flat(a) + flat(b),
    decreases b.len(),
{
    if b.len() == 0 {
        assert(a + b =~= a);
        assert(flat(a) + flat(b) =~= flat(a));
    } else {
        lemma_flat_add(a, b.drop_last());
        assert((a + b).drop_last() =~= a + b.drop_last());
        assert(flat(a + b) =~= flat(a) + flat(b));
    }
}

/// One piece.
pub proof fn lemma_flat_one<T>(piece: Seq<T>)
    ensures
        flat(seq![piece]) == piece,
{
    let one = seq![piece];
    assert(one.drop_last() =~= Seq::<Seq<T>>::empty());
    assert(flat(one.drop_last()) =~= Seq::<T>::empty());
    assert(flat(one) =~= piece);
}

// ---- lines ------------------------------------------------------------

/// The first position of a line feed, or the length where there is none.
pub open spec fn feed_index(s: Seq<u8>) -> int
    decreases s.len(),
{
    if s.len() == 0 || s[0] == LINE_FEED {
        0
    } else {
        1 + feed_index(s.drop_first())
    }
}

/// `feed_index` is a position of the sequence or its length.
pub proof fn lemma_feed_index(s: Seq<u8>)
    ensures
        0 <= feed_index(s) <= s.len(),
        feed_index(s) < s.len() ==> s[feed_index(s)] == LINE_FEED,
        forall|k: int| 0 <= k < feed_index(s) ==> s[k] != LINE_FEED,
    decreases s.len(),
{
    if s.len() > 0 && s[0] != LINE_FEED {
        lemma_feed_index(s.drop_first());
        assert forall|k: int| 0 <= k < feed_index(s) implies s[k] != LINE_FEED by {
            if k > 0 {
                assert(s[k] == s.drop_first()[k - 1]);
            }
        }
    }
}

/// `feed_index` is the position before which there is no line feed.
proof fn lemma_feed_index_is(s: Seq<u8>, i: int)
    requires
        0 <= i <= s.len(),
        i < s.len() ==> s[i] == LINE_FEED,
        forall|k: int| 0 <= k < i ==> s[k] != LINE_FEED,
    ensures
        feed_index(s) == i,
{
    lemma_feed_index(s);
    let j = feed_index(s);
    if j < i {
        assert(s[j] != LINE_FEED);
    }
    if i < j {
        assert(s[i] != LINE_FEED);
    }
}

/// The lines of bytes, each with the line feed that ends it. The last line feed
/// is optional.
pub open spec fn byte_lines(s: Seq<u8>) -> Seq<Seq<u8>>
    decreases s.len(),
    via byte_lines_decreases
{
    let n = feed_index(s);
    if s.len() == 0 {
        seq![]
    } else if n < s.len() {
        seq![s.take(n + 1)] + byte_lines(s.skip(n + 1))
    } else {
        seq![s]
    }
}

#[via_fn]
proof fn byte_lines_decreases(s: Seq<u8>) {
    lemma_feed_index(s);
}

/// The lines of bytes.
pub fn lines_of_bytes(bytes: &[u8]) -> (r: Vec<Vec<u8>>)
    ensures
        byte_seqs(r@) == byte_lines(bytes@),
{
    let n = bytes.len();
    let mut out: Vec<Vec<u8>> = Vec::new();
    let mut start: usize = 0;
    proof {
        assert(bytes@.skip(0) =~= bytes@);
        assert(byte_seqs(out@) + byte_lines(bytes@) =~= byte_lines(bytes@));
    }
    while start < n
        invariant
            n == bytes@.len(),
            start <= n,
            byte_lines(bytes@) == byte_seqs(out@) + byte_lines(bytes@.skip(start as int)),
        decreases n - start,
    {
        let ghost rest = bytes@.skip(start as int);
        let ghost before = byte_seqs(out@);
        let mut i: usize = start;
        while i < n && bytes[i] != LINE_FEED
            invariant
                n == bytes@.len(),
                start <= i <= n,
                forall|k: int| start <= k < i ==> bytes@[k] != LINE_FEED,
            decreases n - i,
        {
            i = i + 1;
        }
        proof {
            assert forall|k: int| 0 <= k < i - start implies rest[k] != LINE_FEED by {
                assert(rest[k] == bytes@[start + k]);
            }
            lemma_feed_index_is(rest, i - start);
        }
        let end = if i < n {
            i + 1
        } else {
            n
        };
        let line = copy_range(bytes, start, end);
        proof {
            assert(line@ =~= rest.take(end - start));
            lemma_byte_seqs_push(out@, line);
            assert(rest.skip(end - start) =~= bytes@.skip(end as int));
            if i >= n {
                assert(rest.take(end - start) =~= rest);
                assert(bytes@.skip(end as int) =~= Seq::<u8>::empty());
            }
            let tail = byte_lines(bytes@.skip(end as int));
            assert(before.push(line@) + tail =~= before + (seq![line@] + tail));
            assert(seq![rest] + Seq::<Seq<u8>>::empty() =~= seq![rest]);
        }
        out.push(line);
        start = end;
    }
    proof {
        assert(bytes@.skip(start as int) =~= Seq::<u8>::empty());
        assert(byte_seqs(out@) + byte_lines(Seq::<u8>::empty()) =~= byte_seqs(out@));
    }
    out
}

/// Bytes that are cut behind a line feed have the lines of both parts.
pub proof fn lemma_lines_split(a: Seq<u8>, b: Seq<u8>)
    requires
        a.len() == 0 || a.last() == LINE_FEED,
    ensures
        byte_lines(a + b) == byte_lines(a) + byte_lines(b),
    decreases a.len(),
{
    if a.len() == 0 {
        assert(a + b =~= b);
        assert(byte_lines(a) + byte_lines(b) =~= byte_lines(b));
    } else {
        lemma_feed_index(a);
        let n = feed_index(a);
        assert(n < a.len()) by {
            if n == a.len() {
                assert(a[a.len() - 1] != LINE_FEED);
            }
        }
        lemma_feed_index_is(a + b, n);
        let rest = a.skip(n + 1);
        if rest.len() > 0 {
            assert(rest.last() == a.last());
        }
        lemma_lines_split(rest, b);
        assert((a + b).take(n + 1) =~= a.take(n + 1));
        assert((a + b).skip(n + 1) =~= rest + b);
        assert(byte_lines(a + b) =~= byte_lines(a) + byte_lines(b));
    }
}

/// The lines one after the other are the bytes.
pub proof fn lemma_lines_flat(s: Seq<u8>)
    ensures
        flat(byte_lines(s)) == s,
    decreases s.len(),
{
    lemma_feed_index(s);
    let n = feed_index(s);
    if s.len() == 0 {
        assert(flat(byte_lines(s)) =~= s);
    } else {
        let first = if n < s.len() {
            s.take(n + 1)
        } else {
            s
        };
        let rest = s.skip(first.len() as int);
        lemma_lines_flat(rest);
        assert(byte_lines(s) =~= seq![first] + byte_lines(rest));
        lemma_flat_add(seq![first], byte_lines(rest));
        lemma_flat_one(first);
        assert(first + rest =~= s);
    }
}

/// A blank line between lines that end in a line feed alone.
pub open spec fn lf_blank() -> Seq<u8> {
    seq![10u8, 10u8]
}

/// A blank line between lines that end in CRLF.
pub open spec fn crlf_blank() -> Seq<u8> {
    seq![13u8, 10u8, 13u8, 10u8]
}

// ---- white space ------------------------------------------------------

/// White space of ASCII.
pub open spec fn is_white(b: u8) -> bool {
    9 <= b <= 13 || b == 32
}

/// Bytes without the white space that they begin with.
pub open spec fn trim_front(s: Seq<u8>) -> Seq<u8>
    decreases s.len(),
{
    if s.len() > 0 && is_white(s[0]) {
        trim_front(s.drop_first())
    } else {
        s
    }
}

/// Bytes without the white space that they end with.
pub open spec fn trim_back(s: Seq<u8>) -> Seq<u8>
    decreases s.len(),
{
    if s.len() > 0 && is_white(s.last()) {
        trim_back(s.drop_last())
    } else {
        s
    }
}

/// Trimming at the end takes nothing away before the last byte that is not white
/// space.
pub proof fn lemma_trim_back(s: Seq<u8>)
    ensures
        trim_back(s).len() <= s.len(),
        trim_back(s) == s.take(trim_back(s).len() as int),
        forall|k: int| 0 <= k < s.len() && !is_white(#[trigger] s[k]) ==> k < trim_back(s).len(),
    decreases s.len(),
{
    if s.len() > 0 && is_white(s.last()) {
        let d = s.drop_last();
        lemma_trim_back(d);
        assert(d.take(trim_back(s).len() as int) =~= s.take(trim_back(s).len() as int));
        assert forall|k: int| 0 <= k < s.len() && !is_white(#[trigger] s[k]) implies k < trim_back(
            s,
        ).len() by {
            assert(d[k] == s[k]);
        }
    } else {
        assert(s.take(s.len() as int) =~= s);
    }
}

/// How many bytes of white space bytes begin with.
pub(crate) fn white_front(bytes: &[u8]) -> (r: usize)
    ensures
        r <= bytes@.len(),
        trim_front(bytes@) == bytes@.skip(r as int),
{
    let mut i: usize = 0;
    proof {
        assert(bytes@.skip(0) =~= bytes@);
    }
    while i < bytes.len() && (bytes[i] == 32 || (9 <= bytes[i] && bytes[i] <= 13))
        invariant
            i <= bytes@.len(),
            trim_front(bytes@) == trim_front(bytes@.skip(i as int)),
        decreases bytes@.len() - i,
    {
        proof {
            assert(bytes@.skip(i as int).drop_first() =~= bytes@.skip(i + 1));
        }
        i = i + 1;
    }
    i
}

/// How many bytes there are before the white space that bytes end with.
pub(crate) fn white_back(bytes: &[u8]) -> (r: usize)
    ensures
        r <= bytes@.len(),
        trim_back(bytes@) == bytes@.take(r as int),
{
    let mut n: usize = bytes.len();
    proof {
        assert(bytes@.take(n as int) =~= bytes@);
    }
    while n > 0 && (bytes[n - 1] == 32 || (9 <= bytes[n - 1] && bytes[n - 1] <= 13))
        invariant
            n <= bytes@.len(),
            trim_back(bytes@) == trim_back(bytes@.take(n as int)),
        decreases n,
    {
        proof {
            assert(bytes@.take(n as int).drop_last() =~= bytes@.take(n - 1));
        }
        n = n - 1;
    }
    n
}

// ---- lines that are complete ------------------------------------------

/// How many bytes there are up to the last line feed, with it.
pub open spec fn last_feed(s: Seq<u8>) -> int
    decreases s.len(),
{
    if s.len() == 0 {
        0
    } else if s.last() == LINE_FEED {
        s.len() as int
    } else {
        last_feed(s.drop_last())
    }
}

/// The lines that are complete.
pub open spec fn whole_lines(s: Seq<u8>) -> Seq<u8> {
    s.take(last_feed(s))
}

/// What follows the lines that are complete.
pub open spec fn open_line(s: Seq<u8>) -> Seq<u8> {
    s.skip(last_feed(s))
}

/// Where the complete lines end.
pub proof fn lemma_last_feed(s: Seq<u8>)
    ensures
        0 <= last_feed(s) <= s.len(),
        last_feed(s) > 0 ==> s[last_feed(s) - 1] == LINE_FEED,
        whole_lines(s) + open_line(s) == s,
        whole_lines(s).len() == 0 || whole_lines(s).last() == LINE_FEED,
        last_feed(open_line(s)) == 0,
    decreases s.len(),
{
    if s.len() > 0 && s.last() != LINE_FEED {
        let front = s.drop_last();
        lemma_last_feed(front);
        assert(open_line(s).drop_last() =~= open_line(front));
        assert(open_line(s).last() == s.last());
    }
    assert(whole_lines(s) + open_line(s) =~= s);
}

/// Where the complete lines of two parts together end.
proof fn lemma_last_feed_add(a: Seq<u8>, b: Seq<u8>)
    ensures
        last_feed(a + b) == if last_feed(b) > 0 {
            a.len() + last_feed(b)
        } else {
            last_feed(a)
        },
    decreases b.len(),
{
    if b.len() == 0 {
        assert(a + b =~= a);
    } else {
        assert((a + b).drop_last() =~= a + b.drop_last());
        assert((a + b).last() == b.last());
        lemma_last_feed_add(a, b.drop_last());
    }
}

/// However bytes are cut, the same complete lines come out of them: what is left
/// of the first part is put before the second.
pub proof fn lemma_whole_lines_cut(a: Seq<u8>, b: Seq<u8>)
    ensures
        whole_lines(a + b) == whole_lines(a) + whole_lines(open_line(a) + b),
        open_line(a + b) == open_line(open_line(a) + b),
{
    lemma_last_feed(a);
    lemma_last_feed(b);
    lemma_last_feed_add(a, b);
    lemma_last_feed_add(open_line(a), b);
    assert(whole_lines(a + b) =~= whole_lines(a) + whole_lines(open_line(a) + b));
    assert(open_line(a + b) =~= open_line(open_line(a) + b));
}

/// How many bytes there are up to the last line feed, with it.
pub fn complete_length(bytes: &Vec<u8>) -> (r: usize)
    ensures
        r == last_feed(bytes@),
        r <= bytes@.len(),
{
    let mut i: usize = bytes.len();
    proof {
        assert(bytes@.take(i as int) =~= bytes@);
    }
    while i > 0 && bytes[i - 1] != LINE_FEED
        invariant
            i <= bytes@.len(),
            last_feed(bytes@) == last_feed(bytes@.take(i as int)),
        decreases i,
    {
        proof {
            assert(bytes@.take(i as int).drop_last() =~= bytes@.take(i - 1));
        }
        i = i - 1;
    }
    i
}

/// Puts bytes at the end, and takes out the lines that are complete.
pub fn take_whole_lines(pending: &mut Vec<u8>, bytes: &[u8]) -> (r: Vec<u8>)
    ensures
        r@ == whole_lines(old(pending)@ + bytes@),
        final(pending)@ == open_line(old(pending)@ + bytes@),
{
    push_bytes(pending, bytes);
    let n = complete_length(pending);
    let len = pending.len();
    let out = copy_range(pending.as_slice(), 0, n);
    let rest = copy_range(pending.as_slice(), n, len);
    proof {
        assert(out@ =~= whole_lines(pending@));
        assert(rest@ =~= open_line(pending@));
    }
    *pending = rest;
    out
}

// ---- searching --------------------------------------------------------

/// Whether `pat` stands in `v` at position `i`.
pub fn bytes_match_at(v: &[u8], pat: &[u8], i: usize) -> (r: bool)
    ensures
        r == occurs_at(v@, pat@, i as int),
{
    if i > v.len() || v.len() - i < pat.len() {
        return false;
    }
    let n = v.len();
    let mut k: usize = 0;
    while k < pat.len()
        invariant
            k <= pat@.len(),
            n == v@.len(),
            i + pat@.len() <= n,
            forall|m: int| 0 <= m < k ==> v@[i + m] == pat@[m],
        decreases pat@.len() - k,
    {
        if v[i + k] != pat[k] {
            proof {
                assert(v@.subrange(i as int, i + pat@.len())[k as int] != pat@[k as int]);
            }
            return false;
        }
        k = k + 1;
    }
    proof {
        assert(v@.subrange(i as int, i + pat@.len()) =~= pat@);
    }
    true
}

/// The first position at or after `from` where `pat` stands in `v`.
pub fn find_bytes(v: &[u8], pat: &[u8], from: usize) -> (r: Option<usize>)
    ensures
        match r {
            Some(i) => find_from(v@, pat@, from as int) == Some(i as int) && from <= i && i
                + pat@.len() <= v@.len() && occurs_at(v@, pat@, i as int),
            None => find_from(v@, pat@, from as int) is None,
        },
{
    let n = v.len();
    let m = pat.len();
    let mut i: usize = from;
    while i <= n && m <= n - i
        invariant
            from <= i,
            n == v@.len(),
            m == pat@.len(),
            find_from(v@, pat@, from as int) == find_from(v@, pat@, i as int),
        decreases n + 1 - i,
    {
        if bytes_match_at(v, pat, i) {
            return Some(i);
        }
        if i == n {
            proof {
                assert(find_from(v@, pat@, i + 1) is None);
            }
            return None;
        }
        i = i + 1;
    }
    None
}

/// The pieces of bytes between the occurrences of `pat`.
pub fn split_bytes(bytes: &[u8], pat: &[u8]) -> (r: Vec<Vec<u8>>)
    ensures
        byte_seqs(r@) == split_text(bytes@, pat@),
{
    let n = bytes.len();
    let mut out: Vec<Vec<u8>> = Vec::new();
    let mut start: usize = 0;
    proof {
        assert(bytes@.skip(0) =~= bytes@);
        assert(byte_seqs(out@) + split_text(bytes@, pat@) =~= split_text(bytes@, pat@));
    }
    loop
        invariant_except_break
            n == bytes@.len(),
            start <= n,
            split_text(bytes@, pat@) == byte_seqs(out@) + split_text(
                bytes@.skip(start as int),
                pat@,
            ),
        ensures
            split_text(bytes@, pat@) == byte_seqs(out@),
        decreases bytes@.len() - start,
    {
        let ghost rest = bytes@.skip(start as int);
        let ghost before = byte_seqs(out@);
        let found = find_bytes(bytes, pat, start);
        proof {
            lemma_find_from_skip(bytes@, pat@, start as int);
        }
        match found {
            Some(i) if pat.len() > 0 => {
                let piece = copy_range(bytes, start, i);
                proof {
                    assert(piece@ =~= rest.take(i - start));
                    lemma_byte_seqs_push(out@, piece);
                    assert(rest.skip(i - start + pat@.len()) =~= bytes@.skip(i + pat@.len()));
                }
                out.push(piece);
                proof {
                    let tail = split_text(bytes@.skip(i + pat@.len()), pat@);
                    assert(byte_seqs(out@) + tail =~= before + (seq![rest.take(i - start)] + tail));
                }
                start = i + pat.len();
            },
            _ => {
                let piece = copy_range(bytes, start, n);
                proof {
                    assert(piece@ =~= rest);
                    lemma_byte_seqs_push(out@, piece);
                }
                out.push(piece);
                proof {
                    assert(byte_seqs(out@) =~= before + seq![rest]);
                }
                break;
            },
        }
    }
    out
}

} // verus!
