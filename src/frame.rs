//! Frame decoder: splits a growing receive buffer into CR LF terminated lines.
use bytes::{Buf, BytesMut};
use vstd::prelude::*;
use vstd::slice::{slice_subrange, slice_to_vec};

verus! {

#[verifier::external_type_specification]
#[verifier::external_body]
pub struct ExBytesMut(BytesMut);

/// The bytes a `BytesMut` holds, from its read position to its end.
pub uninterp spec fn buffer_contents(b: BytesMut) -> Seq<u8>;

/// Relies on `BytesMut`'s `Deref<Target = [u8]>`: the slice is exactly the buffered bytes.
#[verifier::external_body]
fn buffered(b: &BytesMut) -> (r: &[u8])
    ensures
        r@ == buffer_contents(*b),
{
    &b[..]
}

/// Relies on `Buf::advance` for `BytesMut`: it drops the first `cnt` bytes
/// (it panics when `cnt` exceeds the length, which `requires` rules out).
#[verifier::external_body]
fn advance_buffer(b: &mut BytesMut, cnt: usize)
    requires
        cnt <= buffer_contents(*old(b)).len(),
    ensures
        buffer_contents(*final(b)) == buffer_contents(*old(b)).subrange(
            cnt as int,
            buffer_contents(*old(b)).len() as int,
        ),
{
    b.advance(cnt)
}

/// Whether `buf` holds no bytes.
pub fn is_empty_buffer(buf: &BytesMut) -> (r: bool)
    ensures
        r == (buffer_contents(*buf).len() == 0),
{
    buffered(buf).len() == 0
}

/// Carriage return followed by line feed starts at index `i` of `b`.
pub open spec fn is_crlf_at(b: Seq<u8>, i: int) -> bool {
    0 <= i && i + 1 < b.len() && b[i] == 13u8 && b[i + 1] == 10u8
}

/// Index of the first line terminator of `b` that starts at or after `i`.
pub open spec fn next_crlf(b: Seq<u8>, i: nat) -> Option<nat>
    decreases b.len() - i,
{
    if i + 1 >= b.len() {
        None
    } else if is_crlf_at(b, i as int) {
        Some(i)
    } else {
        next_crlf(b, i + 1)
    }
}

/// The complete lines of `b`, terminators removed, in order.
pub open spec fn frame_lines(b: Seq<u8>) -> Seq<Seq<u8>>
    decreases b.len(),
{
    match next_crlf(b, 0) {
        Some(p) => {
            proof {
                lemma_next_crlf_found(b, 0);
            }
            seq![b.subrange(0, p as int)] + frame_lines(b.subrange(p + 2 as int, b.len() as int))
        },
        None => seq![],
    }
}

/// What is left of `b` after its last complete line: a partial line, or nothing.
pub open spec fn frame_rest(b: Seq<u8>) -> Seq<u8>
    decreases b.len(),
{
    match next_crlf(b, 0) {
        Some(p) => {
            proof {
                lemma_next_crlf_found(b, 0);
            }
            frame_rest(b.subrange(p + 2 as int, b.len() as int))
        },
        None => b,
    }
}

/// A terminator that `next_crlf` reports is one, lies at or after the start,
/// and no terminator starts before it.
pub proof fn lemma_next_crlf_found(b: Seq<u8>, i: nat)
    ensures
        next_crlf(b, i) matches Some(p) ==> i <= p && is_crlf_at(b, p as int) && forall|j: int|
            i <= j < p ==> !is_crlf_at(b, j),
        next_crlf(b, i) is None ==> forall|j: int| i <= j ==> !is_crlf_at(b, j),
    decreases b.len() - i,
{
    if i + 1 < b.len() && !is_crlf_at(b, i as int) {
        lemma_next_crlf_found(b, i + 1);
    }
}

/// `next_crlf` finds the first terminator in the scanned range.
pub proof fn lemma_next_crlf_first(b: Seq<u8>, i: nat, k: int)
    requires
        i <= k,
        forall|j: int| i <= j < k ==> !is_crlf_at(b, j),
    ensures
        is_crlf_at(b, k) ==> next_crlf(b, i) == Some(k as nat),
        k + 1 >= b.len() ==> next_crlf(b, i) is None,
    decreases k - i,
{
    if i < k {
        lemma_next_crlf_first(b, i + 1, k);
    }
}

/// Lines produced when `input` arrives one byte at a time into a buffer that
/// holds `pending`, the decoder running after every byte.
pub open spec fn lines_fed_bytewise(pending: Seq<u8>, input: Seq<u8>) -> Seq<Seq<u8>>
    decreases input.len(),
{
    if input.len() == 0 {
        seq![]
    } else {
        let b = pending.push(input[0]);
        frame_lines(b) + lines_fed_bytewise(frame_rest(b), input.drop_first())
    }
}

/// Decoding a buffer in two parts, carrying the partial line of the first over
/// to the second, gives the lines and the remainder of decoding it whole.
pub proof fn lemma_frames_split(b1: Seq<u8>, b2: Seq<u8>)
    ensures
        frame_lines(b1 + b2) == frame_lines(b1) + frame_lines(frame_rest(b1) + b2),
        frame_rest(b1 + b2) == frame_rest(frame_rest(b1) + b2),
    decreases b1.len(),
{
    let b = b1 + b2;
    lemma_next_crlf_found(b1, 0);
    match next_crlf(b1, 0) {
        Some(p) => {
            assert forall|j: int| 0 <= j < p implies !is_crlf_at(b, j) by {
                assert(!is_crlf_at(b1, j));
            }
            assert(is_crlf_at(b, p as int));
            lemma_next_crlf_first(b, 0, p as int);
            let t1 = b1.subrange(p + 2 as int, b1.len() as int);
            assert(b.subrange(p + 2 as int, b.len() as int) =~= t1 + b2);
            assert(b.subrange(0, p as int) =~= b1.subrange(0, p as int));
            lemma_frames_split(t1, b2);
            assert(frame_lines(b) =~= frame_lines(b1) + frame_lines(frame_rest(b1) + b2));
        },
        None => {
            assert(frame_lines(b1) + frame_lines(b) =~= frame_lines(b));
        },
    }
}

/// The general form of feeding byte by byte: what a buffer holding `p` yields,
/// followed by what its remainder yields as `input` arrives byte by byte, is
/// what `p` followed by `input` yields at once.
pub proof fn lemma_bytewise_after(p: Seq<u8>, input: Seq<u8>)
    ensures
        frame_lines(p) + lines_fed_bytewise(frame_rest(p), input) == frame_lines(p + input),
    decreases input.len(),
{
    if input.len() == 0 {
        assert(p + input =~= p);
        assert(frame_lines(p) + lines_fed_bytewise(frame_rest(p), input) =~= frame_lines(p));
    } else {
        let r = frame_rest(p);
        let q = r.push(input[0]);
        let tail = input.drop_first();
        lemma_bytewise_after(q, tail);
        assert(q + tail =~= r + input);
        lemma_frames_split(p, input);
        assert(frame_lines(p) + lines_fed_bytewise(r, input) =~= frame_lines(p) + (frame_lines(q)
            + lines_fed_bytewise(frame_rest(q), tail)));
    }
}

/// Bytes fed to the decoder one at a time yield the same lines, in the same
/// order, as the same bytes fed as one chunk.
pub proof fn lemma_bytewise_feeding_matches_whole(input: Seq<u8>)
    ensures
        lines_fed_bytewise(seq![], input) == frame_lines(input),
{
    let e = Seq::<u8>::empty();
    assert(next_crlf(e, 0) is None);
    lemma_bytewise_after(e, input);
    assert(e + input =~= input);
    assert(frame_lines(e) + lines_fed_bytewise(e, input) =~= lines_fed_bytewise(e, input));
}

/// Splits off every complete line of `buf`, leaving only the trailing partial line.
pub fn split_frames(buf: &mut BytesMut) -> (lines: Vec<Vec<u8>>)
    ensures
        lines@.map_values(|l: Vec<u8>| l@) == frame_lines(buffer_contents(*old(buf))),
        buffer_contents(*final(buf)) == frame_rest(buffer_contents(*old(buf))),
{
    let ghost b = buffer_contents(*buf);
    let data = buffered(buf);
    let n = data.len();
    let mut lines: Vec<Vec<u8>> = Vec::new();
    let mut start: usize = 0;
    let mut pos: usize = 0;
    proof {
        assert(b.subrange(0, n as int) =~= b);
        assert(lines@.map_values(|l: Vec<u8>| l@) + frame_lines(b) =~= frame_lines(b));
    }
    while n - pos > 1
        invariant
            data@ == b,
            n == b.len(),
            start <= pos <= n,
            forall|j: int| start <= j < pos ==> !is_crlf_at(b, j),
            frame_lines(b) == lines@.map_values(|l: Vec<u8>| l@) + frame_lines(
                b.subrange(start as int, n as int),
            ),
            frame_rest(b) == frame_rest(b.subrange(start as int, n as int)),
        decreases n - pos,
    {
        if data[pos] == 13u8 && data[pos + 1] == 10u8 {
            let ghost s = b.subrange(start as int, n as int);
            proof {
                assert forall|j: int| 0 <= j < pos - start implies !is_crlf_at(s, j) by {
                    assert(!is_crlf_at(b, j + start));
                }
                assert(is_crlf_at(s, pos - start));
                lemma_next_crlf_first(s, 0, pos - start);
                assert(s.subrange(0, pos - start) == b.subrange(start as int, pos as int));
                assert(s.subrange(pos - start + 2, s.len() as int) == b.subrange(
                    pos + 2,
                    n as int,
                ));
            }
            let line = slice_to_vec(slice_subrange(data, start, pos));
            let ghost before = lines@;
            lines.push(line);
            proof {
                assert(lines@.map_values(|l: Vec<u8>| l@) =~= before.map_values(|l: Vec<u8>| l@).push(
                    line@,
                ));
            }
            start = pos + 2;
            pos = pos + 2;
        } else {
            pos = pos + 1;
        }
    }
    proof {
        let s = b.subrange(start as int, n as int);
        assert forall|j: int| 0 <= j < pos - start implies !is_crlf_at(s, j) by {
            assert(!is_crlf_at(b, j + start));
        }
        lemma_next_crlf_first(s, 0, pos - start);
    }
    advance_buffer(buf, start);
    lines
}

} // verus!
