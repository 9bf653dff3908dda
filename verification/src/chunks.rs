//! Slicing a payload into pieces that fit the host's message-size ceiling.

use vstd::prelude::*;

verus! {

/// Largest payload, in bytes, of one chunk sent for a local query.
pub const MAX_RETURN_LENGTH: usize = 65000;

/// Largest payload, in bytes, of one chunk sent for a remotely loaded signal.
pub const MAX_CHUNK_SIZE: usize = 32768;

/// Number of chunks of at most `max` bytes that `len` bytes are cut into.
pub open spec fn chunk_count(len: nat, max: nat) -> nat
    recommends
        max > 0,
{
    if len % max == 0 {
        len / max
    } else {
        len / max + 1
    }
}

/// First byte of chunk `i`.
pub open spec fn chunk_start(len: nat, max: nat, i: nat) -> nat {
    if i * max <= len {
        i * max
    } else {
        len
    }
}

/// Chunk `i` of `data`: the bytes from `i * max` up to the next multiple of
/// `max`, or to the end of the data.
pub open spec fn chunk_at(data: Seq<u8>, max: nat, i: nat) -> Seq<u8> {
    data.subrange(
        chunk_start(data.len(), max, i) as int,
        chunk_start(data.len(), max, i + 1) as int,
    )
}

/// The chunks of `data` in order.
pub open spec fn chunks_of(data: Seq<u8>, max: nat) -> Seq<Seq<u8>> {
    Seq::new(chunk_count(data.len(), max), |i: int| chunk_at(data, max, i as nat))
}

/// The pieces one after the other.
pub open spec fn joined(pieces: Seq<Seq<u8>>) -> Seq<u8>
    decreases pieces.len(),
{
    if pieces.len() == 0 {
        Seq::empty()
    } else {
        joined(pieces.drop_last()) + pieces.last()
    }
}

/// Where the chunks lie: chunk `i` of the `chunk_count` chunks starts at
/// `i * max`, every chunk but the last has `max` bytes, and the last one is
/// not empty and ends the data.
pub proof fn lemma_chunk_bounds(len: nat, max: nat, i: nat)
    requires
        max > 0,
        i < chunk_count(len, max),
    ensures
        chunk_start(len, max, i) == i * max,
        i * max < len,
        i + 1 < chunk_count(len, max) ==> chunk_start(len, max, i + 1) == (i + 1) * max,
        i + 1 == chunk_count(len, max) ==> chunk_start(len, max, i + 1) == len,
        0 < chunk_start(len, max, i + 1) - chunk_start(len, max, i) <= max,
{
    let q = len / max;
    let r = len % max;
    assert(len == q * max + r && 0 <= r < max) by (nonlinear_arith)
        requires
            q == len / max,
            r == len % max,
            max > 0,
    ;
    assert(i * max < len) by (nonlinear_arith)
        requires
            len == q * max + r,
            0 <= r < max,
            i < q || (i == q && r > 0),
    ;
    if i + 1 < chunk_count(len, max) {
        assert((i + 1) * max <= len) by (nonlinear_arith)
            requires
                len == q * max + r,
                0 <= r < max,
                i + 1 <= q,
        ;
    } else {
        assert((i + 1) * max >= len) by (nonlinear_arith)
            requires
                len == q * max + r,
                0 <= r < max,
                i + 1 >= q,
                r > 0 ==> i + 1 > q,
        ;
    }
    assert((i + 1) * max == i * max + max) by (nonlinear_arith);
}

/// The number of chunks is the quotient rounded up; no data, no chunk.
pub proof fn lemma_chunk_count(len: nat, max: nat)
    requires
        max > 0,
    ensures
        (chunk_count(len, max) - 1) * max < len || len == 0,
        len <= chunk_count(len, max) * max,
        len == 0 <==> chunk_count(len, max) == 0,
        chunk_count(len, max) <= len,
{
    let q = len / max;
    let r = len % max;
    assert(len == q * max + r && 0 <= r < max) by (nonlinear_arith)
        requires
            q == len / max,
            r == len % max,
            max > 0,
    ;
    assert((q + 1) * max == q * max + max) by (nonlinear_arith);
    assert((q - 1) * max == q * max - max) by (nonlinear_arith);
    assert(q <= q * max) by (nonlinear_arith)
        requires
            max >= 1,
            q >= 0,
    ;
}

/// Joining the first `k` chunks gives the data up to the start of chunk `k`.
pub proof fn lemma_join_prefix(data: Seq<u8>, max: nat, k: nat)
    requires
        max > 0,
        k <= chunk_count(data.len(), max),
    ensures
        joined(chunks_of(data, max).take(k as int)) == data.subrange(
            0,
            chunk_start(data.len(), max, k) as int,
        ),
    decreases k,
{
    let all = chunks_of(data, max);
    if k == 0 {
        assert(0 * max == 0) by (nonlinear_arith);
        assert(joined(all.take(0)) == Seq::<u8>::empty());
    } else {
        lemma_join_prefix(data, max, (k - 1) as nat);
        lemma_chunk_bounds(data.len(), max, (k - 1) as nat);
        assert(all.take(k as int).drop_last() == all.take(k - 1));
        assert(all.take(k as int).last() == chunk_at(data, max, (k - 1) as nat));
        assert(data.subrange(0, chunk_start(data.len(), max, (k - 1) as nat) as int) + chunk_at(
            data,
            max,
            (k - 1) as nat,
        ) == data.subrange(0, chunk_start(data.len(), max, k) as int));
    }
}

/// Cutting data into chunks and joining them in order gives the data back.
pub proof fn lemma_join_chunks(data: Seq<u8>, max: nat)
    requires
        max > 0,
    ensures
        joined(chunks_of(data, max)) == data,
{
    let n = chunk_count(data.len(), max);
    lemma_join_prefix(data, max, n);
    lemma_chunk_count(data.len(), max);
    assert(chunks_of(data, max).take(n as int) == chunks_of(data, max));
    if n > 0 {
        lemma_chunk_bounds(data.len(), max, (n - 1) as nat);
    } else {
        assert(0 * max == 0) by (nonlinear_arith);
    }
    assert(data.subrange(0, data.len() as int) == data);
}

/// Number of chunks of at most `max` bytes for `len` bytes.
pub fn count_chunks(len: usize, max: usize) -> (n: usize)
    requires
        max > 0,
    ensures
        n == chunk_count(len as nat, max as nat),
{
    proof {
        lemma_chunk_count(len as nat, max as nat);
    }
    if len % max == 0 {
        len / max
    } else {
        len / max + 1
    }
}

/// A copy of chunk `i` of `data`.
pub fn chunk_payload(data: &[u8], max: usize, i: usize) -> (r: Vec<u8>)
    requires
        max > 0,
        i < chunk_count(data@.len(), max as nat),
    ensures
        r@ == chunk_at(data@, max as nat, i as nat),
        0 < r@.len() <= max,
{
    proof {
        lemma_chunk_bounds(data@.len(), max as nat, i as nat);
        assert((i as int) * (max as int) == (i as nat) * (max as nat)) by (nonlinear_arith);
        assert(i * max < data@.len());
    }
    let len: usize = data.len();
    let start: usize = i * max;
    let end: usize = if len - start > max {
        start + max
    } else {
        len
    };
    proof {
        assert((i + 1) * max == i * max + max) by (nonlinear_arith);
    }
    let mut r: Vec<u8> = Vec::new();
    let mut k: usize = start;
    while k < end
        invariant
            start <= k <= end <= data.len(),
            r@ == data@.subrange(start as int, k as int),
        decreases end - k,
    {
        r.push(data[k]);
        k += 1;
    }
    r
}

} // verus!
