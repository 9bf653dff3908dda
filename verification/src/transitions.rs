//! Encoding the value changes of a signal for the host: as literal text or
//! delta-compressed, cut into chunks; and the value of a signal at one time.

use crate::chunks::{
    chunk_at, chunk_count, chunk_payload, count_chunks, lemma_chunk_count, MAX_CHUNK_SIZE,
    MAX_RETURN_LENGTH,
};
use crate::codec::{lz4_compress_frame, lz4_frame_compressed};
use crate::text::{
    append_bytes, append_decimal, append_text, text, append_quoted, bracketed, debug_text, decimal, join_rows, rows_view,
};
use crate::time_table::TimeTable;
use vstd::bytes::{
    lemma_auto_spec_u64_to_from_le_bytes, spec_u64_from_le_bytes, spec_u64_to_le_bytes,
    u64_to_le_bytes,
};
use vstd::prelude::*;
use vstd::string::StringSliceAdditionalSpecFns;
use vstd::utf8::encode_utf8;

verus! {

/// One value change of a signal: the time index at which the signal takes the
/// value, and the value in its literal text form.
pub struct Transition {
    pub time_index: u32,
    pub value: String,
}

/// The loaded history of one signal. `width` is the bit width of its first
/// value, 0 for a signal of strings or reals.
pub struct SignalChanges {
    pub signal_id: u32,
    pub width: u32,
    pub changes: Vec<Transition>,
}

/// One chunk of the literal text of a signal's transitions.
pub struct TransitionChunk {
    pub signal_id: u32,
    pub chunk_count: u32,
    pub chunk_index: u32,
    pub payload: Vec<u8>,
}

/// One chunk of the compressed transitions of a signal, with the width of one
/// value and the size of the payload before compression.
pub struct CompressedChunk {
    pub signal_id: u32,
    pub value_width: u32,
    pub chunk_count: u32,
    pub chunk_index: u32,
    pub payload: Vec<u8>,
    pub original_size: u32,
}

/// Why the transitions of a signal were not encoded.
#[derive(Clone, Copy, Debug, PartialEq, Eq, Structural)]
pub enum EncodeError {
    /// A transition names a time index that the time table does not have.
    TimeIndexOutOfRange,
    /// A transition lies before the one that precedes it.
    TimeGoesBack,
    /// The payload or its chunk count does not fit in 32 bits, or the payload
    /// does not fit in what is left of the size ceiling of its call.
    TooLarge,
    /// The signal has more transitions than the ceiling admits.
    TooManyTransitions,
    /// The compressor reported an error.
    CompressionFailed,
}

/// Every transition names a time index of the table.
pub open spec fn in_range(changes: Seq<Transition>, table: Seq<u64>) -> bool {
    forall|i: int| 0 <= i < changes.len() ==> (#[trigger] changes[i]).time_index < table.len()
}

/// The absolute timestamps of the transitions.
pub open spec fn timestamps(changes: Seq<Transition>, table: Seq<u64>) -> Seq<u64> {
    Seq::new(changes.len(), |i: int| table[changes[i].time_index as int])
}

/// The timestamp of each transition, if every one names a time index of the
/// table.
pub fn resolve_times(changes: &Vec<Transition>, table: &TimeTable) -> (r: Option<Vec<u64>>)
    ensures
        r is Some <==> in_range(changes@, table@),
        r matches Some(times) ==> times@ == timestamps(changes@, table@),
{
    let mut times: Vec<u64> = Vec::new();
    let mut i: usize = 0;
    while i < changes.len()
        invariant
            i <= changes.len(),
            times@.len() == i,
            forall|j: int| 0 <= j < i ==> (#[trigger] changes[j]).time_index < table@.len(),
            forall|j: int| 0 <= j < i ==> times[j] == table@[changes[j].time_index as int],
        decreases changes.len() - i,
    {
        match table.get(changes[i].time_index) {
            Some(t) => {
                times.push(t);
            },
            None => {
                return None;
            },
        }
        i += 1;
    }
    assert(times@ =~= timestamps(changes@, table@));
    Some(times)
}

/// The text of one transition: `[timestamp,"value"]`.
pub open spec fn pair_text(time: u64, value: Seq<char>) -> Seq<u8> {
    seq![91u8] + decimal(time as nat) + seq![44u8] + debug_text(value) + seq![93u8]
}

/// The texts of the transitions.
pub open spec fn pair_rows(changes: Seq<Transition>, table: Seq<u64>) -> Seq<Seq<u8>> {
    Seq::new(
        changes.len(),
        |i: int| pair_text(table[changes[i].time_index as int], changes[i].value@),
    )
}

/// The literal encoding of the transitions: the array of their texts.
pub open spec fn literal_text(changes: Seq<Transition>, table: Seq<u64>) -> Seq<u8> {
    bracketed(pair_rows(changes, table))
}

/// The chunks are those of `data` cut at `max` bytes, each tagged with the
/// signal, its position and their number.
pub open spec fn is_chunking(
    chunks: Seq<TransitionChunk>,
    signal_id: u32,
    data: Seq<u8>,
    max: nat,
) -> bool {
    &&& chunks.len() == chunk_count(data.len(), max)
    &&& forall|i: int|
        0 <= i < chunks.len() ==> {
            &&& (#[trigger] chunks[i]).signal_id == signal_id
            &&& chunks[i].chunk_count == chunks.len()
            &&& chunks[i].chunk_index == i
            &&& chunks[i].payload@ == chunk_at(data, max, i as nat)
        }
}

/// The payloads of the chunks, in order.
pub open spec fn payloads(chunks: Seq<TransitionChunk>) -> Seq<Seq<u8>> {
    Seq::new(chunks.len(), |i: int| chunks[i].payload@)
}

/// Cuts a text into chunks of at most `max` bytes and tags them. A text whose
/// length does not fit in 32 bits is refused.
pub fn transition_chunks(signal_id: u32, data: &Vec<u8>, max: usize) -> (r: Result<
    Vec<TransitionChunk>,
    EncodeError,
>)
    requires
        max > 0,
    ensures
        r is Ok <==> data@.len() <= u32::MAX,
        r matches Ok(chunks) ==> is_chunking(chunks@, signal_id, data@, max as nat),
        r matches Err(e) ==> e == EncodeError::TooLarge,
{
    if data.len() > u32::MAX as usize {
        return Err(EncodeError::TooLarge);
    }
    let count: usize = count_chunks(data.len(), max);
    proof {
        lemma_chunk_count(data@.len(), max as nat);
    }
    let mut chunks: Vec<TransitionChunk> = Vec::new();
    let mut i: usize = 0;
    while i < count
        invariant
            i <= count,
            max > 0,
            count == chunk_count(data@.len(), max as nat),
            count <= u32::MAX,
            chunks@.len() == i,
            forall|j: int|
                0 <= j < i ==> {
                    &&& (#[trigger] chunks[j]).signal_id == signal_id
                    &&& chunks[j].chunk_count == count
                    &&& chunks[j].chunk_index == j
                    &&& chunks[j].payload@ == chunk_at(data@, max as nat, j as nat)
                },
        decreases count - i,
    {
        let payload = chunk_payload(data.as_slice(), max, i);
        chunks.push(
            TransitionChunk { signal_id, chunk_count: count as u32, chunk_index: i as u32, payload },
        );
        i += 1;
    }
    Ok(chunks)
}

/// The text of the transitions as an array of `[timestamp,"value"]` pairs.
pub fn literal_encoding(changes: &Vec<Transition>, table: &TimeTable) -> (r: Option<Vec<u8>>)
    ensures
        r is Some <==> in_range(changes@, table@),
        r matches Some(t) ==> t@ == literal_text(changes@, table@),
{
    let times = match resolve_times(changes, table) {
        Some(times) => times,
        None => {
            return None;
        },
    };
    let mut rows: Vec<Vec<u8>> = Vec::new();
    let mut i: usize = 0;
    while i < changes.len()
        invariant
            i <= changes.len(),
            times@ == timestamps(changes@, table@),
            rows@.len() == i,
            forall|j: int|
                0 <= j < i ==> (#[trigger] rows[j])@ == pair_text(
                    table@[changes[j].time_index as int],
                    changes[j].value@,
                ),
        decreases changes.len() - i,
    {
        let mut row: Vec<u8> = Vec::new();
        row.push(91u8);
        append_decimal(&mut row, times[i]);
        row.push(44u8);
        append_quoted(&mut row, changes[i].value.as_str());
        row.push(93u8);
        rows.push(row);
        i += 1;
    }
    assert(rows_view(rows@) =~= pair_rows(changes@, table@));
    Some(join_rows(&rows))
}

/// The literal encoding of a signal's transitions, cut into chunks of at most
/// `MAX_RETURN_LENGTH` bytes.
pub fn parse_value_change_data_json(
    changes: &Vec<Transition>,
    table: &TimeTable,
    signal_id: u32,
) -> (r: Result<Vec<TransitionChunk>, EncodeError>)
    ensures
        r is Ok <==> in_range(changes@, table@) && literal_text(changes@, table@).len() <= u32::MAX,
        r matches Ok(chunks) ==> is_chunking(
            chunks@,
            signal_id,
            literal_text(changes@, table@),
            MAX_RETURN_LENGTH as nat,
        ),
        r matches Err(e) ==> e == if in_range(changes@, table@) {
            EncodeError::TooLarge
        } else {
            EncodeError::TimeIndexOutOfRange
        },
{
    match literal_encoding(changes, table) {
        Some(text) => transition_chunks(signal_id, &text, MAX_RETURN_LENGTH),
        None => Err(EncodeError::TimeIndexOutOfRange),
    }
}

/// The timestamp before transition `i`: that of its predecessor, 0 for the
/// first.
pub open spec fn prev_time(times: Seq<u64>, i: int) -> int {
    if i == 0 {
        0
    } else {
        times[i - 1] as int
    }
}

/// No transition lies before its predecessor.
pub open spec fn steady(times: Seq<u64>) -> bool {
    forall|i: int| 0 <= i < times.len() ==> prev_time(times, i) <= #[trigger] times[i]
}

/// The time that passes from each transition's predecessor to it.
pub open spec fn deltas(times: Seq<u64>) -> Seq<u64> {
    Seq::new(times.len(), |i: int| (times[i] - prev_time(times, i)) as u64)
}

/// The UTF-8 bytes of the values.
pub open spec fn value_bytes(changes: Seq<Transition>) -> Seq<Seq<u8>> {
    Seq::new(changes.len(), |i: int| encode_utf8(changes[i].value@))
}

/// The first `n` records one after the other: each is the delta as 8
/// little-endian bytes, then the bytes of the value.
pub open spec fn record_bytes(deltas: Seq<u64>, values: Seq<Seq<u8>>, n: nat) -> Seq<u8>
    decreases n,
{
    if n == 0 {
        Seq::empty()
    } else {
        record_bytes(deltas, values, (n - 1) as nat) + spec_u64_to_le_bytes(deltas[n - 1])
            + values[n - 1]
    }
}

/// The payload of the compressed encoding before compression.
pub open spec fn delta_payload(changes: Seq<Transition>, table: Seq<u64>) -> Seq<u8> {
    record_bytes(deltas(timestamps(changes, table)), value_bytes(changes), changes.len())
}

/// The width tag of the compressed encoding: the length in bytes of the last
/// value, 0 without transitions.
pub open spec fn value_width(changes: Seq<Transition>) -> nat {
    if changes.len() == 0 {
        0
    } else {
        encode_utf8(changes.last().value@).len()
    }
}

/// What a receiver reads from a payload of records of `8 + width` bytes: the
/// delta and the value of each.
pub open spec fn decoded_records(raw: Seq<u8>, width: nat) -> Seq<(u64, Seq<u8>)> {
    Seq::new(
        raw.len() / (8 + width),
        |i: int|
            (
                spec_u64_from_le_bytes(raw.subrange(i * (8 + width), i * (8 + width) + 8)),
                raw.subrange(i * (8 + width) + 8, (i + 1) * (8 + width)),
            ),
    )
}

/// The records of `n` values of one width fill `n * (8 + width)` bytes, and
/// record `i` lies at `i * (8 + width)`.
pub proof fn lemma_record_layout(deltas: Seq<u64>, values: Seq<Seq<u8>>, width: nat, n: nat)
    requires
        n <= deltas.len(),
        n <= values.len(),
        forall|i: int| 0 <= i < n ==> (#[trigger] values[i]).len() == width,
    ensures
        record_bytes(deltas, values, n).len() == n * (8 + width),
        forall|i: int|
            0 <= i < n ==> #[trigger] record_bytes(deltas, values, n).subrange(
                i * (8 + width),
                i * (8 + width) + 8,
            ) == spec_u64_to_le_bytes(deltas[i]),
        forall|i: int|
            0 <= i < n ==> #[trigger] record_bytes(deltas, values, n).subrange(
                i * (8 + width) + 8,
                (i + 1) * (8 + width),
            ) == values[i],
    decreases n,
{
    lemma_auto_spec_u64_to_from_le_bytes();
    if n > 0 {
        let m = (n - 1) as nat;
        lemma_record_layout(deltas, values, width, m);
        let head = record_bytes(deltas, values, m);
        let all = record_bytes(deltas, values, n);
        let w = 8 + width;
        assert(n * w == m * w + w) by (nonlinear_arith)
            requires
                n == m + 1,
        ;
        assert(all == head + spec_u64_to_le_bytes(deltas[m as int]) + values[m as int]);
        assert forall|i: int| 0 <= i < n implies #[trigger] all.subrange(i * w, i * w + 8)
            == spec_u64_to_le_bytes(deltas[i]) by {
            lemma_record_place(i, m as int, w as int);
            if i < m {
                assert(all.subrange(i * w, i * w + 8) == head.subrange(i * w, i * w + 8));
            } else {
                assert(all.subrange(i * w, i * w + 8) == spec_u64_to_le_bytes(deltas[m as int]));
            }
        }
        assert forall|i: int| 0 <= i < n implies #[trigger] all.subrange(i * w + 8, (i + 1) * w)
            == values[i] by {
            lemma_record_place(i, m as int, w as int);
            if i < m {
                assert(all.subrange(i * w + 8, (i + 1) * w) == head.subrange(
                    i * w + 8,
                    (i + 1) * w,
                ));
            } else {
                assert(all.subrange(i * w + 8, (i + 1) * w) == values[m as int]);
            }
        }
    } else {
        assert(0 * (8 + width) == 0) by (nonlinear_arith);
    }
}

proof fn lemma_record_place(i: int, m: int, w: int)
    requires
        0 <= i <= m,
        w >= 8,
    ensures
        0 <= i * w,
        (i + 1) * w == i * w + w,
        i < m ==> (i + 1) * w <= m * w,
        i == m ==> i * w == m * w,
{
    assert(0 <= i * w) by (nonlinear_arith)
        requires
            0 <= i,
            w >= 0,
    ;
    assert((i + 1) * w == i * w + w) by (nonlinear_arith);
    if i < m {
        assert((i + 1) * w <= m * w) by (nonlinear_arith)
            requires
                i + 1 <= m,
                w >= 0,
        ;
    }
}

/// Reading back the records written for values of one width gives the deltas
/// and the values that were written, in order.
pub proof fn lemma_records_round_trip(deltas: Seq<u64>, values: Seq<Seq<u8>>, width: nat)
    requires
        deltas.len() == values.len(),
        forall|i: int| 0 <= i < values.len() ==> (#[trigger] values[i]).len() == width,
    ensures
        decoded_records(record_bytes(deltas, values, values.len()), width) == Seq::new(
            values.len(),
            |i: int| (deltas[i], values[i]),
        ),
{
    let n = values.len();
    let raw = record_bytes(deltas, values, n);
    let w = 8 + width;
    lemma_record_layout(deltas, values, width, n);
    lemma_auto_spec_u64_to_from_le_bytes();
    assert(raw.len() / w == n) by (nonlinear_arith)
        requires
            raw.len() == n * w,
            w > 0,
    ;
    assert(decoded_records(raw, width) =~= Seq::new(n, |i: int| (deltas[i], values[i])));
}

/// Reading back the payload written for transitions whose values all have
/// `width` bytes gives, for each transition in order, the time since its
/// predecessor and its value.
pub proof fn lemma_payload_round_trip(changes: Seq<Transition>, table: Seq<u64>, width: nat)
    requires
        forall|i: int| 0 <= i < changes.len() ==> encode_utf8((#[trigger] changes[i]).value@).len()
            == width,
    ensures
        decoded_records(delta_payload(changes, table), width) == Seq::new(
            changes.len(),
            |i: int| (deltas(timestamps(changes, table))[i], encode_utf8(changes[i].value@)),
        ),
{
    let ds = deltas(timestamps(changes, table));
    let vs = value_bytes(changes);
    assert forall|i: int| 0 <= i < vs.len() implies (#[trigger] vs[i]).len() == width by {
        assert(vs[i] == encode_utf8(changes[i].value@));
    }
    lemma_records_round_trip(ds, vs, width);
    assert(Seq::new(vs.len(), |i: int| (ds[i], vs[i])) =~= Seq::new(
        changes.len(),
        |i: int| (deltas(timestamps(changes, table))[i], encode_utf8(changes[i].value@)),
    ));
}

/// The payload of the compressed encoding before compression: for each
/// transition the time since its predecessor as 8 little-endian bytes, then
/// the bytes of its value.
pub fn delta_records(changes: &Vec<Transition>, table: &TimeTable) -> (r: Result<
    Vec<u8>,
    EncodeError,
>)
    ensures
        r is Ok <==> in_range(changes@, table@) && steady(timestamps(changes@, table@)),
        r matches Ok(raw) ==> raw@ == delta_payload(changes@, table@),
        r matches Err(e) ==> e == if in_range(changes@, table@) {
            EncodeError::TimeGoesBack
        } else {
            EncodeError::TimeIndexOutOfRange
        },
{
    let times = match resolve_times(changes, table) {
        Some(times) => times,
        None => {
            return Err(EncodeError::TimeIndexOutOfRange);
        },
    };
    match records_of(&times, changes) {
        Some(raw) => Ok(raw),
        None => Err(EncodeError::TimeGoesBack),
    }
}

/// The records for transitions at the given timestamps, unless a timestamp
/// lies before its predecessor.
fn records_of(times: &Vec<u64>, changes: &Vec<Transition>) -> (r: Option<Vec<u8>>)
    requires
        times@.len() == changes@.len(),
    ensures
        r is Some <==> steady(times@),
        r matches Some(raw) ==> raw@ == record_bytes(
            deltas(times@),
            value_bytes(changes@),
            changes@.len(),
        ),
{
    let ghost ds = deltas(times@);
    let ghost vs = value_bytes(changes@);
    let mut raw: Vec<u8> = Vec::new();
    let mut prev: u64 = 0;
    let mut i: usize = 0;
    while i < changes.len()
        invariant
            i <= changes.len(),
            times@.len() == changes@.len(),
            ds == deltas(times@),
            vs == value_bytes(changes@),
            prev == prev_time(times@, i as int),
            forall|j: int| 0 <= j < i ==> prev_time(times@, j) <= #[trigger] times@[j],
            raw@ == record_bytes(ds, vs, i as nat),
        decreases changes.len() - i,
    {
        let time: u64 = times[i];
        if time < prev {
            assert(prev_time(times@, i as int) > times@[i as int]);
            return None;
        }
        let delta: u64 = time - prev;
        let delta_bytes = u64_to_le_bytes(delta);
        let value = changes[i].value.as_str().as_bytes();
        assert(delta == ds[i as int]);
        assert(value@ == vs[i as int]);
        assert(record_bytes(ds, vs, (i + 1) as nat) == record_bytes(ds, vs, i as nat)
            + spec_u64_to_le_bytes(ds[i as int]) + vs[i as int]);
        append_bytes(&mut raw, delta_bytes.as_slice());
        append_bytes(&mut raw, value);
        prev = time;
        i += 1;
    }
    Some(raw)
}

/// The chunks are those of `frame` cut at `max` bytes, each tagged with the
/// signal, the value width, its position, their number and the size of the
/// payload before compression.
pub open spec fn is_compressed_chunking(
    chunks: Seq<CompressedChunk>,
    signal_id: u32,
    width: u32,
    original_size: u32,
    frame: Seq<u8>,
    max: nat,
) -> bool {
    &&& chunks.len() == chunk_count(frame.len(), max)
    &&& forall|i: int|
        0 <= i < chunks.len() ==> {
            &&& (#[trigger] chunks[i]).signal_id == signal_id
            &&& chunks[i].value_width == width
            &&& chunks[i].chunk_count == chunks.len()
            &&& chunks[i].chunk_index == i
            &&& chunks[i].payload@ == chunk_at(frame, max, i as nat)
            &&& chunks[i].original_size == original_size
        }
}

/// Cuts a compressed payload into chunks of at most `MAX_RETURN_LENGTH` bytes
/// and tags them. A payload with more chunks than fit in 32 bits is refused.
pub fn compressed_chunks(
    signal_id: u32,
    width: u32,
    original_size: u32,
    frame: &Vec<u8>,
) -> (r: Result<Vec<CompressedChunk>, EncodeError>)
    ensures
        r is Ok <==> chunk_count(frame@.len(), MAX_RETURN_LENGTH as nat) <= u32::MAX,
        r matches Ok(chunks) ==> is_compressed_chunking(
            chunks@,
            signal_id,
            width,
            original_size,
            frame@,
            MAX_RETURN_LENGTH as nat,
        ),
        r matches Err(e) ==> e == EncodeError::TooLarge,
{
    let count: usize = count_chunks(frame.len(), MAX_RETURN_LENGTH);
    if count > u32::MAX as usize {
        return Err(EncodeError::TooLarge);
    }
    let mut chunks: Vec<CompressedChunk> = Vec::new();
    let mut i: usize = 0;
    while i < count
        invariant
            i <= count,
            count == chunk_count(frame@.len(), MAX_RETURN_LENGTH as nat),
            count <= u32::MAX,
            chunks@.len() == i,
            forall|j: int|
                0 <= j < i ==> {
                    &&& (#[trigger] chunks[j]).signal_id == signal_id
                    &&& chunks[j].value_width == width
                    &&& chunks[j].chunk_count == count
                    &&& chunks[j].chunk_index == j
                    &&& chunks[j].payload@ == chunk_at(frame@, MAX_RETURN_LENGTH as nat, j as nat)
                    &&& chunks[j].original_size == original_size
                },
        decreases count - i,
    {
        let payload = chunk_payload(frame.as_slice(), MAX_RETURN_LENGTH, i);
        chunks.push(
            CompressedChunk {
                signal_id,
                value_width: width,
                chunk_count: count as u32,
                chunk_index: i as u32,
                payload,
                original_size,
            },
        );
        i += 1;
    }
    Ok(chunks)
}

/// Why the compressed encoding of the transitions fails, if it does.
pub open spec fn compressed_failure(changes: Seq<Transition>, table: Seq<u64>) -> Option<
    EncodeError,
> {
    if !in_range(changes, table) {
        Some(EncodeError::TimeIndexOutOfRange)
    } else if !steady(timestamps(changes, table)) {
        Some(EncodeError::TimeGoesBack)
    } else if delta_payload(changes, table).len() > u32::MAX {
        Some(EncodeError::TooLarge)
    } else {
        match lz4_frame_compressed(delta_payload(changes, table)) {
            None => Some(EncodeError::CompressionFailed),
            Some(frame) => if chunk_count(frame.len(), MAX_RETURN_LENGTH as nat) > u32::MAX {
                Some(EncodeError::TooLarge)
            } else {
                None
            },
        }
    }
}

/// The compressed encoding of a signal's transitions: the delta records run
/// through the frame compressor and cut into chunks of at most
/// `MAX_RETURN_LENGTH` bytes. Where the compressor fails nothing is sent for
/// the signal.
pub fn parse_value_change_data_lz4(
    changes: &Vec<Transition>,
    table: &TimeTable,
    signal_id: u32,
) -> (r: Result<Vec<CompressedChunk>, EncodeError>)
    ensures
        r is Ok <==> compressed_failure(changes@, table@) is None,
        r matches Err(e) ==> compressed_failure(changes@, table@) == Some(e),
        r matches Ok(chunks) ==> lz4_frame_compressed(delta_payload(changes@, table@)) is Some
            && is_compressed_chunking(
            chunks@,
            signal_id,
            value_width(changes@) as u32,
            delta_payload(changes@, table@).len() as u32,
            lz4_frame_compressed(delta_payload(changes@, table@))->0,
            MAX_RETURN_LENGTH as nat,
        ),
{
    let raw = delta_records(changes, table)?;
    if raw.len() > u32::MAX as usize {
        return Err(EncodeError::TooLarge);
    }
    let width: usize = if changes.len() == 0 {
        0
    } else {
        changes[changes.len() - 1].value.as_str().as_bytes().len()
    };
    proof {
        lemma_value_fits(changes@, table@);
    }
    let frame = match lz4_compress_frame(raw.as_slice()) {
        Ok(frame) => frame,
        Err(_) => {
            return Err(EncodeError::CompressionFailed);
        },
    };
    compressed_chunks(signal_id, width as u32, raw.len() as u32, &frame)
}

/// No value is longer than the payload that holds it.
proof fn lemma_value_fits(changes: Seq<Transition>, table: Seq<u64>)
    ensures
        value_width(changes) <= delta_payload(changes, table).len(),
{
    if changes.len() > 0 {
        let n = changes.len();
        let ds = deltas(timestamps(changes, table));
        let vs = value_bytes(changes);
        assert(record_bytes(ds, vs, n) == record_bytes(ds, vs, (n - 1) as nat)
            + spec_u64_to_le_bytes(ds[n - 1]) + vs[n - 1]);
    }
}

/// Whether a signal is sent compressed: only a signal of bit vectors whose
/// transitions are estimated at more than `MAX_RETURN_LENGTH` bytes, at
/// `width + 8` bytes each.
pub open spec fn uses_compression(width: u32, count: nat) -> bool {
    width > 0 && count * (width + 8) > MAX_RETURN_LENGTH
}

/// Whether a signal of this width and number of transitions is sent
/// compressed.
pub fn use_compression(width: u32, count: usize) -> (r: bool)
    ensures
        r == uses_compression(width, count as nat),
{
    if width == 0 {
        return false;
    }
    let per: u128 = width as u128 + 8;
    assert(count * per <= u128::MAX) by (nonlinear_arith)
        requires
            count <= u64::MAX,
            per <= u32::MAX + 8,
    ;
    count as u128 * per > MAX_RETURN_LENGTH as u128
}

/// The encoded transitions of one signal.
pub enum SignalPayload {
    Literal(Vec<TransitionChunk>),
    Compressed(Vec<CompressedChunk>),
}

/// Encodes the transitions of a loaded signal: compressed where
/// `uses_compression` says so, else as literal text.
pub fn encode_signal(signal: &SignalChanges, table: &TimeTable) -> (r: Result<
    SignalPayload,
    EncodeError,
>)
    ensures
        uses_compression(signal.width, signal.changes@.len()) ==> {
            &&& r is Ok <==> compressed_failure(signal.changes@, table@) is None
            &&& r matches Err(e) ==> compressed_failure(signal.changes@, table@) == Some(e)
            &&& r matches Ok(p) ==> p matches SignalPayload::Compressed(chunks)
                && lz4_frame_compressed(delta_payload(signal.changes@, table@)) is Some
                && is_compressed_chunking(
                chunks@,
                signal.signal_id,
                value_width(signal.changes@) as u32,
                delta_payload(signal.changes@, table@).len() as u32,
                lz4_frame_compressed(delta_payload(signal.changes@, table@))->0,
                MAX_RETURN_LENGTH as nat,
            )
        },
        !uses_compression(signal.width, signal.changes@.len()) ==> {
            &&& r is Ok <==> in_range(signal.changes@, table@) && literal_text(
                signal.changes@,
                table@,
            ).len() <= u32::MAX
            &&& r matches Ok(p) ==> p matches SignalPayload::Literal(chunks) && is_chunking(
                chunks@,
                signal.signal_id,
                literal_text(signal.changes@, table@),
                MAX_RETURN_LENGTH as nat,
            )
            &&& r matches Err(e) ==> e == if in_range(signal.changes@, table@) {
                EncodeError::TooLarge
            } else {
                EncodeError::TimeIndexOutOfRange
            }
        },
{
    if use_compression(signal.width, signal.changes.len()) {
        match parse_value_change_data_lz4(&signal.changes, table, signal.signal_id) {
            Ok(chunks) => Ok(SignalPayload::Compressed(chunks)),
            Err(e) => Err(e),
        }
    } else {
        match parse_value_change_data_json(&signal.changes, table, signal.signal_id) {
            Ok(chunks) => Ok(SignalPayload::Literal(chunks)),
            Err(e) => Err(e),
        }
    }
}

/// Most transitions of one signal that are sent for a remotely loaded trace.
pub const MAX_REMOTE_TRANSITIONS: usize = 1000000;

/// Most bytes of text that one blob of remotely loaded signals is turned into.
pub const MAX_REMOTE_BYTES: usize = 16777216;

/// What is sent for a remotely loaded signal when `used` bytes of text went
/// out for the signals before it: its literal text, unless the signal has too
/// many transitions, names a time index that the table lacks, or its text
/// does not fit in what is left of `MAX_REMOTE_BYTES`.
pub open spec fn remote_text(signal: SignalChanges, table: Seq<u64>, used: nat) -> Result<
    Seq<u8>,
    EncodeError,
> {
    if signal.changes@.len() > MAX_REMOTE_TRANSITIONS {
        Err(EncodeError::TooManyTransitions)
    } else if !in_range(signal.changes@, table) {
        Err(EncodeError::TimeIndexOutOfRange)
    } else if used + literal_text(signal.changes@, table).len() > MAX_REMOTE_BYTES {
        Err(EncodeError::TooLarge)
    } else {
        Ok(literal_text(signal.changes@, table))
    }
}

/// The bytes of text that went out for the first `n` signals.
pub open spec fn remote_bytes_used(signals: Seq<SignalChanges>, table: Seq<u64>, n: nat) -> nat
    decreases n,
{
    if n == 0 {
        0
    } else {
        let before = remote_bytes_used(signals, table, (n - 1) as nat);
        match remote_text(signals[n - 1], table, before) {
            Ok(t) => before + t.len(),
            Err(_) => before,
        }
    }
}

/// The transitions of remotely loaded signals as literal text, each signal cut
/// into chunks of at most `MAX_CHUNK_SIZE` bytes. A signal that exceeds a
/// ceiling is skipped, with the reason in its place.
pub fn emit_remote_signals(signals: &Vec<SignalChanges>, table: &TimeTable) -> (r: Vec<
    Result<Vec<TransitionChunk>, EncodeError>,
>)
    ensures
        r@.len() == signals@.len(),
        forall|i: int|
            0 <= i < signals@.len() ==> match remote_text(
                signals@[i],
                table@,
                remote_bytes_used(signals@, table@, i as nat),
            ) {
                Ok(t) => (#[trigger] r@[i]) matches Ok(chunks) && is_chunking(
                    chunks@,
                    signals@[i].signal_id,
                    t,
                    MAX_CHUNK_SIZE as nat,
                ),
                Err(e) => r@[i] matches Err(f) && f == e,
            },
{
    let mut replies: Vec<Result<Vec<TransitionChunk>, EncodeError>> = Vec::new();
    let mut used: usize = 0;
    let mut i: usize = 0;
    while i < signals.len()
        invariant
            i <= signals.len(),
            replies@.len() == i,
            used == remote_bytes_used(signals@, table@, i as nat),
            used <= MAX_REMOTE_BYTES,
            forall|j: int|
                0 <= j < i ==> match remote_text(
                    signals@[j],
                    table@,
                    remote_bytes_used(signals@, table@, j as nat),
                ) {
                    Ok(t) => (#[trigger] replies@[j]) matches Ok(chunks) && is_chunking(
                        chunks@,
                        signals@[j].signal_id,
                        t,
                        MAX_CHUNK_SIZE as nat,
                    ),
                    Err(e) => replies@[j] matches Err(f) && f == e,
                },
        decreases signals.len() - i,
    {
        let signal = &signals[i];
        let reply = if signal.changes.len() > MAX_REMOTE_TRANSITIONS {
            Err(EncodeError::TooManyTransitions)
        } else {
            match literal_encoding(&signal.changes, table) {
                None => Err(EncodeError::TimeIndexOutOfRange),
                Some(text) => {
                    if text.len() > MAX_REMOTE_BYTES - used {
                        Err(EncodeError::TooLarge)
                    } else {
                        used = used + text.len();
                        transition_chunks(signal.signal_id, &text, MAX_CHUNK_SIZE)
                    }
                },
            }
        };
        replies.push(reply);
        i += 1;
    }
    replies
}

/// What becomes of one requested signal id.
pub enum SignalRequest {
    /// The signal is to be loaded and its transitions encoded.
    Load(u32),
    /// The id names no signal: the one chunk that is sent in its place.
    Unknown(TransitionChunk),
}

/// The largest id names no signal: ids count from 0 and the signals of a trace
/// number less than 2^32.
pub open spec fn names_signal(id: u32) -> bool {
    id < u32::MAX
}

/// Sorts the requested ids: those that name a signal are to be loaded; each
/// other is answered at once, with a single chunk that holds the empty array.
pub fn getsignaldata(signal_ids: &Vec<u32>) -> (r: Vec<SignalRequest>)
    ensures
        r@.len() == signal_ids@.len(),
        forall|i: int|
            0 <= i < r@.len() ==> if names_signal(signal_ids@[i]) {
                (#[trigger] r@[i]) matches SignalRequest::Load(id) && id == signal_ids@[i]
            } else {
                r@[i] matches SignalRequest::Unknown(c) && c.signal_id == signal_ids@[i]
                    && c.chunk_count == 1 && c.chunk_index == 0 && c.payload@ == text("[]")
            },
{
    let mut requests: Vec<SignalRequest> = Vec::new();
    let mut i: usize = 0;
    while i < signal_ids.len()
        invariant
            i <= signal_ids.len(),
            requests@.len() == i,
            forall|j: int|
                0 <= j < i ==> if names_signal(signal_ids@[j]) {
                    (#[trigger] requests@[j]) matches SignalRequest::Load(id) && id
                        == signal_ids@[j]
                } else {
                    requests@[j] matches SignalRequest::Unknown(c) && c.signal_id == signal_ids@[j]
                        && c.chunk_count == 1 && c.chunk_index == 0 && c.payload@ == text("[]")
                },
        decreases signal_ids.len() - i,
    {
        let id: u32 = signal_ids[i];
        if id < u32::MAX {
            requests.push(SignalRequest::Load(id));
        } else {
            let mut payload: Vec<u8> = Vec::new();
            append_text(&mut payload, "[]");
            requests.push(
                SignalRequest::Unknown(
                    TransitionChunk { signal_id: id, chunk_count: 1, chunk_index: 0, payload },
                ),
            );
        }
        i += 1;
    }
    requests
}

} // verus!
