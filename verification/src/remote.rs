//! Taking in a trace from a remote source: chunks on three channels, and the
//! framing of the blobs that the chunks make up.

use crate::codec::{
    block_admitted, bincode_read_format, bincode_signal_len, format_tag, json_read_text, json_read_u64,
    json_text_field, json_u64_field, leb128_read_unsigned, leb128_unsigned, lz4_block_decompressed,
    lz4_decompress_block, signal_blob_len, FileFormat, MAX_COMPRESSED_BLOCK,
    MAX_DECOMPRESSED_BLOCK,
};
use crate::reassembly::{blob_after, slots_after, slots_met, ChunkOutcome, ChunkReassembler};
use crate::time_table::{
    chunk_size_heuristic, non_decreasing, reported_end, ChunkSizeReport, TimeTable,
};
use vstd::prelude::*;
use vstd::slice::slice_subrange;
use vstd::string::StringExecFns;

verus! {

/// The channels on which chunks arrive.
#[derive(Clone, Copy, Debug, PartialEq, Eq, Structural)]
pub enum ChunkType {
    Hierarchy,
    TimeTable,
    Signals,
}

/// Why a blob from the remote source was not taken in.
#[derive(Clone, Copy, Debug, PartialEq, Eq, Structural)]
pub enum RemoteError {
    /// The hierarchy blob does not decompress.
    Decompress,
    /// The decompressed hierarchy blob does not begin with a format tag.
    FormatTag,
    /// The signals blob does not begin with a signal count.
    SignalCount,
    /// The signals blob announces no signal.
    NoSignals,
    /// A signal does not deserialize.
    SignalBlob,
    /// The last signal does not end where the blob ends.
    TrailingBytes,
    /// The timestamps of the time table go back.
    TimeTableOrder,
    /// The compressed hierarchy blob is longer than `MAX_COMPRESSED_BLOCK`, or
    /// declares an uncompressed size above `MAX_DECOMPRESSED_BLOCK`.
    TooLarge,
}

/// What the remote source says of itself.
#[derive(Debug)]
pub struct SurferStatus {
    pub bytes: u64,
    pub bytes_loaded: u64,
    pub filename: String,
    pub wellen_version: String,
    pub surfer_version: String,
    pub file_format: String,
}

/// A decompressed hierarchy blob: its format tag, and where behind the tag
/// the serialized hierarchy begins. The hierarchy fills the rest.
pub struct HierarchyBlob {
    pub file_format: FileFormat,
    pub raw: Vec<u8>,
    pub hierarchy_at: usize,
}

/// What the caller is to do after a chunk.
pub enum RemoteAction {
    /// The channel tag is unknown; the chunk is dropped.
    InvalidType,
    /// The channel has no slot with the chunk's index; the chunk is dropped.
    OutOfRange,
    /// The chunk is stored and the channel waits for more.
    Pending,
    /// The channel is complete: its blob is to be decoded.
    Decode(ChunkType, Vec<u8>),
}

/// The channel that a tag names.
pub open spec fn chunk_type_of(tag: u32) -> Option<ChunkType> {
    if tag == 0 {
        Some(ChunkType::Hierarchy)
    } else if tag == 1 {
        Some(ChunkType::TimeTable)
    } else if tag == 2 {
        Some(ChunkType::Signals)
    } else {
        None
    }
}

/// The receiving end for a remote trace: one reassembler per channel.
pub struct SurferRemote {
    hierarchy: ChunkReassembler,
    time_table: ChunkReassembler,
    signals: ChunkReassembler,
}

impl SurferRemote {
    /// What waits on a channel.
    pub closed spec fn channel(&self, t: ChunkType) -> Seq<Seq<u8>> {
        match t {
            ChunkType::Hierarchy => self.hierarchy@,
            ChunkType::TimeTable => self.time_table@,
            ChunkType::Signals => self.signals@,
        }
    }

    /// A receiving end on which nothing has arrived.
    pub fn new() -> (r: SurferRemote)
        ensures
            forall|t: ChunkType| #[trigger] r.channel(t) == Seq::<Seq<u8>>::empty(),
    {
        SurferRemote {
            hierarchy: ChunkReassembler::new(),
            time_table: ChunkReassembler::new(),
            signals: ChunkReassembler::new(),
        }
    }

    /// Drops what waits on every channel, as unloading the session does.
    pub fn unload(&mut self)
        ensures
            forall|t: ChunkType| #[trigger] final(self).channel(t) == Seq::<Seq<u8>>::empty(),
    {
        self.hierarchy.clear();
        self.time_table.clear();
        self.signals.clear();
    }

    /// Accepts a chunk on the given reassembler.
    pub fn handle_chunk_impl(
        buffer: &mut ChunkReassembler,
        chunk_data: Vec<u8>,
        chunk_index: u32,
        total_chunks: u32,
    ) -> (r: ChunkOutcome)
        ensures
            final(buffer)@ == slots_after(old(buffer)@, chunk_index, total_chunks, chunk_data@),
            chunk_index >= slots_met(old(buffer)@, chunk_index, total_chunks).len()
                <==> r is OutOfRange,
            match blob_after(old(buffer)@, chunk_index, total_chunks, chunk_data@) {
                Some(blob) => r matches ChunkOutcome::Complete(b) && b@ == blob,
                None => !(r is Complete),
            },
    {
        buffer.accept_chunk(chunk_index, total_chunks, chunk_data)
    }

    /// Accepts a chunk on a channel; the other channels stay as they are.
    pub fn handle_chunk(
        &mut self,
        chunk_type: ChunkType,
        chunk_data: Vec<u8>,
        chunk_index: u32,
        total_chunks: u32,
    ) -> (r: ChunkOutcome)
        ensures
            final(self).channel(chunk_type) == slots_after(
                old(self).channel(chunk_type),
                chunk_index,
                total_chunks,
                chunk_data@,
            ),
            forall|t: ChunkType|
                t != chunk_type ==> #[trigger] final(self).channel(t) == old(self).channel(t),
            chunk_index >= slots_met(old(self).channel(chunk_type), chunk_index, total_chunks).len()
                <==> r is OutOfRange,
            match blob_after(old(self).channel(chunk_type), chunk_index, total_chunks, chunk_data@) {
                Some(blob) => r matches ChunkOutcome::Complete(b) && b@ == blob,
                None => !(r is Complete),
            },
    {
        match chunk_type {
            ChunkType::Hierarchy => Self::handle_chunk_impl(
                &mut self.hierarchy,
                chunk_data,
                chunk_index,
                total_chunks,
            ),
            ChunkType::TimeTable => Self::handle_chunk_impl(
                &mut self.time_table,
                chunk_data,
                chunk_index,
                total_chunks,
            ),
            ChunkType::Signals => Self::handle_chunk_impl(
                &mut self.signals,
                chunk_data,
                chunk_index,
                total_chunks,
            ),
        }
    }

    /// Accepts a chunk for the channel that the tag names: 0 the hierarchy, 1
    /// the time table, 2 the signals. A chunk with another tag is dropped.
    /// When the chunk completes its channel, the blob is handed out to be
    /// decoded.
    pub fn loadremotechunk(
        &mut self,
        chunk_type: u32,
        chunk_data: Vec<u8>,
        chunk_index: u32,
        total_chunks: u32,
    ) -> (r: RemoteAction)
        ensures
            chunk_type_of(chunk_type) is None ==> r is InvalidType && forall|t: ChunkType|
                #[trigger] final(self).channel(t) == old(self).channel(t),
            chunk_type_of(chunk_type) matches Some(channel) ==> {
                &&& final(self).channel(channel) == slots_after(
                    old(self).channel(channel),
                    chunk_index,
                    total_chunks,
                    chunk_data@,
                )
                &&& forall|t: ChunkType|
                    t != channel ==> #[trigger] final(self).channel(t) == old(self).channel(t)
                &&& match blob_after(
                    old(self).channel(channel),
                    chunk_index,
                    total_chunks,
                    chunk_data@,
                ) {
                    Some(blob) => r matches RemoteAction::Decode(c, b) && c == channel && b@
                        == blob,
                    None => if chunk_index >= slots_met(
                        old(self).channel(channel),
                        chunk_index,
                        total_chunks,
                    ).len() {
                        r is OutOfRange
                    } else {
                        r is Pending
                    },
                }
            },
    {
        let channel = if chunk_type == 0 {
            ChunkType::Hierarchy
        } else if chunk_type == 1 {
            ChunkType::TimeTable
        } else if chunk_type == 2 {
            ChunkType::Signals
        } else {
            return RemoteAction::InvalidType;
        };
        match self.handle_chunk(channel, chunk_data, chunk_index, total_chunks) {
            ChunkOutcome::Stored => RemoteAction::Pending,
            ChunkOutcome::OutOfRange => RemoteAction::OutOfRange,
            ChunkOutcome::Complete(blob) => RemoteAction::Decode(channel, blob),
        }
    }

    /// The status of the remote source, if the bytes are a JSON object with
    /// every member of a status. Each member is read on its own from the
    /// parsed bytes: of a member that occurs twice the last counts, and a JSON
    /// array is no status.
    pub fn parse_status(status_data: &[u8]) -> (r: Option<SurferStatus>)
        ensures
            r is Some <==> status_complete(status_data@),
            r matches Some(s) ==> {
                &&& json_u64_field(status_data@, "bytes"@) == Some(s.bytes)
                &&& json_u64_field(status_data@, "bytes_loaded"@) == Some(s.bytes_loaded)
                &&& json_text_field(status_data@, "filename"@) == Some(s.filename@)
                &&& json_text_field(status_data@, "wellen_version"@) == Some(s.wellen_version@)
                &&& json_text_field(status_data@, "surfer_version"@) == Some(s.surfer_version@)
                &&& json_text_field(status_data@, "file_format"@) == Some(s.file_format@)
            },
    {
        let bytes = json_read_u64(status_data, "bytes")?;
        let bytes_loaded = json_read_u64(status_data, "bytes_loaded")?;
        let filename = json_read_text(status_data, "filename")?;
        let wellen_version = json_read_text(status_data, "wellen_version")?;
        let surfer_version = json_read_text(status_data, "surfer_version")?;
        let file_format = json_read_text(status_data, "file_format")?;
        Some(
            SurferStatus {
                bytes,
                bytes_loaded,
                filename,
                wellen_version,
                surfer_version,
                file_format,
            },
        )
    }

    /// The name of the file that the remote source serves, from its status;
    /// `{}` where the bytes are no status.
    pub fn loadremotestatus(status_data: Vec<u8>) -> (r: String)
        ensures
            r@ == if status_complete(status_data@) {
                json_text_field(status_data@, "filename"@)->0
            } else {
                "{}"@
            },
    {
        match Self::parse_status(status_data.as_slice()) {
            Some(status) => status.filename,
            None => String::from_str("{}"),
        }
    }

    /// Opens a hierarchy blob: decompresses it and reads the format tag at its
    /// start. The serialized hierarchy is what follows the tag. A blob of
    /// more than `MAX_COMPRESSED_BLOCK` bytes, or one that declares more than
    /// `MAX_DECOMPRESSED_BLOCK` bytes, is refused before it is decompressed.
    pub fn loadremotehierarchy(hierarchy_data: Vec<u8>) -> (r: Result<HierarchyBlob, RemoteError>)
        ensures
            !block_admitted(hierarchy_data@) ==> (r matches Err(e) && e == RemoteError::TooLarge),
            block_admitted(hierarchy_data@) ==> match lz4_block_decompressed(hierarchy_data@) {
                None => r matches Err(e) && e == RemoteError::Decompress,
                Some(raw) => match format_tag(raw) {
                    None => r matches Err(e) && e == RemoteError::FormatTag,
                    Some((file_format, used)) => r matches Ok(blob) && blob.raw@ == raw
                        && blob.file_format == file_format && blob.hierarchy_at == used
                        && blob.hierarchy_at <= blob.raw@.len(),
                },
            },
    {
        if hierarchy_data.len() > MAX_COMPRESSED_BLOCK {
            return Err(RemoteError::TooLarge);
        }
        if hierarchy_data.len() >= 4 {
            let declared: u64 = hierarchy_data[0] as u64 + 256 * (hierarchy_data[1] as u64) + 65536
                * (hierarchy_data[2] as u64) + 16777216 * (hierarchy_data[3] as u64);
            if declared > MAX_DECOMPRESSED_BLOCK as u64 {
                return Err(RemoteError::TooLarge);
            }
        }
        let raw = match lz4_decompress_block(hierarchy_data.as_slice()) {
            Ok(raw) => raw,
            Err(_) => {
                return Err(RemoteError::Decompress);
            },
        };
        match bincode_read_format(raw.as_slice()) {
            Ok((file_format, used)) => Ok(HierarchyBlob { file_format, raw, hierarchy_at: used }),
            Err(_) => Err(RemoteError::FormatTag),
        }
    }

    /// Takes the expanded timestamps of a remote time table in, and reports
    /// the figures for the host. Timestamps that go back are refused.
    pub fn loadremotetimetable(times: Vec<u64>) -> (r: Result<
        (TimeTable, Option<ChunkSizeReport>),
        RemoteError,
    >)
        ensures
            r is Ok <==> non_decreasing(times@),
            r matches Err(e) ==> e == RemoteError::TimeTableOrder,
            r matches Ok((table, report)) ==> {
                &&& table@ == times@
                &&& report is Some <==> times@.len() > 0
                &&& report matches Some(rep) ==> rep.min_span == chunk_size_heuristic(times@)
                    && rep.extended_end == reported_end(times@) && rep.event_count == times@.len()
            },
    {
        match TimeTable::new(times) {
            Some(table) => {
                let report = table.analyze();
                Ok((table, report))
            },
            None => Err(RemoteError::TimeTableOrder),
        }
    }

    /// Frames a signals blob: reads the signal count at its start and finds
    /// where each of that many serialized signals lies. Every signal but the
    /// last may be followed by more bytes; the last must end the blob.
    #[verifier::loop_isolation(false)]
    pub fn loadremotesignals(signals_data: Vec<u8>) -> (r: Result<Vec<(usize, usize)>, RemoteError>)
        ensures
            match framed_signals(signals_data@) {
                Ok(ranges) => r matches Ok(v) && range_views(v@) == ranges,
                Err(e) => r == Err::<Vec<(usize, usize)>, RemoteError>(e),
            },
    {
        let data = signals_data.as_slice();
        let (count, first) = match leb128_read_unsigned(data) {
            Ok(read) => read,
            Err(_) => {
                return Err(RemoteError::SignalCount);
            },
        };
        if count == 0 {
            return Err(RemoteError::NoSignals);
        }
        let mut ranges: Vec<(usize, usize)> = Vec::new();
        let mut at: usize = first;
        let mut i: u64 = 0;
        while i < count
            invariant
                i <= count,
                at <= data@.len(),
                data@ == signals_data@,
                blob_ranges(data@, first as int, count as nat) == after(
                    range_views(ranges@),
                    blob_ranges(data@, at as int, (count - i) as nat),
                ),
            decreases count - i,
        {
            let rest = slice_subrange(data, at, data.len());
            let used = match bincode_signal_len(rest) {
                Ok(used) => used,
                Err(_) => {
                    return Err(RemoteError::SignalBlob);
                },
            };
            let range = match place_blob(at, used, i + 1 == count, data.len()) {
                Ok(range) => range,
                Err(e) => {
                    return Err(e);
                },
            };
            let ghost done = range_views(ranges@);
            let ghost tail = blob_ranges(data@, at + used, (count - i - 1) as nat);
            ranges.push(range);
            proof {
                let here = seq![(at as int, at + used)];
                assert(range_views(ranges@) =~= done + here);
                match tail {
                    Ok(more) => {
                        assert(done + (here + more) =~= (done + here) + more);
                    },
                    Err(_) => {},
                }
                if i + 1 == count {
                    assert(here + Seq::<(int, int)>::empty() =~= here);
                }
            }
            at = at + used;
            i += 1;
        }
        proof {
            assert(range_views(ranges@) + Seq::<(int, int)>::empty() =~= range_views(ranges@));
        }
        Ok(ranges)
    }
}

/// The bytes are a JSON object with every member of a status.
pub open spec fn status_complete(data: Seq<u8>) -> bool {
    &&& json_u64_field(data, "bytes"@) is Some
    &&& json_u64_field(data, "bytes_loaded"@) is Some
    &&& json_text_field(data, "filename"@) is Some
    &&& json_text_field(data, "wellen_version"@) is Some
    &&& json_text_field(data, "surfer_version"@) is Some
    &&& json_text_field(data, "file_format"@) is Some
}

/// Where a serialized signal of `used` bytes lies that begins at `at` in
/// data of `len` bytes. The last signal of a blob must end the data; any
/// other may be followed by more.
pub fn place_blob(at: usize, used: usize, last: bool, len: usize) -> (r: Result<
    (usize, usize),
    RemoteError,
>)
    requires
        at + used <= len,
    ensures
        r is Ok <==> !(last && at + used != len),
        r matches Ok(range) ==> range.0 == at && range.1 == at + used,
        r matches Err(e) ==> e == RemoteError::TrailingBytes,
{
    if last && at + used != len {
        Err(RemoteError::TrailingBytes)
    } else {
        Ok((at, at + used))
    }
}

/// The ranges as pairs of integers.
pub open spec fn range_views(ranges: Seq<(usize, usize)>) -> Seq<(int, int)> {
    Seq::new(ranges.len(), |i: int| (ranges[i].0 as int, ranges[i].1 as int))
}

/// The ranges found so far, followed by what the rest gives.
pub open spec fn after(done: Seq<(int, int)>, rest: Result<Seq<(int, int)>, RemoteError>) -> Result<
    Seq<(int, int)>,
    RemoteError,
> {
    match rest {
        Ok(more) => Ok(done + more),
        Err(e) => Err(e),
    }
}

/// Where `remaining` serialized signals lie that begin at `at`: each from its
/// first byte to behind its last. The last one must end the data.
pub open spec fn blob_ranges(data: Seq<u8>, at: int, remaining: nat) -> Result<
    Seq<(int, int)>,
    RemoteError,
>
    decreases remaining,
{
    if remaining == 0 {
        Ok(Seq::empty())
    } else {
        match signal_blob_len(data.subrange(at, data.len() as int)) {
            None => Err(RemoteError::SignalBlob),
            Some(used) => if remaining == 1 && at + used != data.len() {
                Err(RemoteError::TrailingBytes)
            } else {
                after(seq![(at, at + used)], blob_ranges(data, at + used, (remaining - 1) as nat))
            },
        }
    }
}

/// Where the signals of a signals blob lie, or why the blob is refused.
pub open spec fn framed_signals(data: Seq<u8>) -> Result<Seq<(int, int)>, RemoteError> {
    match leb128_unsigned(data) {
        None => Err(RemoteError::SignalCount),
        Some((count, used)) => if count == 0 {
            Err(RemoteError::NoSignals)
        } else {
            blob_ranges(data, used as int, count as nat)
        },
    }
}

} // verus!
