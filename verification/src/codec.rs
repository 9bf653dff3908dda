//! The calls into the compression and serialization crates. Nothing in this
//! file is proved: each function states what is taken on trust of the crate it
//! calls.

use vstd::prelude::*;

verus! {

/// The format of a trace file.
#[derive(Clone, Copy, Debug, PartialEq, Eq, Structural)]
pub enum FileFormat {
    Vcd,
    Fst,
    Ghw,
    Unknown,
}

#[verifier::external_type_specification]
#[verifier::external_body]
pub struct ExLz4DecompressError(lz4_flex::block::DecompressError);

#[verifier::external_type_specification]
#[verifier::external_body]
pub struct ExLz4FrameError(lz4_flex::frame::Error);

#[verifier::external_type_specification]
#[verifier::external_body]
pub struct ExLeb128ReadError(leb128::read::Error);

#[verifier::external_type_specification]
#[verifier::external_body]
pub struct ExBincodeErrorKind(bincode::ErrorKind);

/// What `lz4_flex::decompress_size_prepended` makes of an input: the
/// decompressed bytes, or nothing where it reports an error.
pub uninterp spec fn lz4_block_decompressed(input: Seq<u8>) -> Option<Seq<u8>>;

/// What an `lz4_flex` frame encoder with default settings writes for an
/// input, or nothing where it reports an error.
pub uninterp spec fn lz4_frame_compressed(input: Seq<u8>) -> Option<Seq<u8>>;

/// The weight of the group of seven bits with number `i`: 128 to the power
/// of `i`.
pub open spec fn septet_weight(i: nat) -> nat
    decreases i,
{
    if i == 0 {
        1
    } else {
        128 * septet_weight((i - 1) as nat)
    }
}

/// An unsigned LEB128 number read from byte `i` on, when the groups before
/// add up to `sum`: each byte gives seven bits, the least significant group
/// first, and a byte below 128 is the last. The tenth byte may only be 0 or
/// 1, since nothing else fits in 64 bits. Nothing is read where the bytes end
/// before the number does.
pub open spec fn leb128_from(bytes: Seq<u8>, i: nat, sum: nat) -> Option<(u64, nat)>
    decreases 10 - i,
{
    if i >= 10 || i >= bytes.len() || (i == 9 && bytes[9] > 1) {
        None
    } else {
        let with: nat = sum + (bytes[i as int] % 128) as nat * septet_weight(i);
        if bytes[i as int] < 128 {
            Some((with as u64, i + 1))
        } else {
            leb128_from(bytes, i + 1, with)
        }
    }
}

/// The unsigned LEB128 number at the start of the bytes and the count of
/// bytes it takes, or nothing where there is none.
pub open spec fn leb128_unsigned(bytes: Seq<u8>) -> Option<(u64, nat)> {
    leb128_from(bytes, 0, 0)
}

/// What bincode (default options, trailing bytes allowed) reads as a
/// `wellen::FileFormat` from the start of the bytes: the format and how many
/// bytes it took, or nothing where it reports an error.
pub uninterp spec fn format_tag(bytes: Seq<u8>) -> Option<(FileFormat, nat)>;

/// How many bytes bincode (default options, trailing bytes allowed) takes to
/// read one `wellen::CompressedSignal` from the start of the bytes, or nothing
/// where it reports an error.
pub uninterp spec fn signal_blob_len(bytes: Seq<u8>) -> Option<nat>;

/// Most bytes of a compressed block that are handed to the decompressor: 2^24.
/// The decoder adds up the bytes of a long length, each at most 255, in 32
/// bits; over an input of this size the sum stays below 2^32.
pub const MAX_COMPRESSED_BLOCK: usize = 16777216;

/// Most bytes that a compressed block may declare as its uncompressed size:
/// 2^28. The decompressor allocates a buffer of the declared size before it
/// reads the block.
pub const MAX_DECOMPRESSED_BLOCK: usize = 268435456;

/// The uncompressed size that a block declares in its first 4 bytes, least
/// significant byte first.
pub open spec fn declared_size(input: Seq<u8>) -> nat
    recommends
        input.len() >= 4,
{
    (input[0] + 256 * input[1] + 65536 * input[2] + 16777216 * input[3]) as nat
}

/// The block is within what is handed to the decompressor: it has at most
/// `MAX_COMPRESSED_BLOCK` bytes and declares at most `MAX_DECOMPRESSED_BLOCK`.
pub open spec fn block_admitted(input: Seq<u8>) -> bool {
    &&& input.len() <= MAX_COMPRESSED_BLOCK
    &&& input.len() >= 4 ==> declared_size(input) <= MAX_DECOMPRESSED_BLOCK
}

/// Calls `lz4_flex::decompress_size_prepended`, whose input starts with the
/// uncompressed size as 4 little-endian bytes. The result is only named. The
/// safe decoder, which is the one built here, checks every length against the
/// input and the output buffer and answers a malformed block with an error.
/// Its one unchecked addition, that of the bytes of a long length, cannot
/// overflow on an input of at most `MAX_COMPRESSED_BLOCK` bytes, and the
/// buffer it allocates has the declared size.
#[verifier::external_body]
pub(crate) fn lz4_decompress_block(input: &[u8]) -> (r: Result<
    Vec<u8>,
    lz4_flex::block::DecompressError,
>)
    requires
        block_admitted(input@),
    ensures
        r matches Ok(raw) ==> lz4_block_decompressed(input@) == Some(raw@),
        r is Err ==> lz4_block_decompressed(input@) is None,
{
    lz4_flex::decompress_size_prepended(input)
}

/// Writes the data through `lz4_flex::frame::FrameEncoder::new` into a vector
/// and finishes the frame. The result is only named.
#[verifier::external_body]
pub(crate) fn lz4_compress_frame(data: &[u8]) -> (r: Result<Vec<u8>, lz4_flex::frame::Error>)
    ensures
        r matches Ok(frame) ==> lz4_frame_compressed(data@) == Some(frame@),
        r is Err ==> lz4_frame_compressed(data@) is None,
{
    let mut encoder = lz4_flex::frame::FrameEncoder::new(Vec::new());
    std::io::Write::write_all(&mut encoder, data)?;
    encoder.finish()
}

/// Calls `leb128::read::unsigned` on a cursor over the bytes. It is taken on
/// trust that the function reads what `leb128_unsigned` states: it shifts the
/// low seven bits of each byte into place until a byte without the top bit,
/// reports an overflow at the tenth byte unless that is 0 or 1, and an error
/// where the bytes end early. On success the count of bytes it took is the
/// position of the cursor.
#[verifier::external_body]
pub(crate) fn leb128_read_unsigned(bytes: &[u8]) -> (r: Result<(u64, usize), leb128::read::Error>)
    ensures
        r matches Ok((value, used)) ==> leb128_unsigned(bytes@) == Some((value, used as nat)) && 0
            < used <= bytes@.len(),
        r is Err ==> leb128_unsigned(bytes@) is None,
{
    let mut reader = std::io::Cursor::new(bytes);
    let value = leb128::read::unsigned(&mut reader)?;
    Ok((value, reader.position() as usize))
}

/// Reads a `wellen::FileFormat` with bincode's `deserialize_from` (default
/// options, trailing bytes allowed) from a cursor over the bytes. The result is
/// named; the count of bytes taken lies within the input.
#[verifier::external_body]
pub(crate) fn bincode_read_format(bytes: &[u8]) -> (r: Result<
    (FileFormat, usize),
    Box<bincode::ErrorKind>,
>)
    ensures
        r matches Ok((format, used)) ==> format_tag(bytes@) == Some((format, used as nat)) && used
            <= bytes@.len(),
        r is Err ==> format_tag(bytes@) is None,
{
    let mut reader = std::io::Cursor::new(bytes);
    let options = bincode::Options::allow_trailing_bytes(bincode::DefaultOptions::new());
    let format: wellen::FileFormat = bincode::Options::deserialize_from(options, &mut reader)?;
    let format = match format {
        wellen::FileFormat::Vcd => FileFormat::Vcd,
        wellen::FileFormat::Fst => FileFormat::Fst,
        wellen::FileFormat::Ghw => FileFormat::Ghw,
        wellen::FileFormat::Unknown => FileFormat::Unknown,
    };
    Ok((format, reader.position() as usize))
}

/// Reads one `wellen::CompressedSignal` with bincode's `deserialize_from`
/// (default options, trailing bytes allowed) from a cursor over the bytes, and
/// gives the count of bytes taken, which lies within the input. The count is
/// named.
#[verifier::external_body]
pub(crate) fn bincode_signal_len(bytes: &[u8]) -> (r: Result<usize, Box<bincode::ErrorKind>>)
    ensures
        r matches Ok(used) ==> signal_blob_len(bytes@) == Some(used as nat) && used <= bytes@.len(),
        r is Err ==> signal_blob_len(bytes@) is None,
{
    let mut reader = std::io::Cursor::new(bytes);
    let options = bincode::Options::allow_trailing_bytes(bincode::DefaultOptions::new());
    let _signal: wellen::CompressedSignal = bincode::Options::deserialize_from(options, &mut reader)?;
    Ok(reader.position() as usize)
}

#[verifier::external_type_specification]
#[verifier::external_body]
pub struct ExSerdeJsonError(serde_json::Error);

/// The pairs with each text by its characters.
pub open spec fn id_value_views(pairs: Seq<(u32, String)>) -> Seq<(u32, Seq<char>)> {
    Seq::new(pairs.len(), |i: int| (pairs[i].0, pairs[i].1@))
}

/// The pairs with each text by its characters.
pub open spec fn name_value_views(pairs: Seq<(String, String)>) -> Seq<(Seq<char>, Seq<char>)> {
    Seq::new(pairs.len(), |i: int| (pairs[i].0@, pairs[i].1@))
}

/// What `serde_json::to_string` writes for a list of pairs of a number and a
/// text, or nothing where it reports an error.
pub uninterp spec fn json_of_id_values(pairs: Seq<(u32, Seq<char>)>) -> Option<Seq<char>>;

/// What `serde_json::to_string` writes for a list of pairs of texts, or
/// nothing where it reports an error.
pub uninterp spec fn json_of_name_values(pairs: Seq<(Seq<char>, Seq<char>)>) -> Option<Seq<char>>;

/// The unsigned integer that the JSON object in the bytes holds under the key,
/// as `serde_json` reads it; nothing where the bytes are no JSON, no object,
/// or hold no such number there.
pub uninterp spec fn json_u64_field(data: Seq<u8>, key: Seq<char>) -> Option<u64>;

/// The text that the JSON object in the bytes holds under the key, as
/// `serde_json` reads it; nothing where the bytes are no JSON, no object, or
/// hold no text there.
pub uninterp spec fn json_text_field(data: Seq<u8>, key: Seq<char>) -> Option<Seq<char>>;

/// Calls `serde_json::to_string` on the pairs. The result is only named.
#[verifier::external_body]
pub(crate) fn json_id_values(pairs: &Vec<(u32, String)>) -> (r: Result<String, serde_json::Error>)
    ensures
        r matches Ok(s) ==> json_of_id_values(id_value_views(pairs@)) == Some(s@),
        r is Err ==> json_of_id_values(id_value_views(pairs@)) is None,
{
    serde_json::to_string(pairs)
}

/// Calls `serde_json::to_string` on the pairs. The result is only named.
#[verifier::external_body]
pub(crate) fn json_name_values(pairs: &Vec<(String, String)>) -> (r: Result<
    String,
    serde_json::Error,
>)
    ensures
        r matches Ok(s) ==> json_of_name_values(name_value_views(pairs@)) == Some(s@),
        r is Err ==> json_of_name_values(name_value_views(pairs@)) is None,
{
    serde_json::to_string(pairs)
}

/// Parses the bytes with `serde_json::from_slice` into a `serde_json::Value`
/// and reads the member under the key with `Value::get` and `Value::as_u64`.
/// The result is only named.
#[verifier::external_body]
pub(crate) fn json_read_u64(data: &[u8], key: &str) -> (r: Option<u64>)
    ensures
        r == json_u64_field(data@, key@),
{
    serde_json::from_slice::<serde_json::Value>(data).ok()?.get(key)?.as_u64()
}

/// Parses the bytes with `serde_json::from_slice` into a `serde_json::Value`
/// and reads the member under the key with `Value::get` and `Value::as_str`.
/// The result is only named.
#[verifier::external_body]
pub(crate) fn json_read_text(data: &[u8], key: &str) -> (r: Option<String>)
    ensures
        r matches Some(s) ==> json_text_field(data@, key@) == Some(s@),
        r is None ==> json_text_field(data@, key@) is None,
{
    let value = serde_json::from_slice::<serde_json::Value>(data).ok()?;
    Some(value.get(key)?.as_str()?.to_owned())
}

} // verus!
