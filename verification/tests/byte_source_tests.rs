use filehandler::byte_source::{HostRead, ReadError, SeekError, SeekPos, WasmFileReader};

#[test]
fn seek_five_before_the_end_of_100_bytes() {
    let mut r = WasmFileReader::new(3, 100);
    assert_eq!(r.seek(SeekPos::End(-5)), Ok(95));
    assert_eq!(r.stream_position(), 95);
}

#[test]
fn seek_to_negative_absolute_position_fails_and_resets() {
    let mut r = WasmFileReader::new(3, 100);
    assert_eq!(r.seek(SeekPos::Start(40)), Ok(40));
    assert_eq!(r.seek(SeekPos::Start(-7i64 as u64)), Err(SeekError::InvalidSeek));
    assert_eq!(r.stream_position(), 0);
}

#[test]
fn seek_before_start_from_end_or_cursor_fails_and_resets() {
    let mut r = WasmFileReader::new(3, 100);
    r.seek(SeekPos::Start(10)).unwrap();
    assert_eq!(r.seek(SeekPos::Current(-11)), Err(SeekError::InvalidSeek));
    assert_eq!(r.stream_position(), 0);
    r.seek(SeekPos::Start(10)).unwrap();
    assert_eq!(r.seek(SeekPos::End(-101)), Err(SeekError::InvalidSeek));
    assert_eq!(r.stream_position(), 0);
}

#[test]
fn seek_behind_the_end_stops_at_the_end() {
    let mut r = WasmFileReader::new(3, 100);
    assert_eq!(r.seek(SeekPos::Start(250)), Ok(100));
    assert_eq!(r.seek(SeekPos::End(9)), Ok(100));
    assert_eq!(r.seek(SeekPos::Current(i64::MAX)), Ok(100));
    assert_eq!(r.seek(SeekPos::Current(-100)), Ok(0));
}

#[test]
fn seek_relative_and_rewind() {
    let mut r = WasmFileReader::new(3, 100);
    assert_eq!(r.seek_relative(30), Ok(()));
    assert_eq!(r.stream_position(), 30);
    assert_eq!(r.seek_relative(-31), Err(SeekError::InvalidSeek));
    assert_eq!(r.stream_position(), 0);
    r.seek_relative(500).unwrap();
    assert_eq!(r.stream_position(), 100);
    r.rewind();
    assert_eq!(r.stream_position(), 0);
    assert_eq!(r.size(), 100);
}

#[test]
fn read_is_cut_down_to_what_is_left() {
    let mut r = WasmFileReader::new(1, 100);
    r.seek(SeekPos::Start(90)).unwrap();
    assert_eq!(r.begin_read(64), 10);
    assert_eq!(r.next_request(), Some(HostRead { fd: 1, offset: 90, length: 10 }));
    let mut out = Vec::new();
    assert_eq!(r.deliver(&mut out, &[7u8; 10]), Ok(()));
    assert_eq!(out, vec![7u8; 10]);
    assert_eq!(r.stream_position(), 100);
    assert_eq!(r.next_request(), None);
    assert_eq!(r.begin_read(64), 0);
    assert_eq!(r.next_request(), None);
}

#[test]
fn large_read_goes_out_in_pieces_of_32_kib() {
    let mut r = WasmFileReader::new(9, 100_000);
    assert_eq!(r.begin_read(70_000), 70_000);
    let mut out = Vec::new();
    let mut lengths = Vec::new();
    let mut offsets = Vec::new();
    while let Some(req) = r.next_request() {
        assert_eq!(req.fd, 9);
        lengths.push(req.length);
        offsets.push(req.offset);
        let data = vec![lengths.len() as u8; req.length as usize];
        r.deliver(&mut out, &data).unwrap();
    }
    assert_eq!(lengths, vec![32768, 32768, 4464]);
    assert_eq!(offsets, vec![0, 32768, 65536]);
    assert_eq!(out.len(), 70_000);
    assert_eq!(out[0], 1);
    assert_eq!(out[32768], 2);
    assert_eq!(out[69_999], 3);
    assert_eq!(r.stream_position(), 70_000);
}

#[test]
fn delivery_of_another_length_ends_the_read() {
    let mut r = WasmFileReader::new(1, 100);
    r.begin_read(50);
    let mut out = vec![1u8];
    assert_eq!(r.deliver(&mut out, &[0u8; 49]), Err(ReadError::ShortRead));
    assert_eq!(out, vec![1u8]);
    assert_eq!(r.stream_position(), 0);
    assert_eq!(r.next_request(), None);
    assert_eq!(r.deliver(&mut out, &[]), Err(ReadError::ShortRead));
}

#[test]
fn exact_read_needs_a_full_buffer() {
    assert_eq!(WasmFileReader::read_exact(10, 10), Ok(()));
    assert_eq!(WasmFileReader::read_exact(10, 9), Err(ReadError::UnexpectedEof));
}
