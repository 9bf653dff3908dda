use filehandler::chunks::{chunk_payload, count_chunks, MAX_CHUNK_SIZE, MAX_RETURN_LENGTH};

#[test]
fn chunk_counts_round_up() {
    assert_eq!(count_chunks(0, 65000), 0);
    assert_eq!(count_chunks(1, 65000), 1);
    assert_eq!(count_chunks(65000, 65000), 1);
    assert_eq!(count_chunks(65001, 65000), 2);
    assert_eq!(count_chunks(130000, 65000), 2);
    assert_eq!(MAX_RETURN_LENGTH, 65000);
    assert_eq!(MAX_CHUNK_SIZE, 32 * 1024);
}

#[test]
fn chunks_join_to_the_data() {
    let data: Vec<u8> = (0..25u8).collect();
    let n = count_chunks(data.len(), 10);
    assert_eq!(n, 3);
    let mut joined = Vec::new();
    let mut lengths = Vec::new();
    for i in 0..n {
        let c = chunk_payload(&data, 10, i);
        lengths.push(c.len());
        joined.extend_from_slice(&c);
    }
    assert_eq!(lengths, vec![10, 10, 5]);
    assert_eq!(joined, data);
    assert_eq!(chunk_payload(&data, 10, 1), (10..20u8).collect::<Vec<u8>>());
}
