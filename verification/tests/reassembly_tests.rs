use filehandler::reassembly::{ChunkOutcome, ChunkReassembler};

fn blob_of(outcome: ChunkOutcome) -> Option<Vec<u8>> {
    match outcome {
        ChunkOutcome::Complete(blob) => Some(blob),
        _ => None,
    }
}

#[test]
fn chunks_in_order_dispatch_once() {
    let mut r = ChunkReassembler::new();
    assert!(matches!(r.accept_chunk(0, 3, vec![1, 2]), ChunkOutcome::Stored));
    assert!(matches!(r.accept_chunk(1, 3, vec![3]), ChunkOutcome::Stored));
    let blob = blob_of(r.accept_chunk(2, 3, vec![4, 5, 6]));
    assert_eq!(blob, Some(vec![1, 2, 3, 4, 5, 6]));
    assert_eq!(r.pending(), 0);
}

#[test]
fn chunks_out_of_order_dispatch_once() {
    let mut r = ChunkReassembler::new();
    assert!(matches!(r.accept_chunk(0, 3, vec![1, 2]), ChunkOutcome::Stored));
    assert!(matches!(r.accept_chunk(2, 3, vec![4, 5, 6]), ChunkOutcome::Stored));
    let blob = blob_of(r.accept_chunk(1, 3, vec![3]));
    assert_eq!(blob, Some(vec![1, 2, 3, 4, 5, 6]));
    assert_eq!(r.pending(), 0);
    // nothing is left to complete
    assert!(matches!(r.accept_chunk(1, 3, vec![3]), ChunkOutcome::OutOfRange));
}

#[test]
fn two_of_three_never_dispatch() {
    let mut r = ChunkReassembler::new();
    assert!(matches!(r.accept_chunk(0, 3, vec![1]), ChunkOutcome::Stored));
    assert!(matches!(r.accept_chunk(2, 3, vec![3]), ChunkOutcome::Stored));
    assert!(matches!(r.accept_chunk(2, 3, vec![9]), ChunkOutcome::Stored));
    assert_eq!(r.pending(), 3);
}

#[test]
fn chunk_before_the_first_has_no_slot() {
    let mut r = ChunkReassembler::new();
    assert!(matches!(r.accept_chunk(2, 3, vec![3]), ChunkOutcome::OutOfRange));
    assert!(matches!(r.accept_chunk(0, 3, vec![1]), ChunkOutcome::Stored));
    assert!(matches!(r.accept_chunk(1, 3, vec![2]), ChunkOutcome::Stored));
    assert_eq!(r.pending(), 3);
    let blob = blob_of(r.accept_chunk(2, 3, vec![3]));
    assert_eq!(blob, Some(vec![1, 2, 3]));
}

#[test]
fn last_write_wins_and_first_chunk_restarts() {
    let mut r = ChunkReassembler::new();
    r.accept_chunk(0, 2, vec![1]);
    r.accept_chunk(0, 3, vec![7]);
    assert_eq!(r.pending(), 3);
    r.accept_chunk(1, 3, vec![8]);
    r.accept_chunk(1, 3, vec![9]);
    let blob = blob_of(r.accept_chunk(2, 3, vec![10]));
    assert_eq!(blob, Some(vec![7, 9, 10]));
}

#[test]
fn empty_payload_leaves_its_slot_empty() {
    let mut r = ChunkReassembler::new();
    assert!(matches!(r.accept_chunk(0, 1, vec![]), ChunkOutcome::Stored));
    assert_eq!(blob_of(r.accept_chunk(0, 1, vec![5])), Some(vec![5]));
}

#[test]
fn total_of_zero_has_no_slot() {
    let mut r = ChunkReassembler::new();
    assert!(matches!(r.accept_chunk(0, 0, vec![1]), ChunkOutcome::OutOfRange));
    assert_eq!(r.pending(), 0);
}

#[test]
fn index_behind_the_total_is_dropped() {
    let mut r = ChunkReassembler::new();
    r.accept_chunk(0, 2, vec![1]);
    assert!(matches!(r.accept_chunk(2, 2, vec![1]), ChunkOutcome::OutOfRange));
    assert_eq!(blob_of(r.accept_chunk(1, 2, vec![2])), Some(vec![1, 2]));
}

#[test]
fn clearing_drops_what_waits() {
    let mut r = ChunkReassembler::new();
    r.accept_chunk(0, 3, vec![1]);
    assert_eq!(r.pending(), 3);
    r.clear();
    assert_eq!(r.pending(), 0);
    assert!(matches!(r.accept_chunk(1, 3, vec![2]), ChunkOutcome::OutOfRange));
}
