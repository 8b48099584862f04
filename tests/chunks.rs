use devhub::chunks::{assemble, assemble_chunks, split, ChunkError, DnaChunkEntry, SequencePosition};
use devhub::entity::{Address, AgentKey};
use devhub::record::Record;
use devhub::store::Store;

fn payload(n: usize) -> Vec<u8> {
    (0..n).map(|i| (i * 7 % 251) as u8).collect()
}

#[test]
fn split_25_bytes_by_10() {
    let bytes = payload(25);
    let chunks = split(&bytes, 10);
    let lengths: Vec<u64> = chunks.iter().map(|c| c.sequence.length).collect();
    assert_eq!(lengths, vec![10, 10, 5]);
    let positions: Vec<u64> = chunks.iter().map(|c| c.sequence.position).collect();
    assert_eq!(positions, vec![0, 1, 2]);
}

#[test]
fn split_then_assemble_round_trip() {
    for (n, s) in [(0usize, 3usize), (1, 1), (9, 3), (10, 3), (100, 7)] {
        let bytes = payload(n);
        let chunks = split(&bytes, s);
        assert_eq!(chunks.len(), (n + s - 1) / s);
        assert_eq!(assemble_chunks(&chunks, n as u64), Ok(bytes));
    }
}

#[test]
fn split_empty_gives_no_chunk() {
    assert!(split(&vec![], 4).is_empty());
}

#[test]
fn assemble_from_store_in_order_and_with_gap() {
    let mut store = Store::new();
    let author = AgentKey { key: 3 };
    let bytes = payload(25);
    let mut addresses: Vec<Address> = Vec::new();
    for chunk in split(&bytes, 10) {
        let e = store.create(Record::DnaChunk(chunk), author, 1).unwrap();
        addresses.push(e.address);
    }
    assert_eq!(assemble(&store, &addresses, 25), Ok(bytes.clone()));

    let missing_middle = vec![addresses[0], addresses[2]];
    assert_eq!(assemble(&store, &missing_middle, 25), Err(ChunkError::SequenceGap));

    let missing_last = vec![addresses[0], addresses[1]];
    assert_eq!(assemble(&store, &missing_last, 25), Err(ChunkError::SizeMismatch));

    let unknown = vec![addresses[0], Address { slot: 99 }];
    assert_eq!(assemble(&store, &unknown, 25), Err(ChunkError::ChunkNotFound));
}

#[test]
fn assemble_rejects_wrong_declared_length() {
    let chunks = vec![DnaChunkEntry {
        sequence: SequencePosition { position: 0, length: 4 },
        bytes: vec![1, 2, 3],
    }];
    assert_eq!(assemble_chunks(&chunks, 3), Err(ChunkError::SizeMismatch));
}

#[test]
fn assemble_rejects_duplicate_position() {
    let chunks = vec![
        DnaChunkEntry { sequence: SequencePosition { position: 0, length: 1 }, bytes: vec![1] },
        DnaChunkEntry { sequence: SequencePosition { position: 0, length: 1 }, bytes: vec![2] },
    ];
    assert_eq!(assemble_chunks(&chunks, 2), Err(ChunkError::SequenceGap));
}

#[test]
fn assemble_reports_non_chunk_record_as_not_found() {
    let mut store = Store::new();
    let author = AgentKey { key: 3 };
    let review_target = store
        .create(
            Record::DnaChunk(DnaChunkEntry {
                sequence: SequencePosition { position: 0, length: 1 },
                bytes: vec![5],
            }),
            author,
            1,
        )
        .unwrap();
    let dna = store
        .create(
            Record::Dna(devhub::dna::DnaEntry {
                name: String::from("d"),
                description: String::new(),
                published_at: 0,
                developer: None,
                deprecation: None,
            }),
            author,
            1,
        )
        .unwrap();
    assert_eq!(assemble(&store, &vec![review_target.address], 1), Ok(vec![5]));
    assert_eq!(assemble(&store, &vec![dna.address], 1), Err(ChunkError::ChunkNotFound));
}
