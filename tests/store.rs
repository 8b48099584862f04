use devhub::chunks::{DnaChunkEntry, SequencePosition};
use devhub::dna::{DnaEntry, DnaVersionEntry};
use devhub::entity::{Address, AgentKey, Model, RecordKind};
use devhub::record::{Record, ValidationError};
use devhub::store::{Store, StoreError};

fn dna(name: &str) -> Record {
    Record::Dna(DnaEntry {
        name: String::from(name),
        description: String::from("d"),
        published_at: 1,
        developer: None,
        deprecation: None,
    })
}

#[test]
fn get_after_create_returns_created_entity() {
    let mut store = Store::new();
    let author = AgentKey { key: 1 };
    let first = store.create(dna("a"), author, 1).unwrap();
    let e = store.create(dna("b"), author, 2).unwrap();
    assert_eq!(e.id, Address { slot: 1 });
    assert_eq!(e.id, e.address);
    assert_eq!(e.ctype.kind, RecordKind::Dna);
    assert_eq!(e.ctype.model, Model::Entry);
    assert_eq!(store.get(e.id), Ok(e));
    assert_eq!(store.get(first.id), Ok(first));
}

#[test]
fn id_survives_many_updates() {
    let mut store = Store::new();
    let author = AgentKey { key: 1 };
    let e = store.create(dna("v0"), author, 1).unwrap();
    let mut last = e;
    for i in 1..6u64 {
        last = store.update(last.address, dna(&format!("v{}", i)), author, i).unwrap();
        assert_eq!(last.id, e.id);
        assert_eq!(store.get(e.id), Ok(last));
        assert_eq!(store.get(e.id).unwrap().id, e.id);
    }
    assert_eq!(store.len(), 6);
}

#[test]
fn stale_update_becomes_head() {
    let mut store = Store::new();
    let author = AgentKey { key: 1 };
    let e = store.create(dna("v0"), author, 1).unwrap();
    let u1 = store.update(e.address, dna("v1"), author, 2).unwrap();
    let u2 = store.update(e.address, dna("v2"), author, 3).unwrap();
    assert_ne!(u1.address, u2.address);
    assert_eq!(store.get(e.id).unwrap().address, u2.address);
    assert_eq!(store.get(u1.address).unwrap().address, u2.address);
    match store.record(u1.address) {
        Some(Record::Dna(d)) => assert_eq!(d.name, "v1"),
        _ => panic!("record lost"),
    }
}

#[test]
fn get_unknown_is_not_found() {
    let store = Store::new();
    assert_eq!(store.get(Address { slot: 0 }), Err(StoreError::NotFound));
}

#[test]
fn update_unknown_is_not_found() {
    let mut store = Store::new();
    let author = AgentKey { key: 1 };
    assert_eq!(store.update(Address { slot: 3 }, dna("x"), author, 1), Err(StoreError::NotFound));
    assert_eq!(store.len(), 0);
}

#[test]
fn create_accepts_dna_with_empty_name() {
    let mut store = Store::new();
    let author = AgentKey { key: 1 };
    let e = store.create(dna(""), author, 1).unwrap();
    assert_eq!(e.id, Address { slot: 0 });
    assert_eq!(store.len(), 1);
}

#[test]
fn create_rejects_dangling_reference() {
    let mut store = Store::new();
    let author = AgentKey { key: 1 };
    let version = Record::DnaVersion(DnaVersionEntry {
        for_dna: Address { slot: 5 },
        version: 1,
        published_at: 1,
        file_size: 0,
        contributors: vec![],
        changelog: String::new(),
        chunk_addresses: vec![],
    });
    assert_eq!(
        store.create(version, author, 1),
        Err(StoreError::Validation(ValidationError::UnknownReference))
    );
}

#[test]
fn create_rejects_chunk_length_mismatch() {
    let mut store = Store::new();
    let author = AgentKey { key: 1 };
    let chunk = Record::DnaChunk(DnaChunkEntry {
        sequence: SequencePosition { position: 0, length: 2 },
        bytes: vec![1],
    });
    assert_eq!(
        store.create(chunk, author, 1),
        Err(StoreError::Validation(ValidationError::LengthMismatch))
    );
}

#[test]
fn update_rejects_change_of_kind() {
    let mut store = Store::new();
    let author = AgentKey { key: 1 };
    let e = store.create(dna("a"), author, 1).unwrap();
    let chunk = Record::DnaChunk(DnaChunkEntry {
        sequence: SequencePosition { position: 0, length: 1 },
        bytes: vec![1],
    });
    assert_eq!(
        store.update(e.address, chunk, author, 2),
        Err(StoreError::Validation(ValidationError::WrongKind))
    );
}
