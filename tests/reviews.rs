use devhub::dna::DnaEntry;
use devhub::entity::{Address, AgentKey};
use devhub::index::{AnchorIndex, AnchorKey, Segment};
use devhub::record::{Record, ValidationError};
use devhub::reviews::{create_review, delete_review, get_review, update_review, ReviewInput, ReviewUpdateOptions};
use devhub::store::{Store, StoreError};

fn subject(store: &mut Store, name: &str) -> Address {
    store
        .create(
            Record::Dna(DnaEntry {
                name: String::from(name),
                description: String::new(),
                published_at: 0,
                developer: None,
                deprecation: None,
            }),
            AgentKey { key: 100 },
            0,
        )
        .unwrap()
        .id
}

fn input(subjects: Vec<Address>) -> ReviewInput {
    ReviewInput {
        subject_ids: subjects,
        accuracy_rating: 4,
        efficiency_rating: 5,
        message: String::from("solid"),
        published_at: None,
        last_updated: Some(77),
        metadata: None,
    }
}

fn subject_anchor(s: Address) -> AnchorKey {
    AnchorKey { segments: vec![Segment::Name(String::from("reviews")), Segment::Entry(s)] }
}

#[test]
fn review_is_linked_under_each_subject_once() {
    let mut store = Store::new();
    let mut index = AnchorIndex::new();
    let x = subject(&mut store, "x");
    let y = subject(&mut store, "y");
    let author = AgentKey { key: 1 };
    let e = create_review(&mut store, &mut index, input(vec![x, y]), author, 50).unwrap();
    let tag = String::from("review");
    assert_eq!(index.list(&subject_anchor(x), &tag), vec![e.address]);
    assert_eq!(index.list(&subject_anchor(y), &tag), vec![e.address]);
    let by_author = AnchorKey {
        segments: vec![Segment::Agent(author), Segment::Name(String::from("reviews"))],
    };
    assert_eq!(index.list(&by_author, &tag), vec![e.address]);
    let (got, rv) = get_review(&store, e.id).unwrap();
    assert_eq!(got, e);
    assert_eq!(rv.published_at, 50);
    assert_eq!(rv.last_updated, 77);
    assert!(rv.metadata.is_empty());
    assert!(!rv.deleted);
}

#[test]
fn deleted_review_is_still_read_and_linked() {
    let mut store = Store::new();
    let mut index = AnchorIndex::new();
    let x = subject(&mut store, "x");
    let author = AgentKey { key: 1 };
    let e = create_review(&mut store, &mut index, input(vec![x]), author, 50).unwrap();
    let d = delete_review(&mut store, e.address, author, 60).unwrap();
    assert_eq!(d.id, e.id);
    let (got, rv) = get_review(&store, e.id).unwrap();
    assert_eq!(got.address, d.address);
    assert!(rv.deleted);
    assert!(rv.to_summary().deleted);
    assert_eq!(rv.message, "solid");
    assert_eq!(index.list(&subject_anchor(x), &String::from("review")), vec![e.address]);
}

#[test]
fn update_review_applies_given_fields() {
    let mut store = Store::new();
    let mut index = AnchorIndex::new();
    let x = subject(&mut store, "x");
    let author = AgentKey { key: 1 };
    let e = create_review(&mut store, &mut index, input(vec![x]), author, 50).unwrap();
    let props = ReviewUpdateOptions {
        accuracy_rating: Some(1),
        efficiency_rating: None,
        message: Some(String::from("changed")),
        published_at: None,
        last_updated: Some(90),
        metadata: Some(vec![(String::from("k"), String::from("v: 1"))]),
    };
    let u = update_review(&mut store, e.address, props, author, 90).unwrap();
    assert_eq!(u.id, e.id);
    let (_, rv) = get_review(&store, e.id).unwrap();
    assert_eq!(rv.accuracy_rating, 1);
    assert_eq!(rv.efficiency_rating, 5);
    assert_eq!(rv.message, "changed");
    assert_eq!(rv.published_at, 50);
    assert_eq!(rv.last_updated, 90);
    assert_eq!(rv.metadata, vec![(String::from("k"), String::from("v: 1"))]);
    assert_eq!(rv.subject_ids, vec![x]);
}

#[test]
fn review_errors() {
    let mut store = Store::new();
    let mut index = AnchorIndex::new();
    let x = subject(&mut store, "x");
    let author = AgentKey { key: 1 };
    assert_eq!(
        create_review(&mut store, &mut index, input(vec![]), author, 1),
        Err(StoreError::Validation(ValidationError::MissingField))
    );
    assert_eq!(
        create_review(&mut store, &mut index, input(vec![Address { slot: 40 }]), author, 1),
        Err(StoreError::Validation(ValidationError::UnknownReference))
    );
    assert!(index.links.is_empty());
    assert_eq!(
        delete_review(&mut store, x, author, 2),
        Err(StoreError::Validation(ValidationError::WrongKind))
    );
    assert_eq!(delete_review(&mut store, Address { slot: 40 }, author, 2), Err(StoreError::NotFound));
    assert!(matches!(
        get_review(&store, x),
        Err(StoreError::Validation(ValidationError::WrongKind))
    ));
    assert!(matches!(get_review(&store, Address { slot: 40 }), Err(StoreError::NotFound)));
}

#[test]
fn review_metadata_keys_must_be_unique() {
    let mut store = Store::new();
    let mut index = AnchorIndex::new();
    let x = subject(&mut store, "x");
    let author = AgentKey { key: 1 };
    let dup = vec![
        (String::from("k"), String::from("1")),
        (String::from("k"), String::from("2")),
    ];
    let mut bad = input(vec![x]);
    bad.metadata = Some(dup.clone());
    assert_eq!(
        create_review(&mut store, &mut index, bad, author, 1),
        Err(StoreError::Validation(ValidationError::DuplicateKey))
    );
    assert!(index.links.is_empty());

    let e = create_review(&mut store, &mut index, input(vec![x]), author, 1).unwrap();
    assert_eq!(e.ctype.kind, devhub::entity::RecordKind::Review);
    let props = ReviewUpdateOptions {
        accuracy_rating: None,
        efficiency_rating: None,
        message: None,
        published_at: None,
        last_updated: None,
        metadata: Some(dup),
    };
    let before = store.len();
    assert_eq!(
        update_review(&mut store, e.address, props, author, 2),
        Err(StoreError::Validation(ValidationError::DuplicateKey))
    );
    assert_eq!(store.len(), before);
}

#[test]
fn n_reviews_of_one_subject_list_in_order() {
    let mut store = Store::new();
    let mut index = AnchorIndex::new();
    let x = subject(&mut store, "x");
    let author = AgentKey { key: 1 };
    let mut made = Vec::new();
    for t in 0..4u64 {
        made.push(create_review(&mut store, &mut index, input(vec![x]), author, t).unwrap().address);
    }
    assert_eq!(index.list(&subject_anchor(x), &String::from("review")), made);
}
