use devhub::entity::{Address, AgentKey};
use devhub::index::{root_path, AnchorIndex, AnchorKey, Segment};

fn key(name: &str) -> AnchorKey {
    AnchorKey { segments: vec![Segment::Name(String::from(name))] }
}

#[test]
fn list_returns_links_in_call_order() {
    let mut index = AnchorIndex::new();
    let tag = String::from("review");
    let targets = [3usize, 1, 3, 2];
    for t in targets {
        index.link(key("a"), Address { slot: t }, tag.clone());
    }
    index.link(key("a"), Address { slot: 9 }, String::from("other"));
    index.link(key("b"), Address { slot: 8 }, tag.clone());
    let listed: Vec<usize> = index.list(&key("a"), &tag).iter().map(|a| a.slot).collect();
    assert_eq!(listed, vec![3, 1, 3, 2]);
    assert_eq!(index.list(&key("b"), &tag), vec![Address { slot: 8 }]);
    assert!(index.list(&key("c"), &tag).is_empty());
}

#[test]
fn ensure_anchor_twice_keeps_one() {
    let mut index = AnchorIndex::new();
    let first = index.ensure_anchor(key("reviews"));
    let other = index.ensure_anchor(root_path(AgentKey { key: 4 }));
    let second = index.ensure_anchor(key("reviews"));
    assert_eq!(first, second);
    assert_ne!(first, other);
    assert_eq!(index.anchors.len(), 2);
}
