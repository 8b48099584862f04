//! Addresses, agents and the entity header shared by every record kind.
use vstd::prelude::*;

verus! {

/// The address of a record in the store: the place of its write in the
/// store's append-only log. Each write gets its own address, never reused.
#[derive(Debug, Clone, Copy, PartialEq, Eq, Structural)]
pub struct Address {
    pub slot: usize,
}

/// The identity of an agent, as the substrate hands it out.
#[derive(Debug, Clone, Copy, PartialEq, Eq, Structural)]
pub struct AgentKey {
    pub key: u64,
}

/// The kinds of record that the store holds.
#[derive(Debug, Clone, Copy, PartialEq, Eq, Structural)]
pub enum RecordKind {
    Dna,
    DnaVersion,
    DnaChunk,
    Happ,
    HappRelease,
    Review,
}

/// The projection that a value is.
#[derive(Debug, Clone, Copy, PartialEq, Eq, Structural)]
pub enum Model {
    Entry,
    Summary,
    Info,
}

/// A record kind together with the projection of it.
#[derive(Debug, Clone, Copy, PartialEq, Eq, Structural)]
pub struct EntityType {
    pub kind: RecordKind,
    pub model: Model,
}

impl EntityType {
    pub fn new(kind: RecordKind, model: Model) -> (r: EntityType)
        ensures
            r == (EntityType { kind, model }),
    {
        EntityType { kind, model }
    }
}

/// A logical entity: `id` is the address of its first record, `address` the
/// address of its current head.
#[derive(Debug, Clone, Copy, PartialEq, Eq, Structural)]
pub struct Entity {
    pub id: Address,
    pub address: Address,
    pub ctype: EntityType,
}

/// An element-wise copy of a vector of plain values.
pub(crate) fn copy_vec<T: Copy>(v: &Vec<T>) -> (r: Vec<T>)
    ensures
        r@ == v@,
{
    let mut r: Vec<T> = Vec::new();
    let mut i: usize = 0;
    while i < v.len()
        invariant
            i <= v@.len(),
            r@ == v@.subrange(0, i as int),
        decreases v@.len() - i,
    {
        r.push(v[i]);
        i = i + 1;
        assert(r@ =~= v@.subrange(0, i as int));
    }
    assert(r@ =~= v@);
    r
}

} // verus!
