//! The versioned entity store: an append-only log of records, each entity a
//! chain of records from its origin to its head.
//!
//! Head selection: an entity's history is the order in which its records
//! were written. An update appends its record after the entity's current
//! head, whichever address it was given, so the latest write is the head and
//! readers never see a fork. Each record is written after the one it follows,
//! so a chain cannot loop.
use vstd::prelude::*;
use crate::entity::{Address, AgentKey, Entity, EntityType, Model, RecordKind};
use crate::record::{Record, ValidationError, kind_of, validation};

verus! {

/// A record together with the metadata of its write.
#[derive(Debug, Clone)]
pub struct StoredRecord {
    pub content: Record,
    /// The address of the entity's first record.
    pub origin: Address,
    /// The address that the writer updated, `None` for a first record.
    pub previous: Option<Address>,
    pub author: AgentKey,
    pub timestamp: u64,
}

/// Why a store operation failed.
#[derive(Debug, Clone, Copy, PartialEq, Eq, Structural)]
pub enum StoreError {
    Validation(ValidationError),
    NotFound,
}

/// Record `i` names as its origin an earlier or equal record of its kind that
/// is its own origin.
pub open spec fn origin_ok(records: Seq<StoredRecord>, i: int) -> bool {
    let o = records[i].origin.slot as int;
    &&& o <= i
    &&& records[o].origin.slot == o
    &&& kind_of(records[i].content) == kind_of(records[o].content)
}

/// Record `i` passed validation when it was written, with `i` records before it.
pub open spec fn admitted(records: Seq<StoredRecord>, i: int) -> bool {
    validation(records[i].content, i as nat) is Ok
}

/// The record after `i`, if any, was written later and belongs to the same
/// entity.
pub open spec fn next_ok(records: Seq<StoredRecord>, next: Seq<Option<usize>>, i: int) -> bool {
    next[i] is Some ==> {
        let n = next[i]->Some_0 as int;
        &&& i < n < records.len()
        &&& records[n].origin == records[i].origin
    }
}

/// The records of a store and, for each, the record written after it in its
/// entity's history.
pub struct History {
    pub records: Seq<StoredRecord>,
    pub next: Seq<Option<usize>>,
}

impl History {
    pub open spec fn len(self) -> nat {
        self.records.len()
    }

    pub open spec fn wf(self) -> bool {
        &&& self.next.len() == self.records.len()
        &&& forall|i: int| 0 <= i < self.len() ==> #[trigger] origin_ok(self.records, i)
        &&& forall|i: int| 0 <= i < self.len() ==> #[trigger] admitted(self.records, i)
        &&& forall|i: int| 0 <= i < self.len() ==> #[trigger] next_ok(self.records, self.next, i)
    }

    /// The record reached from `a` by following the history to its end.
    pub open spec fn head(self, a: int) -> int
        recommends
            self.wf(),
            0 <= a < self.len(),
        decreases self.len() - a,
        when 0 <= a < self.len() && self.next.len() == self.len()
    {
        match self.next[a] {
            Some(n) => if a < n < self.records.len() {
                self.head(n as int)
            } else {
                a
            },
            None => a,
        }
    }

    /// The entity that `a` belongs to, at its current head: the end of the
    /// history that starts at the entity's origin.
    pub open spec fn get(self, a: Address) -> Result<Entity, StoreError> {
        if a.slot < self.len() {
            let h = self.head(self.records[a.slot as int].origin.slot as int);
            Ok(
                Entity {
                    id: self.records[a.slot as int].origin,
                    address: Address { slot: h as usize },
                    ctype: EntityType { kind: kind_of(self.records[h].content), model: Model::Entry },
                },
            )
        } else {
            Err(StoreError::NotFound)
        }
    }

    /// The content of the current head of the entity that `a` belongs to.
    pub open spec fn head_record(self, a: Address) -> Option<Record> {
        match self.get(a) {
            Ok(e) => Some(self.records[e.address.slot as int].content),
            Err(_) => None,
        }
    }

    /// The history after a first record holding `content` is written.
    pub open spec fn created(self, content: Record, author: AgentKey, timestamp: u64) -> History {
        History {
            records: self.records.push(
                StoredRecord {
                    content,
                    origin: Address { slot: self.len() as usize },
                    previous: None,
                    author,
                    timestamp,
                },
            ),
            next: self.next.push(None),
        }
    }

    /// The history after `content` is written as an update given `at`.
    pub open spec fn updated(self, at: Address, content: Record, author: AgentKey, timestamp: u64) -> History {
        let origin = self.records[at.slot as int].origin;
        let h = self.head(origin.slot as int);
        History {
            records: self.records.push(
                StoredRecord { content, origin, previous: Some(at), author, timestamp },
            ),
            next: self.next.update(h, Some(self.len() as usize)).push(None),
        }
    }
}

/// What `create` gives for `content` on a history of `n` records.
pub open spec fn create_outcome(content: Record, n: nat) -> Result<Entity, StoreError> {
    match validation(content, n) {
        Err(e) => Err(StoreError::Validation(e)),
        Ok(_) => Ok(
            Entity {
                id: Address { slot: n as usize },
                address: Address { slot: n as usize },
                ctype: EntityType { kind: kind_of(content), model: Model::Entry },
            },
        ),
    }
}

/// What `update` gives for `content` written at `at`.
pub open spec fn update_outcome(h: History, at: Address, content: Record) -> Result<Entity, StoreError> {
    if at.slot >= h.len() {
        Err(StoreError::NotFound)
    } else if kind_of(content) != kind_of(h.records[at.slot as int].content) {
        Err(StoreError::Validation(ValidationError::WrongKind))
    } else {
        match validation(content, h.len()) {
            Err(e) => Err(StoreError::Validation(e)),
            Ok(_) => Ok(
                Entity {
                    id: h.records[at.slot as int].origin,
                    address: Address { slot: h.len() as usize },
                    ctype: EntityType { kind: kind_of(content), model: Model::Entry },
                },
            ),
        }
    }
}

proof fn lemma_created_wf(h: History, content: Record, author: AgentKey, timestamp: u64)
    requires
        h.wf(),
        h.len() < usize::MAX,
        validation(content, h.len()) is Ok,
    ensures
        h.created(content, author, timestamp).wf(),
{
    let h1 = h.created(content, author, timestamp);
    assert forall|i: int| 0 <= i < h1.len() implies #[trigger] admitted(h1.records, i) by {
        if i < h.len() {
            assert(admitted(h.records, i));
            assert(h1.records[i] == h.records[i]);
        }
    }
    assert forall|i: int| 0 <= i < h1.len() implies #[trigger] origin_ok(h1.records, i) by {
        if i < h.len() {
            assert(origin_ok(h.records, i));
            let o = h.records[i].origin.slot as int;
            assert(h1.records[i] == h.records[i]);
            assert(h1.records[o] == h.records[o]);
        }
    }
    assert forall|i: int| 0 <= i < h1.len() implies #[trigger] next_ok(h1.records, h1.next, i) by {
        if i < h.len() {
            assert(next_ok(h.records, h.next, i));
            assert(h1.records[i] == h.records[i]);
            if h.next[i] is Some {
                let n = h.next[i]->Some_0 as int;
                assert(h1.records[n] == h.records[n]);
            }
        }
    }
}

proof fn lemma_head(h: History, a: int)
    requires
        h.wf(),
        0 <= a < h.len(),
    ensures
        a <= h.head(a) < h.len(),
        h.next[h.head(a)] is None,
        h.records[h.head(a)].origin == h.records[a].origin,
    decreases h.len() - a,
{
    assert(next_ok(h.records, h.next, a));
    if let Some(n) = h.next[a] {
        lemma_head(h, n as int);
    }
}

/// Linking the record after the head that `x` reaches makes `x` reach it.
proof fn lemma_head_relinked(h: History, x: int, hd: int, h2: History)
    requires
        h.wf(),
        0 <= x < h.len(),
        hd == h.head(x),
        h2.records.len() == h.len() + 1,
        h2.next == h.next.update(hd, Some(h.len() as usize)).push(None),
        h.len() < usize::MAX,
    ensures
        h2.head(x) == h.len(),
    decreases h.len() - x,
{
    lemma_head(h, x);
    assert(next_ok(h.records, h.next, x));
    let n = h.len() as int;
    assert(h2.next[n] is None);
    assert(h2.head(n) == n);
    if x != hd {
        let m = h.next[x]->Some_0 as int;
        assert(h2.next[x] == h.next[x]);
        lemma_head_relinked(h, m, hd, h2);
    } else {
        assert(h2.next[x] == Some(h.len() as usize));
    }
}

proof fn lemma_updated_wf(h: History, at: Address, content: Record, author: AgentKey, timestamp: u64)
    requires
        h.wf(),
        h.len() < usize::MAX,
        at.slot < h.len(),
        kind_of(content) == kind_of(h.records[at.slot as int].content),
        validation(content, h.len()) is Ok,
    ensures
        h.updated(at, content, author, timestamp).wf(),
        h.updated(at, content, author, timestamp).head(h.records[at.slot as int].origin.slot as int)
            == h.len(),
{
    let h1 = h.updated(at, content, author, timestamp);
    let a = at.slot as int;
    assert(origin_ok(h.records, a));
    let o = h.records[a].origin.slot as int;
    let hd = h.head(o);
    lemma_head(h, o);
    assert(origin_ok(h.records, o));
    assert forall|i: int| 0 <= i < h1.len() implies #[trigger] admitted(h1.records, i) by {
        if i < h.len() {
            assert(admitted(h.records, i));
            assert(h1.records[i] == h.records[i]);
        }
    }
    assert forall|i: int| 0 <= i < h1.len() implies #[trigger] origin_ok(h1.records, i) by {
        if i < h.len() {
            assert(origin_ok(h.records, i));
            let oi = h.records[i].origin.slot as int;
            assert(h1.records[i] == h.records[i]);
            assert(h1.records[oi] == h.records[oi]);
        } else {
            assert(h1.records[o] == h.records[o]);
        }
    }
    assert forall|i: int| 0 <= i < h1.len() implies #[trigger] next_ok(h1.records, h1.next, i) by {
        if i < h.len() {
            assert(next_ok(h.records, h.next, i));
            assert(h1.records[i] == h.records[i]);
            if i != hd && h.next[i] is Some {
                let n = h.next[i]->Some_0 as int;
                assert(h1.records[n] == h.records[n]);
            }
        }
    }
    lemma_head_relinked(h, o, hd, h1);
}

/// Every record of the store, in the order written.
pub struct Store {
    pub records: Vec<StoredRecord>,
    pub next: Vec<Option<usize>>,
}

impl Store {
    pub open spec fn history(&self) -> History {
        History { records: self.records@, next: self.next@ }
    }

    pub open spec fn wf(&self) -> bool {
        self.history().wf()
    }

    pub fn new() -> (r: Store)
        ensures
            r.wf(),
            r.history().len() == 0,
    {
        Store { records: Vec::new(), next: Vec::new() }
    }

    pub fn len(&self) -> (r: usize)
        ensures
            r == self.history().len(),
    {
        self.records.len()
    }

    /// The record at `address`, where there is one.
    pub fn record(&self, address: Address) -> (r: Option<&Record>)
        ensures
            address.slot < self.history().len() ==> r == Some(
                &self.history().records[address.slot as int].content,
            ),
            address.slot >= self.history().len() ==> r is None,
    {
        if address.slot < self.records.len() {
            Some(&self.records[address.slot].content)
        } else {
            None
        }
    }

    /// The entity that `id` belongs to, with the content of its head.
    pub fn get_with_content(&self, id: Address) -> (r: Result<(Entity, &Record), StoreError>)
        requires
            self.wf(),
        ensures
            match r {
                Ok((e, c)) => self.history().get(id) == Ok::<Entity, StoreError>(e)
                    && self.history().head_record(id) == Some(*c),
                Err(err) => self.history().get(id) == Err::<Entity, StoreError>(err),
            },
    {
        let e = self.get(id)?;
        proof {
            assert(origin_ok(self.records@, id.slot as int));
            lemma_head(self.history(), self.records@[id.slot as int].origin.slot as int);
        }
        Ok((e, &self.records[e.address.slot].content))
    }

    fn walk(&self, from: usize) -> (r: usize)
        requires
            self.wf(),
            from < self.history().len(),
        ensures
            r as int == self.history().head(from as int),
            r < self.history().len(),
    {
        let ghost h = self.history();
        let mut cur: usize = from;
        loop
            invariant
                h == self.history(),
                h.wf(),
                cur < h.len(),
                h.head(cur as int) == h.head(from as int),
            decreases h.len() - cur,
        {
            assert(next_ok(h.records, h.next, cur as int));
            match self.next[cur] {
                Some(n) => {
                    cur = n;
                },
                None => {
                    return cur;
                },
            }
        }
    }

    /// Resolves the entity that `id` belongs to at its current head.
    pub fn get(&self, id: Address) -> (r: Result<Entity, StoreError>)
        requires
            self.wf(),
        ensures
            r == self.history().get(id),
    {
        if id.slot >= self.records.len() {
            return Err(StoreError::NotFound);
        }
        proof {
            assert(origin_ok(self.records@, id.slot as int));
        }
        let h = self.walk(self.records[id.slot].origin.slot);
        Ok(
            Entity {
                id: self.records[id.slot].origin,
                address: Address { slot: h },
                ctype: EntityType::new(self.records[h].content.kind(), Model::Entry),
            },
        )
    }

    /// Writes `content` as the first record of a new entity.
    pub fn create(&mut self, content: Record, author: AgentKey, timestamp: u64) -> (r: Result<
        Entity,
        StoreError,
    >)
        requires
            old(self).wf(),
            old(self).history().len() < usize::MAX,
        ensures
            final(self).wf(),
            r == create_outcome(content, old(self).history().len()),
            r is Ok ==> final(self).history() == old(self).history().created(content, author, timestamp),
            r is Err ==> final(self).history() == old(self).history(),
    {
        let n = self.records.len();
        match content.validate(n) {
            Err(e) => Err(StoreError::Validation(e)),
            Ok(_) => {
                let kind = content.kind();
                let ghost h0 = self.history();
                self.records.push(
                    StoredRecord {
                        content,
                        origin: Address { slot: n },
                        previous: None,
                        author,
                        timestamp,
                    },
                );
                self.next.push(None);
                proof {
                    assert(self.records@ =~= h0.records.push(
                        StoredRecord { content, origin: Address { slot: n }, previous: None, author, timestamp },
                    ));
                    assert(self.next@ =~= h0.next.push(None));
                    lemma_created_wf(h0, content, author, timestamp);
                }
                Ok(
                    Entity {
                        id: Address { slot: n },
                        address: Address { slot: n },
                        ctype: EntityType::new(kind, Model::Entry),
                    },
                )
            },
        }
    }

    /// Writes `content` as the new head of the entity that `at` belongs to.
    /// The new record names `at` as the one it updates, and follows the
    /// entity's current head in its history.
    pub fn update(&mut self, at: Address, content: Record, author: AgentKey, timestamp: u64) -> (r: Result<
        Entity,
        StoreError,
    >)
        requires
            old(self).wf(),
            old(self).history().len() < usize::MAX,
        ensures
            final(self).wf(),
            r == update_outcome(old(self).history(), at, content),
            r is Ok ==> final(self).history() == old(self).history().updated(at, content, author, timestamp),
            r is Err ==> final(self).history() == old(self).history(),
    {
        let n = self.records.len();
        if at.slot >= n {
            return Err(StoreError::NotFound);
        }
        let kind = content.kind();
        if kind != self.records[at.slot].content.kind() {
            return Err(StoreError::Validation(ValidationError::WrongKind));
        }
        match content.validate(n) {
            Err(e) => Err(StoreError::Validation(e)),
            Ok(_) => {
                let ghost h0 = self.history();
                let origin = self.records[at.slot].origin;
                proof {
                    assert(origin_ok(h0.records, at.slot as int));
                }
                let hd = self.walk(origin.slot);
                self.records.push(
                    StoredRecord { content, origin, previous: Some(at), author, timestamp },
                );
                self.next.set(hd, Some(n));
                self.next.push(None);
                proof {
                    let h1 = h0.updated(at, content, author, timestamp);
                    assert(self.records@ =~= h1.records);
                    assert(self.next@ =~= h1.next);
                    lemma_updated_wf(h0, at, content, author, timestamp);
                }
                Ok(
                    Entity {
                        id: origin,
                        address: Address { slot: n },
                        ctype: EntityType::new(kind, Model::Entry),
                    },
                )
            },
        }
    }
}

/// A record reads back, right after it is created, as the entity that
/// `create` returned, with the content written.
pub proof fn lemma_get_after_create(h: History, content: Record, author: AgentKey, timestamp: u64)
    requires
        h.wf(),
        h.len() < usize::MAX,
        create_outcome(content, h.len()) is Ok,
    ensures
        h.created(content, author, timestamp).wf(),
        h.created(content, author, timestamp).get(create_outcome(content, h.len())->Ok_0.id)
            == create_outcome(content, h.len()),
        h.created(content, author, timestamp).head_record(create_outcome(content, h.len())->Ok_0.id)
            == Some(content),
{
    lemma_created_wf(h, content, author, timestamp);
    let h1 = h.created(content, author, timestamp);
    let n = h.len() as int;
    assert(h1.next[n] is None);
    assert(h1.records[n].origin.slot == n);
}

/// An update keeps the origin id of every entity, and the entity updated
/// reads back at the record the update wrote, with its content.
pub proof fn lemma_get_after_update(h: History, at: Address, content: Record, author: AgentKey, timestamp: u64)
    requires
        h.wf(),
        h.len() < usize::MAX,
        update_outcome(h, at, content) is Ok,
    ensures
        h.updated(at, content, author, timestamp).wf(),
        h.updated(at, content, author, timestamp).get(at) == update_outcome(h, at, content),
        h.updated(at, content, author, timestamp).get(update_outcome(h, at, content)->Ok_0.id)
            == update_outcome(h, at, content),
        h.updated(at, content, author, timestamp).head_record(at) == Some(content),
        h.updated(at, content, author, timestamp).head_record(update_outcome(h, at, content)->Ok_0.id)
            == Some(content),
        forall|a: Address| #[trigger] h.get(a) is Ok ==> {
            &&& h.updated(at, content, author, timestamp).get(a) is Ok
            &&& h.updated(at, content, author, timestamp).get(a)->Ok_0.id == h.get(a)->Ok_0.id
        },
{
    lemma_updated_wf(h, at, content, author, timestamp);
    let h1 = h.updated(at, content, author, timestamp);
    let a = at.slot as int;
    assert(origin_ok(h.records, a));
    let o = h.records[a].origin.slot as int;
    assert(origin_ok(h.records, o));
    assert(h1.records[a] == h.records[a]);
    assert(h1.records[o] == h.records[o]);
    assert(h1.records[h.len() as int].content == content);
    assert forall|b: Address| #[trigger] h.get(b) is Ok implies {
        &&& h1.get(b) is Ok
        &&& h1.get(b)->Ok_0.id == h.get(b)->Ok_0.id
    } by {
        assert(h1.records[b.slot as int] == h.records[b.slot as int]);
    }
}

} // verus!
