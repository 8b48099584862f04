//! Reviews of published records, indexed under their author and under each
//! subject they review.
use vstd::prelude::*;
use vstd::string::StringExecFns;
use crate::entity::{Address, AgentKey, Entity, EntityType, Model, RecordKind, copy_vec};
use crate::index::{
    AnchorIndex, AnchorKey, LinkView, Segment, SegmentView, lemma_targets_concat, lemma_with_anchor_grows,
    targets,
};
use crate::record::{Record, ValidationError, all_resolve, keys_unique, resolves, validation};
use crate::store::{History, Store, StoreError, admitted, lemma_get_after_update, update_outcome};

verus! {

/// A review, as stored. `metadata` pairs names with YAML documents kept as
/// their text.
#[derive(Debug, Clone)]
pub struct ReviewEntry {
    pub subject_ids: Vec<Address>,
    pub author: AgentKey,
    pub accuracy_rating: u8,
    pub efficiency_rating: u8,
    pub message: String,
    pub published_at: u64,
    pub last_updated: u64,
    pub metadata: Vec<(String, String)>,
    pub deleted: bool,
}

/// A review without its subjects, message and metadata.
#[derive(Debug, Clone, Copy, PartialEq, Eq, Structural)]
pub struct ReviewSummary {
    pub author: AgentKey,
    pub accuracy_rating: u8,
    pub efficiency_rating: u8,
    pub published_at: u64,
    pub last_updated: u64,
    pub deleted: bool,
}

impl ReviewEntry {
    pub fn to_summary(&self) -> (r: ReviewSummary)
        ensures
            r == (ReviewSummary {
                author: self.author,
                accuracy_rating: self.accuracy_rating,
                efficiency_rating: self.efficiency_rating,
                published_at: self.published_at,
                last_updated: self.last_updated,
                deleted: self.deleted,
            }),
    {
        ReviewSummary {
            author: self.author,
            accuracy_rating: self.accuracy_rating,
            efficiency_rating: self.efficiency_rating,
            published_at: self.published_at,
            last_updated: self.last_updated,
            deleted: self.deleted,
        }
    }
}

/// What a new review is made from; times left out default to the time of
/// the call.
#[derive(Debug, Clone)]
pub struct ReviewInput {
    pub subject_ids: Vec<Address>,
    pub accuracy_rating: u8,
    pub efficiency_rating: u8,
    pub message: String,
    pub published_at: Option<u64>,
    pub last_updated: Option<u64>,
    pub metadata: Option<Vec<(String, String)>>,
}

/// The fields an update replaces; those left `None` keep their value.
#[derive(Debug, Clone)]
pub struct ReviewUpdateOptions {
    pub accuracy_rating: Option<u8>,
    pub efficiency_rating: Option<u8>,
    pub message: Option<String>,
    pub published_at: Option<u64>,
    pub last_updated: Option<u64>,
    pub metadata: Option<Vec<(String, String)>>,
}

pub open spec fn or_else<T>(o: Option<T>, d: T) -> T {
    match o {
        Some(v) => v,
        None => d,
    }
}

pub open spec fn metadata_or(o: Option<Vec<(String, String)>>, d: Seq<(String, String)>) -> Seq<(String, String)> {
    match o {
        Some(v) => v@,
        None => d,
    }
}

/// `e` is the review made from `input` by `author` at `now`.
pub open spec fn review_from_input(e: ReviewEntry, input: ReviewInput, author: AgentKey, now: u64) -> bool {
    &&& e.subject_ids@ == input.subject_ids@
    &&& e.author == author
    &&& e.accuracy_rating == input.accuracy_rating
    &&& e.efficiency_rating == input.efficiency_rating
    &&& e.message == input.message
    &&& e.published_at == or_else(input.published_at, now)
    &&& e.last_updated == or_else(input.last_updated, now)
    &&& e.metadata@ == metadata_or(input.metadata, Seq::empty())
    &&& !e.deleted
}

/// `e` is `cur` with the options applied.
pub open spec fn review_updated(e: ReviewEntry, cur: ReviewEntry, props: ReviewUpdateOptions) -> bool {
    &&& e.subject_ids@ == cur.subject_ids@
    &&& e.author == cur.author
    &&& e.accuracy_rating == or_else(props.accuracy_rating, cur.accuracy_rating)
    &&& e.efficiency_rating == or_else(props.efficiency_rating, cur.efficiency_rating)
    &&& e.message == or_else(props.message, cur.message)
    &&& e.published_at == or_else(props.published_at, cur.published_at)
    &&& e.last_updated == or_else(props.last_updated, cur.last_updated)
    &&& e.metadata@ == metadata_or(props.metadata, cur.metadata@)
    &&& e.deleted == cur.deleted
}

/// `e` is `cur` flagged deleted.
pub open spec fn review_deleted(e: ReviewEntry, cur: ReviewEntry) -> bool {
    &&& e.subject_ids@ == cur.subject_ids@
    &&& e.author == cur.author
    &&& e.accuracy_rating == cur.accuracy_rating
    &&& e.efficiency_rating == cur.efficiency_rating
    &&& e.message == cur.message
    &&& e.published_at == cur.published_at
    &&& e.last_updated == cur.last_updated
    &&& e.metadata@ == cur.metadata@
    &&& e.deleted
}

pub open spec fn review_tag() -> Seq<char> {
    "review"@
}

/// The anchor of the reviews that `author` wrote.
pub open spec fn author_reviews_key(author: AgentKey) -> Seq<SegmentView> {
    seq![SegmentView::Agent(author), SegmentView::Name("reviews"@)]
}

/// The anchor of the reviews of `subject`.
pub open spec fn subject_reviews_key(subject: Address) -> Seq<SegmentView> {
    seq![SegmentView::Name("reviews"@), SegmentView::Entry(subject)]
}

/// The links that a new review at `target` gets: one under its author, then
/// one under each subject, in order.
pub open spec fn review_links(author: AgentKey, target: Address, subjects: Seq<Address>) -> Seq<LinkView> {
    seq![LinkView { base: author_reviews_key(author), target, tag: review_tag() }] + subjects.map_values(
        |s: Address| LinkView { base: subject_reviews_key(s), target, tag: review_tag() },
    )
}

fn author_reviews_anchor(author: AgentKey) -> (r: AnchorKey)
    ensures
        r@ == author_reviews_key(author),
{
    let segments = vec![Segment::Agent(author), Segment::Name(String::from_str("reviews"))];
    let r = AnchorKey { segments };
    assert(r@ =~= author_reviews_key(author));
    r
}

fn subject_reviews_anchor(subject: Address) -> (r: AnchorKey)
    ensures
        r@ == subject_reviews_key(subject),
{
    let segments = vec![Segment::Name(String::from_str("reviews")), Segment::Entry(subject)];
    let r = AnchorKey { segments };
    assert(r@ =~= subject_reviews_key(subject));
    r
}

fn review_tag_string() -> (r: String)
    ensures
        r@ == review_tag(),
{
    String::from_str("review")
}

fn copy_metadata(m: &Vec<(String, String)>) -> (r: Vec<(String, String)>)
    ensures
        r@ == m@,
{
    let mut r: Vec<(String, String)> = Vec::new();
    let mut i: usize = 0;
    while i < m.len()
        invariant
            i <= m@.len(),
            r@ == m@.subrange(0, i as int),
        decreases m@.len() - i,
    {
        let (k, v) = &m[i];
        r.push((k.clone(), v.clone()));
        i = i + 1;
        assert(r@ =~= m@.subrange(0, i as int));
    }
    assert(r@ =~= m@);
    r
}

/// Writes a review by `author` at time `now`, and links it under the
/// author's anchor and under the anchor of each subject.
pub fn create_review(
    store: &mut Store,
    index: &mut AnchorIndex,
    input: ReviewInput,
    author: AgentKey,
    now: u64,
) -> (r: Result<Entity, StoreError>)
    requires
        old(store).wf(),
        old(index).wf(),
        old(store).history().len() < usize::MAX,
    ensures
        final(store).wf(),
        final(index).wf(),
        input.subject_ids@.len() == 0 ==> r == Err::<Entity, StoreError>(
            StoreError::Validation(ValidationError::MissingField),
        ),
        input.subject_ids@.len() > 0 && !all_resolve(input.subject_ids@, old(store).history().len())
            ==> r == Err::<Entity, StoreError>(StoreError::Validation(ValidationError::UnknownReference)),
        input.subject_ids@.len() > 0 && all_resolve(input.subject_ids@, old(store).history().len())
            && !keys_unique(metadata_or(input.metadata, Seq::empty())) ==> r == Err::<Entity, StoreError>(
            StoreError::Validation(ValidationError::DuplicateKey),
        ),
        input.subject_ids@.len() > 0 && all_resolve(input.subject_ids@, old(store).history().len())
            && keys_unique(metadata_or(input.metadata, Seq::empty())) ==> r == Ok::<Entity, StoreError>(
            Entity {
                id: Address { slot: old(store).history().len() as usize },
                address: Address { slot: old(store).history().len() as usize },
                ctype: EntityType { kind: RecordKind::Review, model: Model::Entry },
            },
        ),
        r is Err ==> final(store).history() == old(store).history() && final(index).anchors_view()
            == old(index).anchors_view() && final(index).links_view() == old(index).links_view(),
        r is Ok ==> {
            let n = old(store).history().len();
            let c = final(store).history().records[n as int].content;
            &&& input.subject_ids@.len() > 0 && all_resolve(input.subject_ids@, n)
            &&& keys_unique(metadata_or(input.metadata, Seq::empty()))
            &&& c is Review && review_from_input(c->Review_0, input, author, now)
            &&& final(store).history() == old(store).history().created(c, author, now)
            &&& final(index).links_view() == old(index).links_view() + review_links(
                author,
                Address { slot: n as usize },
                input.subject_ids@,
            )
            &&& forall|k: Seq<SegmentView>| old(index).anchors_view().contains(k) ==> final(index).anchors_view().contains(k)
            &&& final(index).anchors_view().contains(author_reviews_key(author))
            &&& forall|i: int| 0 <= i < input.subject_ids@.len() ==> final(index).anchors_view().contains(
                subject_reviews_key(#[trigger] input.subject_ids@[i]),
            )
        },
{
    let ghost input0 = input;
    let ReviewInput {
        subject_ids,
        accuracy_rating,
        efficiency_rating,
        message,
        published_at,
        last_updated,
        metadata,
    } = input;
    let review = ReviewEntry {
        subject_ids: copy_vec(&subject_ids),
        author,
        accuracy_rating,
        efficiency_rating,
        message,
        published_at: match published_at {
            Some(t) => t,
            None => now,
        },
        last_updated: match last_updated {
            Some(t) => t,
            None => now,
        },
        metadata: match metadata {
            Some(m) => m,
            None => Vec::new(),
        },
        deleted: false,
    };
    assert(review_from_input(review, input0, author, now));
    let ghost old_links = index.links_view();
    let ghost old_anchors = index.anchors_view();
    let entity = store.create(Record::Review(review), author, now)?;
    let target = entity.id;

    index.ensure_anchor(author_reviews_anchor(author));
    index.link(author_reviews_anchor(author), target, review_tag_string());
    proof {
        lemma_with_anchor_grows(old_anchors, author_reviews_key(author));
        assert(review_links(author, target, subject_ids@.take(0)) =~= seq![
            LinkView { base: author_reviews_key(author), target, tag: review_tag() },
        ]);
    }

    let mut i: usize = 0;
    while i < subject_ids.len()
        invariant
            index.wf(),
            i <= subject_ids@.len(),
            subject_ids@ == input0.subject_ids@,
            index.links_view() == old_links + review_links(author, target, subject_ids@.take(i as int)),
            forall|k: Seq<SegmentView>| old_anchors.contains(k) ==> index.anchors_view().contains(k),
            index.anchors_view().contains(author_reviews_key(author)),
            forall|j: int| 0 <= j < i ==> index.anchors_view().contains(
                subject_reviews_key(#[trigger] subject_ids@[j]),
            ),
        decreases subject_ids@.len() - i,
    {
        let subject = subject_ids[i];
        let ghost before = index.anchors_view();
        index.ensure_anchor(subject_reviews_anchor(subject));
        index.link(subject_reviews_anchor(subject), target, review_tag_string());
        proof {
            lemma_with_anchor_grows(before, subject_reviews_key(subject));
            assert(subject_ids@.take(i + 1) =~= subject_ids@.take(i as int).push(subject));
            assert(review_links(author, target, subject_ids@.take(i + 1)) =~= review_links(
                author,
                target,
                subject_ids@.take(i as int),
            ).push(LinkView { base: subject_reviews_key(subject), target, tag: review_tag() }));
        }
        i = i + 1;
    }
    proof {
        assert(subject_ids@.take(subject_ids@.len() as int) =~= subject_ids@);
    }
    Ok(entity)
}

/// The review that `id` belongs to, at its current head.
pub fn get_review(store: &Store, id: Address) -> (r: Result<(Entity, &ReviewEntry), StoreError>)
    requires
        store.wf(),
    ensures
        match store.history().head_record(id) {
            Some(Record::Review(rv)) => r is Ok && r->Ok_0.0 == store.history().get(id)->Ok_0
                && *r->Ok_0.1 == rv,
            Some(_) => r == Err::<(Entity, &ReviewEntry), StoreError>(
                StoreError::Validation(ValidationError::WrongKind),
            ),
            None => r == Err::<(Entity, &ReviewEntry), StoreError>(StoreError::NotFound),
        },
{
    match store.get_with_content(id) {
        Ok((e, Record::Review(rv))) => Ok((e, rv)),
        Ok(_) => Err(StoreError::Validation(ValidationError::WrongKind)),
        Err(e) => Err(e),
    }
}

proof fn lemma_review_still_valid(store: &Store, at: Address, e: ReviewEntry)
    requires
        store.wf(),
        at.slot < store.history().len(),
        store.history().records[at.slot as int].content is Review,
        e.subject_ids@ == store.history().records[at.slot as int].content->Review_0.subject_ids@,
    ensures
        validation(Record::Review(e), store.history().len()) == if keys_unique(e.metadata@) {
            Ok::<(), ValidationError>(())
        } else {
            Err(ValidationError::DuplicateKey)
        },
        keys_unique(store.history().records[at.slot as int].content->Review_0.metadata@),
{
    let h = store.history();
    let i = at.slot as int;
    assert(admitted(h.records, i));
    let s = e.subject_ids@;
    assert forall|j: int| 0 <= j < s.len() implies resolves(#[trigger] s[j], h.len()) by {
        assert(resolves(s[j], i as nat));
    }
}

/// Writes a new version of the review at `addr` with the options applied.
pub fn update_review(
    store: &mut Store,
    addr: Address,
    props: ReviewUpdateOptions,
    author: AgentKey,
    now: u64,
) -> (r: Result<Entity, StoreError>)
    requires
        old(store).wf(),
        old(store).history().len() < usize::MAX,
    ensures
        final(store).wf(),
        addr.slot >= old(store).history().len() ==> r == Err::<Entity, StoreError>(StoreError::NotFound),
        addr.slot < old(store).history().len() && !(old(store).history().records[addr.slot as int].content is Review)
            ==> r == Err::<Entity, StoreError>(StoreError::Validation(ValidationError::WrongKind)),
        r is Err ==> final(store).history() == old(store).history(),
        r is Ok ==> {
            let n = old(store).history().len();
            let cur = old(store).history().records[addr.slot as int].content;
            let c = final(store).history().records[n as int].content;
            &&& addr.slot < n && cur is Review
            &&& c is Review && review_updated(c->Review_0, cur->Review_0, props)
            &&& r == update_outcome(old(store).history(), addr, c)
            &&& final(store).history() == old(store).history().updated(addr, c, author, now)
        },
        addr.slot < old(store).history().len() && old(store).history().records[addr.slot as int].content is Review
            ==> {
            let cur = old(store).history().records[addr.slot as int].content->Review_0;
            if keys_unique(metadata_or(props.metadata, cur.metadata@)) {
                r is Ok
            } else {
                r == Err::<Entity, StoreError>(StoreError::Validation(ValidationError::DuplicateKey))
            }
        },
{
    let ghost props0 = props;
    let next = match store.record(addr) {
        None => {
            return Err(StoreError::NotFound);
        },
        Some(Record::Review(cur)) => ReviewEntry {
            subject_ids: copy_vec(&cur.subject_ids),
            author: cur.author,
            accuracy_rating: match props.accuracy_rating {
                Some(v) => v,
                None => cur.accuracy_rating,
            },
            efficiency_rating: match props.efficiency_rating {
                Some(v) => v,
                None => cur.efficiency_rating,
            },
            message: match props.message {
                Some(v) => v,
                None => cur.message.clone(),
            },
            published_at: match props.published_at {
                Some(v) => v,
                None => cur.published_at,
            },
            last_updated: match props.last_updated {
                Some(v) => v,
                None => cur.last_updated,
            },
            metadata: match props.metadata {
                Some(v) => v,
                None => copy_metadata(&cur.metadata),
            },
            deleted: cur.deleted,
        },
        Some(_) => {
            return Err(StoreError::Validation(ValidationError::WrongKind));
        },
    };
    proof {
        lemma_review_still_valid(store, addr, next);
    }
    store.update(addr, Record::Review(next), author, now)
}

/// Flags the review at `addr` deleted, as a new version. The record and its
/// links stay.
pub fn delete_review(store: &mut Store, addr: Address, author: AgentKey, now: u64) -> (r: Result<Entity, StoreError>)
    requires
        old(store).wf(),
        old(store).history().len() < usize::MAX,
    ensures
        final(store).wf(),
        addr.slot >= old(store).history().len() ==> r == Err::<Entity, StoreError>(StoreError::NotFound),
        addr.slot < old(store).history().len() && !(old(store).history().records[addr.slot as int].content is Review)
            ==> r == Err::<Entity, StoreError>(StoreError::Validation(ValidationError::WrongKind)),
        r is Err ==> final(store).history() == old(store).history(),
        r is Ok ==> {
            let n = old(store).history().len();
            let cur = old(store).history().records[addr.slot as int].content;
            let c = final(store).history().records[n as int].content;
            &&& addr.slot < n && cur is Review
            &&& c is Review && review_deleted(c->Review_0, cur->Review_0)
            &&& r == update_outcome(old(store).history(), addr, c)
            &&& final(store).history() == old(store).history().updated(addr, c, author, now)
        },
        addr.slot < old(store).history().len() && old(store).history().records[addr.slot as int].content is Review
            ==> r is Ok,
{
    let next = match store.record(addr) {
        None => {
            return Err(StoreError::NotFound);
        },
        Some(Record::Review(cur)) => ReviewEntry {
            subject_ids: copy_vec(&cur.subject_ids),
            author: cur.author,
            accuracy_rating: cur.accuracy_rating,
            efficiency_rating: cur.efficiency_rating,
            message: cur.message.clone(),
            published_at: cur.published_at,
            last_updated: cur.last_updated,
            metadata: copy_metadata(&cur.metadata),
            deleted: true,
        },
        Some(_) => {
            return Err(StoreError::Validation(ValidationError::WrongKind));
        },
    };
    proof {
        lemma_review_still_valid(store, addr, next);
    }
    store.update(addr, Record::Review(next), author, now)
}

/// The links under each subject's anchor.
pub open spec fn subject_links(target: Address, subjects: Seq<Address>) -> Seq<LinkView> {
    subjects.map_values(|x: Address| LinkView { base: subject_reviews_key(x), target, tag: review_tag() })
}

proof fn lemma_subject_targets(target: Address, subjects: Seq<Address>, s: Address)
    requires
        subjects.no_duplicates(),
    ensures
        targets(subject_links(target, subjects), subject_reviews_key(s), review_tag()) == if subjects.contains(s) {
            seq![target]
        } else {
            Seq::<Address>::empty()
        },
    decreases subjects.len(),
{
    if subjects.len() > 0 {
        let front = subjects.drop_last();
        let x = subjects.last();
        assert(front.no_duplicates());
        lemma_subject_targets(target, front, s);
        assert(subject_links(target, subjects).drop_last() =~= subject_links(target, front));
        assert(subject_reviews_key(x)[1] == SegmentView::Entry(x));
        assert(subject_reviews_key(s)[1] == SegmentView::Entry(s));
        if x == s {
            assert(subjects[subjects.len() - 1] == s);
            assert(!front.contains(s)) by {
                if front.contains(s) {
                    let j = choose|j: int| 0 <= j < front.len() && front[j] == s;
                    assert(subjects[j] == s);
                }
            }
            assert(Seq::<Address>::empty().push(target) =~= seq![target]);
        } else {
            assert(subject_reviews_key(x) != subject_reviews_key(s));
            assert(subjects.contains(s) == front.contains(s)) by {
                if subjects.contains(s) {
                    let j = choose|j: int| 0 <= j < subjects.len() && subjects[j] == s;
                    assert(j < subjects.len() - 1);
                    assert(front[j] == s);
                }
                if front.contains(s) {
                    let j = choose|j: int| 0 <= j < front.len() && front[j] == s;
                    assert(subjects[j] == s);
                }
            }
        }
    }
}

/// A new review at `target` is listed once more under its author's anchor,
/// and once more under the anchor of each subject it names once; under the
/// anchor of any other address, nothing changes. Whatever was listed before
/// stays, in order.
pub proof fn lemma_review_listed_under_subjects(
    links: Seq<LinkView>,
    author: AgentKey,
    target: Address,
    subjects: Seq<Address>,
    s: Address,
)
    requires
        subjects.no_duplicates(),
    ensures
        targets(links + review_links(author, target, subjects), author_reviews_key(author), review_tag())
            == targets(links, author_reviews_key(author), review_tag()).push(target),
        subjects.contains(s) ==> targets(links + review_links(author, target, subjects), subject_reviews_key(s), review_tag())
            == targets(links, subject_reviews_key(s), review_tag()).push(target),
        !subjects.contains(s) ==> targets(links + review_links(author, target, subjects), subject_reviews_key(s), review_tag())
            == targets(links, subject_reviews_key(s), review_tag()),
{
    let first = seq![LinkView { base: author_reviews_key(author), target, tag: review_tag() }];
    let rest = subject_links(target, subjects);
    assert(review_links(author, target, subjects) == first + rest);
    assert(links + review_links(author, target, subjects) =~= (links + first) + rest);
    let ak = author_reviews_key(author);
    let sk = subject_reviews_key(s);
    lemma_targets_concat(links + first, rest, ak, review_tag());
    lemma_targets_concat(links, first, ak, review_tag());
    lemma_targets_concat(links + first, rest, sk, review_tag());
    lemma_targets_concat(links, first, sk, review_tag());
    assert(first.drop_last() =~= Seq::<LinkView>::empty());
    assert(ak[0] == SegmentView::Agent(author));
    assert(sk[0] == SegmentView::Name("reviews"@));
    assert(ak != sk);
    assert(first.len() == 1);
    assert(first.last() == LinkView { base: ak, target, tag: review_tag() });
    assert(targets(first.drop_last(), ak, review_tag()) == Seq::<Address>::empty());
    assert(targets(first.drop_last(), sk, review_tag()) == Seq::<Address>::empty());
    assert(targets(first, ak, review_tag()) == Seq::<Address>::empty().push(target));
    assert(targets(first, ak, review_tag()) =~= seq![target]);
    assert(targets(first, sk, review_tag()) =~= Seq::<Address>::empty());
    // no subject link lies under the author's anchor
    assert(targets(rest, ak, review_tag()) =~= Seq::<Address>::empty()) by {
        lemma_no_author_targets(target, subjects, author);
    }
    lemma_subject_targets(target, subjects, s);
    assert(targets(links, ak, review_tag()) + seq![target] + Seq::<Address>::empty() =~= targets(
        links,
        ak,
        review_tag(),
    ).push(target));
    assert(targets(links, sk, review_tag()) + Seq::<Address>::empty() + seq![target] =~= targets(
        links,
        sk,
        review_tag(),
    ).push(target));
    assert(targets(links, sk, review_tag()) + Seq::<Address>::empty() + Seq::<Address>::empty() =~= targets(
        links,
        sk,
        review_tag(),
    ));
}

proof fn lemma_no_author_targets(target: Address, subjects: Seq<Address>, author: AgentKey)
    ensures
        targets(subject_links(target, subjects), author_reviews_key(author), review_tag()) == Seq::<Address>::empty(),
    decreases subjects.len(),
{
    if subjects.len() > 0 {
        let x = subjects.last();
        lemma_no_author_targets(target, subjects.drop_last(), author);
        assert(subject_links(target, subjects).drop_last() =~= subject_links(target, subjects.drop_last()));
        assert(subject_reviews_key(x)[0] == SegmentView::Name("reviews"@));
        assert(author_reviews_key(author)[0] == SegmentView::Agent(author));
        assert(subject_reviews_key(x) != author_reviews_key(author));
    }
}

/// A review flagged deleted still reads back, at the record the deletion
/// wrote, with the flag set and every other field kept; the entity keeps its
/// origin id.
pub proof fn lemma_deleted_review_reads_back(
    h: History,
    at: Address,
    e: ReviewEntry,
    author: AgentKey,
    now: u64,
)
    requires
        h.wf(),
        h.len() < usize::MAX,
        at.slot < h.len(),
        h.records[at.slot as int].content is Review,
        review_deleted(e, h.records[at.slot as int].content->Review_0),
        update_outcome(h, at, Record::Review(e)) is Ok,
    ensures
        h.updated(at, Record::Review(e), author, now).get(at) is Ok,
        h.updated(at, Record::Review(e), author, now).get(at)->Ok_0.id == h.get(at)->Ok_0.id,
        h.updated(at, Record::Review(e), author, now).head_record(at) == Some(Record::Review(e)),
        e.deleted,
{
    lemma_get_after_update(h, at, Record::Review(e), author, now);
}

} // verus!
