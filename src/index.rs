//! The anchor index: well-known keys under which tagged, append-only links
//! to entities are kept.
use vstd::prelude::*;
use crate::entity::{Address, AgentKey};

verus! {

/// One step of an anchor's path.
#[derive(Debug, Clone)]
pub enum Segment {
    Agent(AgentKey),
    Entry(Address),
    Name(String),
}

pub enum SegmentView {
    Agent(AgentKey),
    Entry(Address),
    Name(Seq<char>),
}

impl View for Segment {
    type V = SegmentView;

    open spec fn view(&self) -> SegmentView {
        match self {
            Segment::Agent(a) => SegmentView::Agent(*a),
            Segment::Entry(e) => SegmentView::Entry(*e),
            Segment::Name(s) => SegmentView::Name(s@),
        }
    }
}

/// A stable key under which links are grouped: a path of segments.
#[derive(Debug, Clone)]
pub struct AnchorKey {
    pub segments: Vec<Segment>,
}

impl View for AnchorKey {
    type V = Seq<SegmentView>;

    open spec fn view(&self) -> Seq<SegmentView> {
        self.segments@.map_values(|s: Segment| s@)
    }
}

/// The root anchor of an agent.
pub fn root_path(pubkey: AgentKey) -> (r: AnchorKey)
    ensures
        r@ == seq![SegmentView::Agent(pubkey)],
{
    let r = AnchorKey { segments: vec![Segment::Agent(pubkey)] };
    assert(r@ =~= seq![SegmentView::Agent(pubkey)]);
    r
}

/// A tagged edge from an anchor to an entity.
#[derive(Debug, Clone)]
pub struct Link {
    pub base: AnchorKey,
    pub target: Address,
    pub tag: String,
}

pub struct LinkView {
    pub base: Seq<SegmentView>,
    pub target: Address,
    pub tag: Seq<char>,
}

impl View for Link {
    type V = LinkView;

    open spec fn view(&self) -> LinkView {
        LinkView { base: self.base@, target: self.target, tag: self.tag@ }
    }
}

/// The targets of the links from `base` tagged `tag`, in the order linked.
pub open spec fn targets(links: Seq<LinkView>, base: Seq<SegmentView>, tag: Seq<char>) -> Seq<Address>
    decreases links.len(),
{
    if links.len() == 0 {
        Seq::empty()
    } else {
        let l = links.last();
        let rest = targets(links.drop_last(), base, tag);
        if l.base == base && l.tag == tag {
            rest.push(l.target)
        } else {
            rest
        }
    }
}

/// The anchors after `key` is ensured.
pub open spec fn with_anchor(anchors: Seq<Seq<SegmentView>>, key: Seq<SegmentView>) -> Seq<Seq<SegmentView>> {
    if anchors.contains(key) {
        anchors
    } else {
        anchors.push(key)
    }
}

fn segment_eq(a: &Segment, b: &Segment) -> (r: bool)
    ensures
        r == (a@ == b@),
{
    match (a, b) {
        (Segment::Agent(x), Segment::Agent(y)) => x.key == y.key,
        (Segment::Entry(x), Segment::Entry(y)) => x.slot == y.slot,
        (Segment::Name(x), Segment::Name(y)) => *x == *y,
        _ => false,
    }
}

fn anchor_eq(a: &AnchorKey, b: &AnchorKey) -> (r: bool)
    ensures
        r == (a@ == b@),
{
    if a.segments.len() != b.segments.len() {
        assert(a@.len() != b@.len());
        return false;
    }
    let mut i: usize = 0;
    while i < a.segments.len()
        invariant
            a.segments@.len() == b.segments@.len(),
            i <= a.segments@.len(),
            forall|j: int| 0 <= j < i ==> a@[j] == b@[j],
        decreases a.segments@.len() - i,
    {
        if !segment_eq(&a.segments[i], &b.segments[i]) {
            assert(a@[i as int] != b@[i as int]);
            return false;
        }
        i = i + 1;
    }
    assert(a@ =~= b@);
    true
}

/// The anchors that exist, each once, and every link, in the order made.
pub struct AnchorIndex {
    pub anchors: Vec<AnchorKey>,
    pub links: Vec<Link>,
}

impl AnchorIndex {
    pub open spec fn anchors_view(&self) -> Seq<Seq<SegmentView>> {
        self.anchors@.map_values(|k: AnchorKey| k@)
    }

    pub open spec fn links_view(&self) -> Seq<LinkView> {
        self.links@.map_values(|l: Link| l@)
    }

    /// No anchor stands twice.
    pub open spec fn wf(&self) -> bool {
        self.anchors_view().no_duplicates()
    }

    pub fn new() -> (r: AnchorIndex)
        ensures
            r.wf(),
            r.anchors_view().len() == 0,
            r.links_view().len() == 0,
    {
        let r = AnchorIndex { anchors: Vec::new(), links: Vec::new() };
        assert(r.anchors_view() =~= Seq::empty());
        assert(r.links_view() =~= Seq::empty());
        r
    }

    /// Makes sure that the anchor `key` exists, and returns its place among
    /// the anchors. An anchor that exists already is left as it is.
    pub fn ensure_anchor(&mut self, key: AnchorKey) -> (r: usize)
        requires
            old(self).wf(),
        ensures
            final(self).wf(),
            final(self).anchors_view() == with_anchor(old(self).anchors_view(), key@),
            final(self).links_view() == old(self).links_view(),
            r < final(self).anchors_view().len(),
            final(self).anchors_view()[r as int] == key@,
    {
        let ghost old_anchors = self.anchors_view();
        let mut i: usize = 0;
        while i < self.anchors.len()
            invariant
                self.anchors_view() == old_anchors,
                self.wf(),
                i <= self.anchors@.len(),
                forall|j: int| 0 <= j < i ==> self.anchors_view()[j] != key@,
            decreases self.anchors@.len() - i,
        {
            if anchor_eq(&self.anchors[i], &key) {
                assert(old_anchors.contains(key@)) by {
                    assert(old_anchors[i as int] == key@);
                }
                return i;
            }
            i = i + 1;
        }
        assert(!old_anchors.contains(key@));
        self.anchors.push(key);
        assert(self.anchors_view() =~= old_anchors.push(key@));
        i
    }

    /// Appends a link from `base` to `target` tagged `tag`. Nothing is ever
    /// removed.
    pub fn link(&mut self, base: AnchorKey, target: Address, tag: String)
        requires
            old(self).wf(),
        ensures
            final(self).wf(),
            final(self).anchors_view() == old(self).anchors_view(),
            final(self).links_view() == old(self).links_view().push(
                LinkView { base: base@, target, tag: tag@ },
            ),
    {
        let ghost old_links = self.links_view();
        let l = Link { base, target, tag };
        self.links.push(l);
        assert(self.links_view() =~= old_links.push(l@));
    }

    /// The targets linked from `base` with tag `tag`, in the order linked,
    /// repeats kept.
    pub fn list(&self, base: &AnchorKey, tag: &String) -> (r: Vec<Address>)
        ensures
            r@ == targets(self.links_view(), base@, tag@),
    {
        let mut r: Vec<Address> = Vec::new();
        let mut i: usize = 0;
        while i < self.links.len()
            invariant
                i <= self.links@.len(),
                r@ == targets(self.links_view().take(i as int), base@, tag@),
            decreases self.links@.len() - i,
        {
            let l = &self.links[i];
            assert(self.links_view().take(i + 1).drop_last() =~= self.links_view().take(i as int));
            if anchor_eq(&l.base, base) && l.tag == *tag {
                r.push(l.target);
            }
            i = i + 1;
        }
        assert(self.links_view().take(self.links@.len() as int) =~= self.links_view());
        r
    }
}

/// The links made for `targets_made`, one by one, from `base` with `tag`.
pub open spec fn links_to(base: Seq<SegmentView>, tag: Seq<char>, targets_made: Seq<Address>) -> Seq<LinkView> {
    targets_made.map_values(|t: Address| LinkView { base, target: t, tag })
}

/// Listing an anchor and tag after linking `made` to it, one link at a time,
/// gives what it gave before followed by `made`, in order, repeats kept.
pub proof fn lemma_list_after_links(
    links: Seq<LinkView>,
    base: Seq<SegmentView>,
    tag: Seq<char>,
    made: Seq<Address>,
)
    ensures
        targets(links + links_to(base, tag, made), base, tag) == targets(links, base, tag) + made,
    decreases made.len(),
{
    if made.len() == 0 {
        assert(links + links_to(base, tag, made) =~= links);
        assert(targets(links, base, tag) + made =~= targets(links, base, tag));
    } else {
        let front = made.drop_last();
        lemma_list_after_links(links, base, tag, front);
        let all = links + links_to(base, tag, made);
        assert(all.drop_last() =~= links + links_to(base, tag, front));
        assert(targets(links, base, tag) + made =~= (targets(links, base, tag) + front).push(made.last()));
    }
}

/// Ensuring an anchor a second time changes nothing: the key stands once.
pub proof fn lemma_ensure_anchor_idempotent(anchors: Seq<Seq<SegmentView>>, key: Seq<SegmentView>)
    requires
        anchors.no_duplicates(),
    ensures
        with_anchor(with_anchor(anchors, key), key) == with_anchor(anchors, key),
        with_anchor(anchors, key).no_duplicates(),
        with_anchor(anchors, key).contains(key),
{
    if !anchors.contains(key) {
        let s = anchors.push(key);
        assert(s[anchors.len() as int] == key);
        assert forall|i: int, j: int| 0 <= i < s.len() && 0 <= j < s.len() && i != j implies s[i] != s[j] by {
            if i == anchors.len() as int && j < anchors.len() {
                assert(anchors[j] == s[j]);
            } else if j == anchors.len() as int && i < anchors.len() {
                assert(anchors[i] == s[i]);
            }
        }
    }
}

pub(crate) proof fn lemma_with_anchor_grows(anchors: Seq<Seq<SegmentView>>, key: Seq<SegmentView>)
    ensures
        with_anchor(anchors, key).contains(key),
        forall|k: Seq<SegmentView>| anchors.contains(k) ==> #[trigger] with_anchor(anchors, key).contains(k),
{
    if !anchors.contains(key) {
        let s = anchors.push(key);
        assert(s[anchors.len() as int] == key);
        assert forall|k: Seq<SegmentView>| anchors.contains(k) implies #[trigger] s.contains(k) by {
            let j = choose|j: int| 0 <= j < anchors.len() && anchors[j] == k;
            assert(s[j] == k);
        }
    }
}

/// Listing over two runs of links lists the first run, then the second.
pub proof fn lemma_targets_concat(a: Seq<LinkView>, b: Seq<LinkView>, base: Seq<SegmentView>, tag: Seq<char>)
    ensures
        targets(a + b, base, tag) == targets(a, base, tag) + targets(b, base, tag),
    decreases b.len(),
{
    if b.len() == 0 {
        assert(a + b =~= a);
        assert(targets(a, base, tag) + targets(b, base, tag) =~= targets(a, base, tag));
    } else {
        lemma_targets_concat(a, b.drop_last(), base, tag);
        assert((a + b).drop_last() =~= a + b.drop_last());
        assert((a + b).last() == b.last());
        if b.last().base == base && b.last().tag == tag {
            assert(targets(a, base, tag) + targets(b, base, tag) =~= (targets(a, base, tag) + targets(
                b.drop_last(),
                base,
                tag,
            )).push(b.last().target));
        }
    }
}

} // verus!
