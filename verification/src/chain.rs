use vstd::prelude::*;
use crate::attrs::{AttrValue, AttributeMap};
use crate::envelope::Payload;
use crate::media::MediaKind;

verus! {

/// The capability set of one transform stage.
///
/// Implementations are supplied by users of the runtime; the chain only
/// requires that a stage knows its media kind and exposes the four
/// lifecycle hooks.  `filter_frame` is the push path, `request_frame` the
/// pull/drain path; both may consult and update the chain's attribute map
/// through the handle they are given.  Structural edits — a stage
/// removing or replacing itself — go through the chain's own operations
/// between units, not from inside a hook: a hook holds no handle on the
/// chain that is running it.
pub trait FrameFilter: Sized {
    /// The media kind this stage processes, as a specification-level value.
    spec fn kind_spec(&self) -> MediaKind;

    /// The media kind this stage processes.
    fn media_type(&self) -> (k: MediaKind)
        ensures
            k == self.kind_spec(),
    ;

    /// One-time setup, run by the owning worker before any unit flows.
    fn init(&mut self, stage_name: &String, attrs: &mut AttributeMap) -> (r: Result<(), String>)
        requires
            old(attrs).wf(),
        ensures
            final(attrs).wf(),
    ;

    /// Push path: consumes one unit, optionally yields one.
    fn filter_frame(&mut self, frame: Payload, stage_name: &String, attrs: &mut AttributeMap) -> (r:
        Result<Option<Payload>, String>)
        requires
            old(attrs).wf(),
        ensures
            final(attrs).wf(),
    ;

    /// Pull path: drains one internally buffered unit, if any.
    fn request_frame(&mut self, stage_name: &String, attrs: &mut AttributeMap) -> (r: Result<
        Option<Payload>,
        String,
    >)
        requires
            old(attrs).wf(),
        ensures
            final(attrs).wf(),
    ;

    /// Teardown, run in chain order when the owning worker exits.
    fn uninit(&mut self, stage_name: &String, attrs: &mut AttributeMap)
        requires
            old(attrs).wf(),
        ensures
            final(attrs).wf(),
    ;
}

/// A stage that changes nothing: passes every unit through unchanged and
/// never produces on the pull path.
pub struct NoopFilter {
    pub kind: MediaKind,
}

impl FrameFilter for NoopFilter {
    open spec fn kind_spec(&self) -> MediaKind {
        self.kind
    }

    fn media_type(&self) -> (k: MediaKind) {
        self.kind
    }

    fn init(&mut self, stage_name: &String, attrs: &mut AttributeMap) -> (r: Result<(), String>) {
        Ok(())
    }

    fn filter_frame(&mut self, frame: Payload, stage_name: &String, attrs: &mut AttributeMap) -> (r:
        Result<Option<Payload>, String>) {
        Ok(Some(frame))
    }

    fn request_frame(&mut self, stage_name: &String, attrs: &mut AttributeMap) -> (r: Result<
        Option<Payload>,
        String,
    >) {
        Ok(None)
    }

    fn uninit(&mut self, stage_name: &String, attrs: &mut AttributeMap) {
    }
}

/// One chain node: a named stage with its links.  Nodes live in the
/// chain's arena and address each other by stable arena index, `prev`
/// for traversal only, `next` for ownership order.
pub struct FrameFilterContext<F> {
    pub name: String,
    pub kind: MediaKind,
    pub filter: F,
    pub prev: Option<usize>,
    pub next: Option<usize>,
}

impl<F> FrameFilterContext<F> {
    /// This stage's name within its chain.
    pub fn name(&self) -> (r: String)
        ensures
            r@ == self.name@,
    {
        self.name.clone()
    }
}

/// The first position holding `target`, scanning left to right.
pub open spec fn find_name(names: Seq<Seq<char>>, target: Seq<char>) -> Option<int>
    decreases names.len(),
{
    if names.len() == 0 {
        None
    } else if names[0] == target {
        Some(0int)
    } else {
        match find_name(names.drop_first(), target) {
            Some(i) => Some(i + 1),
            None => None,
        }
    }
}

/// `find_name` finds exactly the first match: nothing before it matches,
/// and it matches, and when nothing matches it returns nothing.
pub proof fn lemma_find_name_characterization(names: Seq<Seq<char>>, target: Seq<char>)
    ensures
        match find_name(names, target) {
            Some(i) => 0 <= i < names.len() && names[i] == target && (forall|j: int|
                0 <= j < i ==> names[j] != target),
            None => forall|j: int| 0 <= j < names.len() ==> names[j] != target,
        },
    decreases names.len(),
{
    if names.len() > 0 && names[0] != target {
        let rest = names.drop_first();
        lemma_find_name_characterization(rest, target);
        match find_name(rest, target) {
            Some(i) => {
                assert(names[i + 1] == rest[i]);
                assert forall|j: int| 0 <= j < i + 1 implies names[j] != target by {
                    if j > 0 {
                        assert(names[j] == rest[j - 1]);
                    }
                }
            }
            None => {
                assert forall|j: int| 0 <= j < names.len() implies names[j] != target by {
                    if j > 0 {
                        assert(names[j] == rest[j - 1]);
                    }
                }
            }
        }
    }
}

/// Any position that is a first match is the one `find_name` returns.
pub proof fn lemma_find_name_at(names: Seq<Seq<char>>, target: Seq<char>, i: int)
    requires
        0 <= i < names.len(),
        names[i] == target,
        forall|j: int| 0 <= j < i ==> names[j] != target,
    ensures
        find_name(names, target) == Some(i),
    decreases names.len(),
{
    if i == 0 {
    } else {
        assert forall|j: int| 0 <= j < i - 1 implies names.drop_first()[j] != target by {
            assert(names.drop_first()[j] == names[j + 1]);
        }
        assert(names.drop_first()[i - 1] == names[i]);
        lemma_find_name_at(names.drop_first(), target, i - 1);
    }
}

/// The link that position `k` should hold toward position `k + 1`.
pub open spec fn next_link(ord: Seq<int>, k: int) -> Option<usize> {
    if k + 1 < ord.len() {
        Some(ord[k + 1] as usize)
    } else {
        None
    }
}

/// The link that position `k` should hold toward position `k - 1`.
pub open spec fn prev_link(ord: Seq<int>, k: int) -> Option<usize> {
    if k > 0 {
        Some(ord[k - 1] as usize)
    } else {
        None
    }
}

/// The arena index of the first position, if any.
pub open spec fn first_link(ord: Seq<int>) -> Option<usize> {
    if ord.len() > 0 {
        Some(ord[0] as usize)
    } else {
        None
    }
}

/// The arena index of the last position, if any.
pub open spec fn last_link(ord: Seq<int>) -> Option<usize> {
    if ord.len() > 0 {
        Some(ord[ord.len() - 1] as usize)
    } else {
        None
    }
}

/// An ordered, runtime-mutable sequence of transform stages attached to
/// one logical stream.
///
/// Nodes live in an arena (`nodes`); a slot is `None` once its node has
/// been removed.  The chain order is carried by the ghost `order`: the
/// arena indices of the live nodes from head to tail.  `wf` ties the
/// physical `prev`/`next`/`head`/`tail` links to that order, which is
/// what makes head-to-tail and tail-to-head traversals agree.
pub struct FramePipeline<F> {
    pub stream_index: usize,
    pub linklabel: Option<String>,
    pub media_type: MediaKind,
    pub nodes: Vec<Option<FrameFilterContext<F>>>,
    pub head: Option<usize>,
    pub tail: Option<usize>,
    pub order: Ghost<Seq<int>>,
    pub attributes: AttributeMap,
}

impl<F> FramePipeline<F> {
    /// The node standing at chain position `k`.
    pub open spec fn node_at(self, k: int) -> FrameFilterContext<F> {
        self.nodes@[self.order@[k]]->Some_0
    }

    /// The stage names in chain order, head to tail.
    pub open spec fn names(self) -> Seq<Seq<char>> {
        Seq::new(self.order@.len(), |k: int| self.node_at(k).name@)
    }

    /// The stage implementations in chain order, head to tail.
    pub open spec fn filters(self) -> Seq<F> {
        Seq::new(self.order@.len(), |k: int| self.node_at(k).filter)
    }

    /// Structural well-formedness: the doubly-linked invariant.
    pub open spec fn wf(self) -> bool {
        let ord = self.order@;
        &&& (forall|k: int| 0 <= k < ord.len() ==> 0 <= #[trigger] ord[k] < self.nodes@.len())
        &&& (forall|k: int|
            0 <= k < ord.len() ==> (#[trigger] self.nodes@[ord[k]]) is Some)
        &&& (forall|k1: int, k2: int|
            0 <= k1 < k2 < ord.len() ==> ord[k1] != ord[k2])
        &&& (forall|k: int|
            0 <= k < ord.len() ==> (#[trigger] self.node_at(k)).next == next_link(ord, k))
        &&& (forall|k: int|
            0 <= k < ord.len() ==> (#[trigger] self.node_at(k)).prev == prev_link(ord, k))
        &&& self.head == first_link(ord)
        &&& self.tail == last_link(ord)
        &&& (forall|i: int|
            0 <= i < self.nodes@.len() && (#[trigger] self.nodes@[i]) is Some ==> ord.contains(i))
        &&& (forall|k: int|
            0 <= k < ord.len() ==> (#[trigger] self.node_at(k)).kind == self.media_type)
        &&& self.attributes.wf()
    }

    /// Everything that identifies the chain, other than its stages.
    pub open spec fn same_identity(self, other: Self) -> bool {
        &&& self.stream_index == other.stream_index
        &&& self.linklabel == other.linklabel
        &&& self.media_type == other.media_type
    }

    /// The chain's shape is untouched: the same order, links and names.
    /// Running stage hooks preserves this; only the stage implementations
    /// and the attribute map may differ.
    pub open spec fn same_structure(self, other: Self) -> bool {
        &&& self.order@ == other.order@
        &&& self.head == other.head
        &&& self.tail == other.tail
        &&& self.names() == other.names()
        &&& self.nodes@.len() == other.nodes@.len()
        &&& self.same_identity(other)
    }

    /// An empty chain for one stream.
    pub fn new(stream_index: usize, linklabel: Option<String>, media_type: MediaKind) -> (r: Self)
        ensures
            r.wf(),
            r.names().len() == 0,
            r.stream_index == stream_index,
            r.linklabel == linklabel,
            r.media_type == media_type,
            r.head is None,
            r.tail is None,
            r.attributes.entries@.len() == 0,
    {
        FramePipeline {
            stream_index,
            linklabel,
            media_type,
            nodes: Vec::new(),
            head: None,
            tail: None,
            order: Ghost(Seq::empty()),
            attributes: AttributeMap::new(),
        }
    }
}

impl<F: FrameFilter> FramePipeline<F> {
    /// Inserts a stage at the head of the chain.
    ///
    /// On a chain that was empty the new node is both head and tail.
    pub fn add_first(&mut self, name: &str, filter: F)
        requires
            old(self).wf(),
            filter.kind_spec() == old(self).media_type,
        ensures
            final(self).wf(),
            final(self).names() == seq![name@].add(old(self).names()),
            final(self).filters() == seq![filter].add(old(self).filters()),
            final(self).same_identity(*old(self)),
            final(self).attributes == old(self).attributes,
            old(self).names().len() == 0 ==> final(self).head == final(self).tail,
    {
        let idx = self.nodes.len();
        let old_head = self.head;
        let node = FrameFilterContext {
            name: name.to_owned(),
            kind: filter.media_type(),
            filter,
            prev: None,
            next: old_head,
        };
        match old_head {
            Some(h) => {
                proof {
                    assert(self.order@[0] == h as int);
                }
                match &mut self.nodes[h] {
                    Some(n) => {
                        n.prev = Some(idx);
                    }
                    None => {
                        proof {
                            assert(false);
                        }
                    }
                }
            }
            None => {
                self.tail = Some(idx);
            }
        }
        self.nodes.push(Some(node));
        self.head = Some(idx);
        proof {
            self.order@ = seq![idx as int].add(self.order@);
        }
        proof {
            let oldp = *old(self);
            let ord = self.order@;
            let old_ord = oldp.order@;
            assert forall|k: int| 1 <= k < ord.len() implies ord[k] == old_ord[k - 1] by {}
            assert forall|k: int| 0 <= k < ord.len() implies 0 <= #[trigger] ord[k]
                < self.nodes@.len() by {}
            assert forall|k: int| 0 <= k < ord.len() implies (#[trigger] self.nodes@[ord[k]])
                is Some by {}
            assert forall|k: int| 0 <= k < ord.len() implies (#[trigger] self.node_at(k)).next
                == next_link(ord, k) && self.node_at(k).prev == prev_link(ord, k)
                && self.node_at(k).kind == self.media_type by {
                if k == 0 {
                } else if k == 1 {
                    assert(oldp.node_at(0).next == next_link(old_ord, 0));
                    assert(oldp.node_at(0).prev == prev_link(old_ord, 0));
                } else {
                    assert(oldp.node_at(k - 1).next == next_link(old_ord, k - 1));
                    assert(oldp.node_at(k - 1).prev == prev_link(old_ord, k - 1));
                    assert(self.node_at(k) == oldp.node_at(k - 1));
                }
            }
            assert forall|i: int|
                0 <= i < self.nodes@.len() && (#[trigger] self.nodes@[i]) is Some implies
                ord.contains(i) by {
                if i == idx as int {
                    assert(ord[0] == i);
                } else {
                    assert(oldp.nodes@[i] is Some);
                    let k = choose|k: int| 0 <= k < old_ord.len() && old_ord[k] == i;
                    assert(ord[k + 1] == i);
                }
            }
            assert(self.wf());
            assert forall|k: int| 0 <= k < ord.len() implies #[trigger] self.names()[k]
                == seq![name@].add(oldp.names())[k] && self.filters()[k]
                == seq![filter].add(oldp.filters())[k] by {
                if k == 1 {
                    assert(ord[1] == old_ord[0]);
                    assert(self.node_at(1).name == oldp.node_at(0).name);
                    assert(self.node_at(1).filter == oldp.node_at(0).filter);
                } else if k > 1 {
                    assert(old_ord[k - 1] != old_ord[0]);
                    assert(self.node_at(k) == oldp.node_at(k - 1));
                }
            }
            assert(self.names() =~= seq![name@].add(oldp.names()));
            assert(self.filters() =~= seq![filter].add(oldp.filters()));
        }
    }

    /// Appends a stage at the tail of the chain.
    ///
    /// On a chain that was empty the new node is both head and tail.
    pub fn add_last(&mut self, name: &str, filter: F)
        requires
            old(self).wf(),
            filter.kind_spec() == old(self).media_type,
        ensures
            final(self).wf(),
            final(self).names() == old(self).names().push(name@),
            final(self).filters() == old(self).filters().push(filter),
            final(self).same_identity(*old(self)),
            final(self).attributes == old(self).attributes,
            old(self).names().len() == 0 ==> final(self).head == final(self).tail,
    {
        let idx = self.nodes.len();
        let old_tail = self.tail;
        let node = FrameFilterContext {
            name: name.to_owned(),
            kind: filter.media_type(),
            filter,
            prev: old_tail,
            next: None,
        };
        match old_tail {
            Some(t) => {
                proof {
                    assert(self.order@[self.order@.len() - 1] == t as int);
                }
                match &mut self.nodes[t] {
                    Some(n) => {
                        n.next = Some(idx);
                    }
                    None => {
                        proof {
                            assert(false);
                        }
                    }
                }
            }
            None => {
                self.head = Some(idx);
            }
        }
        self.nodes.push(Some(node));
        self.tail = Some(idx);
        proof {
            self.order@ = self.order@.push(idx as int);
        }
        proof {
            let oldp = *old(self);
            let ord = self.order@;
            let old_ord = oldp.order@;
            let n = old_ord.len() as int;
            assert forall|k: int| 0 <= k < n implies ord[k] == old_ord[k] by {}
            assert forall|k: int| 0 <= k < ord.len() implies 0 <= #[trigger] ord[k]
                < self.nodes@.len() by {}
            assert forall|k: int| 0 <= k < ord.len() implies (#[trigger] self.nodes@[ord[k]])
                is Some by {}
            assert forall|k: int| 0 <= k < ord.len() implies (#[trigger] self.node_at(k)).next
                == next_link(ord, k) && self.node_at(k).prev == prev_link(ord, k)
                && self.node_at(k).kind == self.media_type by {
                if k == n {
                } else if k == n - 1 {
                    assert(oldp.node_at(k).next == next_link(old_ord, k));
                    assert(oldp.node_at(k).prev == prev_link(old_ord, k));
                } else {
                    assert(oldp.node_at(k).next == next_link(old_ord, k));
                    assert(oldp.node_at(k).prev == prev_link(old_ord, k));
                    assert(self.node_at(k) == oldp.node_at(k));
                }
            }
            assert forall|i: int|
                0 <= i < self.nodes@.len() && (#[trigger] self.nodes@[i]) is Some implies
                ord.contains(i) by {
                if i == idx as int {
                    assert(ord[n] == i);
                } else {
                    assert(oldp.nodes@[i] is Some);
                    let k = choose|k: int| 0 <= k < old_ord.len() && old_ord[k] == i;
                    assert(ord[k] == i);
                }
            }
            assert(self.wf());
            assert forall|k: int| 0 <= k < ord.len() implies #[trigger] self.names()[k]
                == oldp.names().push(name@)[k] && self.filters()[k]
                == oldp.filters().push(filter)[k] by {
                if k == n - 1 {
                    assert(ord[k] == old_ord[k]);
                    assert(self.node_at(k).name == oldp.node_at(k).name);
                    assert(self.node_at(k).filter == oldp.node_at(k).filter);
                } else if 0 <= k < n - 1 {
                    assert(old_ord[k] != old_ord[n - 1]);
                    assert(self.node_at(k) == oldp.node_at(k));
                }
            }
            assert(self.names() =~= oldp.names().push(name@));
            assert(self.filters() =~= oldp.filters().push(filter));
        }
    }
}

impl<F: FrameFilter> FramePipeline<F> {
    /// Inserts a stage immediately before the first stage named
    /// `base_name`, returning whether that anchor was found.
    #[verifier::rlimit(60)]
    pub fn add_before(&mut self, base_name: &str, name: &str, filter: F) -> (r: bool)
        requires
            old(self).wf(),
            filter.kind_spec() == old(self).media_type,
        ensures
            final(self).wf(),
            final(self).same_identity(*old(self)),
            final(self).attributes == old(self).attributes,
            match find_name(old(self).names(), base_name@) {
                Some(b) => r && final(self).names() == old(self).names().insert(b, name@)
                    && final(self).filters() == old(self).filters().insert(b, filter),
                None => !r && *final(self) == *old(self),
            },
    {
        let base = base_name.to_owned();
        let loc = self.locate(&base);
        match loc {
            None => false,
            Some(i) => {
                let ghost oldp = *old(self);
                let ghost ord0 = self.order@;
                let ghost names0 = self.names();
                let ghost b = find_name(names0, base@)->Some_0;
                proof {
                    lemma_find_name_characterization(names0, base@);
                    assert(i as int == ord0[b]);
                }
                let idx = self.nodes.len();
                let p: Option<usize> = match &self.nodes[i] {
                    Some(n) => n.prev,
                    None => {
                        proof {
                            assert(false);
                        }
                        None
                    }
                };
                proof {
                    assert(p == prev_link(ord0, b));
                }
                let node = FrameFilterContext {
                    name: name.to_owned(),
                    kind: filter.media_type(),
                    filter,
                    prev: p,
                    next: Some(i),
                };
                self.nodes.push(Some(node));
                match &mut self.nodes[i] {
                    Some(n) => {
                        n.prev = Some(idx);
                    }
                    None => {
                        proof {
                            assert(false);
                        }
                    }
                }
                match p {
                    Some(pi) => {
                        proof {
                            assert(b > 0 && pi as int == ord0[b - 1]);
                            assert(ord0[b - 1] != ord0[b]);
                        }
                        match &mut self.nodes[pi] {
                            Some(n) => {
                                n.next = Some(idx);
                            }
                            None => {
                                proof {
                                    assert(false);
                                }
                            }
                        }
                    }
                    None => {
                        proof {
                            assert(b == 0);
                        }
                        self.head = Some(idx);
                    }
                }
                proof {
                    self.order@ = ord0.insert(b, idx as int);
                }
                proof {
                    let ord = self.order@;
                    let n = ord0.len() as int;
                    assert(ord.len() == n + 1);
                    assert forall|k: int| 0 <= k < ord.len() implies #[trigger] ord[k] == (
                        if k < b {
                            ord0[k]
                        } else if k == b {
                            idx as int
                        } else {
                            ord0[k - 1]
                        }) by {}
                    assert forall|k: int| 0 <= k < ord.len() implies 0 <= #[trigger] ord[k]
                        < self.nodes@.len() by {}
                    assert forall|k1: int, k2: int| 0 <= k1 < k2 < ord.len() implies ord[k1]
                        != ord[k2] by {
                        if k1 == b {
                            assert(ord[k2] == ord0[k2 - 1] && ord0[k2 - 1] < idx as int);
                        } else if k2 == b {
                            assert(ord[k1] == ord0[k1] && ord0[k1] < idx as int);
                        }
                    }
                    assert forall|k: int| 0 <= k < ord.len() implies (#[trigger] self.nodes@[
                        ord[k]]) is Some by {}
                    assert forall|k: int| 0 <= k < ord.len() implies (#[trigger] self.node_at(
                        k)).next == next_link(ord, k) && self.node_at(k).prev == prev_link(ord, k)
                        && self.node_at(k).kind == self.media_type by {
                        if k < b - 1 {
                            assert(ord0[k] != ord0[b]);
                            assert(ord0[k] != ord0[b - 1]);
                            assert(self.node_at(k) == oldp.node_at(k));
                            assert(oldp.node_at(k).next == next_link(ord0, k));
                            assert(oldp.node_at(k).prev == prev_link(ord0, k));
                        } else if k == b - 1 {
                            assert(oldp.node_at(k).next == next_link(ord0, k));
                            assert(oldp.node_at(k).prev == prev_link(ord0, k));
                            assert(self.node_at(k).next == Some(idx));
                            assert(self.node_at(k).prev == oldp.node_at(k).prev);
                            assert(self.node_at(k).kind == oldp.node_at(k).kind);
                        } else if k == b {
                            assert(self.node_at(k).prev == p);
                            assert(self.node_at(k).next == Some(i));
                        } else if k == b + 1 {
                            assert(ord[k] == ord0[b]);
                            assert(oldp.node_at(b).next == next_link(ord0, b));
                            assert(self.node_at(k).next == oldp.node_at(b).next);
                            assert(self.node_at(k).prev == Some(idx));
                            assert(self.node_at(k).kind == oldp.node_at(b).kind);
                        } else {
                            assert(ord[k] == ord0[k - 1]);
                            assert(ord0[k - 1] != ord0[b]);
                            assert(b == 0 || ord0[k - 1] != ord0[b - 1]);
                            assert(self.node_at(k) == oldp.node_at(k - 1));
                            assert(oldp.node_at(k - 1).next == next_link(ord0, k - 1));
                            assert(oldp.node_at(k - 1).prev == prev_link(ord0, k - 1));
                        }
                    }
                    assert(self.head == first_link(ord));
                    assert(self.tail == last_link(ord));
                    assert forall|j: int|
                        0 <= j < self.nodes@.len() && (#[trigger] self.nodes@[j]) is Some implies
                        ord.contains(j) by {
                        if j == idx as int {
                            assert(ord[b] == j);
                        } else {
                            assert(oldp.nodes@[j] is Some);
                            let k = choose|k: int| 0 <= k < ord0.len() && ord0[k] == j;
                            if k < b {
                                assert(ord[k] == j);
                            } else {
                                assert(ord[k + 1] == j);
                            }
                        }
                    }
                    assert(self.wf());
                    assert forall|k: int| 0 <= k < ord.len() implies #[trigger] self.names()[k]
                        == names0.insert(b, name@)[k] && self.filters()[k]
                        == oldp.filters().insert(b, filter)[k] by {
                        if k < b - 1 {
                            assert(self.node_at(k) == oldp.node_at(k));
                        } else if k == b - 1 {
                            assert(self.node_at(k).name == oldp.node_at(k).name);
                            assert(self.node_at(k).filter == oldp.node_at(k).filter);
                        } else if k == b {
                        } else if k == b + 1 {
                            assert(self.node_at(k).name == oldp.node_at(b).name);
                            assert(self.node_at(k).filter == oldp.node_at(b).filter);
                        } else {
                            assert(self.node_at(k) == oldp.node_at(k - 1));
                        }
                    }
                    assert(self.names() =~= names0.insert(b, name@));
                    assert(self.filters() =~= oldp.filters().insert(b, filter));
                }
                true
            }
        }
    }
}

impl<F: FrameFilter> FramePipeline<F> {
    /// Inserts a stage immediately after the first stage named
    /// `base_name`, returning whether that anchor was found.
    #[verifier::rlimit(60)]
    pub fn add_after(&mut self, base_name: &str, name: &str, filter: F) -> (r: bool)
        requires
            old(self).wf(),
            filter.kind_spec() == old(self).media_type,
        ensures
            final(self).wf(),
            final(self).same_identity(*old(self)),
            final(self).attributes == old(self).attributes,
            match find_name(old(self).names(), base_name@) {
                Some(b) => r && final(self).names() == old(self).names().insert(b + 1, name@)
                    && final(self).filters() == old(self).filters().insert(b + 1, filter),
                None => !r && *final(self) == *old(self),
            },
    {
        let base = base_name.to_owned();
        let loc = self.locate(&base);
        match loc {
            None => false,
            Some(i) => {
                let ghost oldp = *old(self);
                let ghost ord0 = self.order@;
                let ghost names0 = self.names();
                let ghost b = find_name(names0, base@)->Some_0;
                proof {
                    lemma_find_name_characterization(names0, base@);
                    assert(i as int == ord0[b]);
                }
                let idx = self.nodes.len();
                let s: Option<usize> = match &self.nodes[i] {
                    Some(n) => n.next,
                    None => {
                        proof {
                            assert(false);
                        }
                        None
                    }
                };
                proof {
                    assert(s == next_link(ord0, b));
                }
                let node = FrameFilterContext {
                    name: name.to_owned(),
                    kind: filter.media_type(),
                    filter,
                    prev: Some(i),
                    next: s,
                };
                self.nodes.push(Some(node));
                match &mut self.nodes[i] {
                    Some(n) => {
                        n.next = Some(idx);
                    }
                    None => {
                        proof {
                            assert(false);
                        }
                    }
                }
                match s {
                    Some(si) => {
                        proof {
                            assert(b + 1 < ord0.len() && si as int == ord0[b + 1]);
                            assert(ord0[b + 1] != ord0[b]);
                        }
                        match &mut self.nodes[si] {
                            Some(n) => {
                                n.prev = Some(idx);
                            }
                            None => {
                                proof {
                                    assert(false);
                                }
                            }
                        }
                    }
                    None => {
                        proof {
                            assert(b == ord0.len() - 1);
                        }
                        self.tail = Some(idx);
                    }
                }
                proof {
                    self.order@ = ord0.insert(b + 1, idx as int);
                }
                proof {
                    let ord = self.order@;
                    let n = ord0.len() as int;
                    assert(ord.len() == n + 1);
                    assert forall|k: int| 0 <= k < ord.len() implies #[trigger] ord[k] == (
                        if k < b + 1 {
                            ord0[k]
                        } else if k == b + 1 {
                            idx as int
                        } else {
                            ord0[k - 1]
                        }) by {}
                    assert forall|k: int| 0 <= k < ord.len() implies 0 <= #[trigger] ord[k]
                        < self.nodes@.len() by {}
                    assert forall|k1: int, k2: int| 0 <= k1 < k2 < ord.len() implies ord[k1]
                        != ord[k2] by {
                        if k1 == b + 1 {
                            assert(ord[k2] == ord0[k2 - 1] && ord0[k2 - 1] < idx as int);
                        } else if k2 == b + 1 {
                            assert(ord[k1] == ord0[k1] && ord0[k1] < idx as int);
                        }
                    }
                    assert forall|k: int| 0 <= k < ord.len() implies (#[trigger] self.nodes@[
                        ord[k]]) is Some by {}
                    assert forall|k: int| 0 <= k < ord.len() implies (#[trigger] self.node_at(
                        k)).next == next_link(ord, k) && self.node_at(k).prev == prev_link(ord, k)
                        && self.node_at(k).kind == self.media_type by {
                        if k < b {
                            assert(ord0[k] != ord0[b]);
                            assert(b + 1 >= ord0.len() || ord0[k] != ord0[b + 1]);
                            assert(self.node_at(k) == oldp.node_at(k));
                            assert(oldp.node_at(k).next == next_link(ord0, k));
                            assert(oldp.node_at(k).prev == prev_link(ord0, k));
                        } else if k == b {
                            assert(oldp.node_at(k).next == next_link(ord0, k));
                            assert(oldp.node_at(k).prev == prev_link(ord0, k));
                            assert(self.node_at(k).next == Some(idx));
                            assert(self.node_at(k).prev == oldp.node_at(k).prev);
                            assert(self.node_at(k).kind == oldp.node_at(k).kind);
                        } else if k == b + 1 {
                            assert(self.node_at(k).prev == Some(i));
                            assert(self.node_at(k).next == s);
                        } else if k == b + 2 {
                            assert(ord[k] == ord0[b + 1]);
                            assert(oldp.node_at(b + 1).next == next_link(ord0, b + 1));
                            assert(self.node_at(k).next == oldp.node_at(b + 1).next);
                            assert(self.node_at(k).prev == Some(idx));
                            assert(self.node_at(k).kind == oldp.node_at(b + 1).kind);
                        } else {
                            assert(ord[k] == ord0[k - 1]);
                            assert(ord0[k - 1] != ord0[b]);
                            assert(b + 1 >= ord0.len() || ord0[k - 1] != ord0[b + 1]);
                            assert(self.node_at(k) == oldp.node_at(k - 1));
                            assert(oldp.node_at(k - 1).next == next_link(ord0, k - 1));
                            assert(oldp.node_at(k - 1).prev == prev_link(ord0, k - 1));
                        }
                    }
                    assert(self.head == first_link(ord));
                    assert(self.tail == last_link(ord));
                    assert forall|j: int|
                        0 <= j < self.nodes@.len() && (#[trigger] self.nodes@[j]) is Some implies
                        ord.contains(j) by {
                        if j == idx as int {
                            assert(ord[b + 1] == j);
                        } else {
                            assert(oldp.nodes@[j] is Some);
                            let k = choose|k: int| 0 <= k < ord0.len() && ord0[k] == j;
                            if k < b + 1 {
                                assert(ord[k] == j);
                            } else {
                                assert(ord[k + 1] == j);
                            }
                        }
                    }
                    assert(self.wf());
                    assert forall|k: int| 0 <= k < ord.len() implies #[trigger] self.names()[k]
                        == names0.insert(b + 1, name@)[k] && self.filters()[k]
                        == oldp.filters().insert(b + 1, filter)[k] by {
                        if k < b {
                            assert(self.node_at(k) == oldp.node_at(k));
                        } else if k == b {
                            assert(self.node_at(k).name == oldp.node_at(k).name);
                            assert(self.node_at(k).filter == oldp.node_at(k).filter);
                        } else if k == b + 1 {
                        } else if k == b + 2 {
                            assert(self.node_at(k).name == oldp.node_at(b + 1).name);
                            assert(self.node_at(k).filter == oldp.node_at(b + 1).filter);
                        } else {
                            assert(self.node_at(k) == oldp.node_at(k - 1));
                        }
                    }
                    assert(self.names() =~= names0.insert(b + 1, name@));
                    assert(self.filters() =~= oldp.filters().insert(b + 1, filter));
                }
                true
            }
        }
    }
}

impl<F> FramePipeline<F> {
    /// Removes the first stage named `name`, handing the removed stage
    /// implementation back to the caller.
    ///
    /// Removing the sole remaining stage leaves the chain empty: head and
    /// tail both absent.
    #[verifier::rlimit(60)]
    pub fn remove(&mut self, name: &str) -> (r: Option<F>)
        requires
            old(self).wf(),
        ensures
            final(self).wf(),
            final(self).same_identity(*old(self)),
            final(self).attributes == old(self).attributes,
            match find_name(old(self).names(), name@) {
                Some(b) => r == Some(old(self).filters()[b])
                    && final(self).names() == old(self).names().remove(b)
                    && final(self).filters() == old(self).filters().remove(b),
                None => r is None && *final(self) == *old(self),
            },
            old(self).names().len() == 1 && find_name(old(self).names(), name@) is Some
                ==> final(self).head is None && final(self).tail is None,
    {
        let target = name.to_owned();
        let loc = self.locate(&target);
        match loc {
            None => None,
            Some(i) => {
                let ghost oldp = *old(self);
                let ghost ord0 = self.order@;
                let ghost names0 = self.names();
                let ghost b = find_name(names0, target@)->Some_0;
                let nlen = self.nodes.len();
                proof {
                    lemma_find_name_characterization(names0, target@);
                    assert(i as int == ord0[b]);
                    assert(forall|k: int| 0 <= k < ord0.len() ==> #[trigger] ord0[k] < nlen as int);
                }
                let (p, s): (Option<usize>, Option<usize>) = match &self.nodes[i] {
                    Some(n) => (n.prev, n.next),
                    None => {
                        proof {
                            assert(false);
                        }
                        (None, None)
                    }
                };
                proof {
                    assert(p == prev_link(ord0, b));
                    assert(s == next_link(ord0, b));
                }
                match p {
                    Some(pi) => {
                        proof {
                            assert(b > 0 && pi as int == ord0[b - 1]);
                            assert(ord0[b - 1] != ord0[b]);
                        }
                        match &mut self.nodes[pi] {
                            Some(n) => {
                                n.next = s;
                            }
                            None => {
                                proof {
                                    assert(false);
                                }
                            }
                        }
                    }
                    None => {
                        self.head = s;
                    }
                }
                match s {
                    Some(si) => {
                        proof {
                            assert(b + 1 < ord0.len() && si as int == ord0[b + 1]);
                            assert(ord0[b + 1] != ord0[b]);
                            assert(b == 0 || ord0[b + 1] != ord0[b - 1]);
                        }
                        match &mut self.nodes[si] {
                            Some(n) => {
                                n.prev = p;
                            }
                            None => {
                                proof {
                                    assert(false);
                                }
                            }
                        }
                    }
                    None => {
                        self.tail = p;
                    }
                }
                let mut taken: Option<FrameFilterContext<F>> = None;
                core::mem::swap(&mut taken, &mut self.nodes[i]);
                let node = match taken {
                    Some(n) => n,
                    None => {
                        proof {
                            assert(false);
                        }
                        return None;
                    }
                };
                proof {
                    self.order@ = ord0.remove(b);
                }
                proof {
                    let ord = self.order@;
                    let n = ord0.len() as int;
                    assert(ord.len() == n - 1);
                    assert forall|k: int| 0 <= k < ord.len() implies #[trigger] ord[k] == (
                        if k < b {
                            ord0[k]
                        } else {
                            ord0[k + 1]
                        }) by {}
                    assert forall|k: int| 0 <= k < ord.len() implies 0 <= #[trigger] ord[k]
                        < self.nodes@.len() by {}
                    assert forall|k1: int, k2: int| 0 <= k1 < k2 < ord.len() implies ord[k1]
                        != ord[k2] by {}
                    assert forall|k: int| 0 <= k < ord.len() implies #[trigger] ord[k] != ord0[b]
                        by {}
                    assert forall|k: int| 0 <= k < ord.len() implies (#[trigger] self.nodes@[
                        ord[k]]) is Some by {}
                    assert forall|k: int| 0 <= k < ord.len() implies (#[trigger] self.node_at(
                        k)).next == next_link(ord, k) && self.node_at(k).prev == prev_link(ord, k)
                        && self.node_at(k).kind == self.media_type by {
                        if k < b - 1 {
                            assert(ord0[k] != ord0[b]);
                            assert(ord0[k] != ord0[b - 1]);
                            assert(b + 1 >= n || ord0[k] != ord0[b + 1]);
                            assert(self.node_at(k) == oldp.node_at(k));
                            assert(oldp.node_at(k).next == next_link(ord0, k));
                            assert(oldp.node_at(k).prev == prev_link(ord0, k));
                        } else if k == b - 1 {
                            assert(oldp.node_at(k).next == next_link(ord0, k));
                            assert(oldp.node_at(k).prev == prev_link(ord0, k));
                            assert(self.node_at(k).next == s);
                            assert(self.node_at(k).prev == oldp.node_at(k).prev);
                            assert(self.node_at(k).kind == oldp.node_at(k).kind);
                        } else if k == b {
                            assert(ord[k] == ord0[b + 1]);
                            assert(oldp.node_at(b + 1).next == next_link(ord0, b + 1));
                            assert(self.node_at(k).next == oldp.node_at(b + 1).next);
                            assert(self.node_at(k).prev == p);
                            assert(self.node_at(k).kind == oldp.node_at(b + 1).kind);
                        } else {
                            assert(ord[k] == ord0[k + 1]);
                            assert(ord0[k + 1] != ord0[b]);
                            assert(b == 0 || ord0[k + 1] != ord0[b - 1]);
                            assert(b + 1 >= n || ord0[k + 1] != ord0[b + 1]);
                            assert(self.node_at(k) == oldp.node_at(k + 1));
                            assert(oldp.node_at(k + 1).next == next_link(ord0, k + 1));
                            assert(oldp.node_at(k + 1).prev == prev_link(ord0, k + 1));
                        }
                    }
                    assert(self.head == first_link(ord));
                    assert(self.tail == last_link(ord));
                    assert forall|j: int|
                        0 <= j < self.nodes@.len() && (#[trigger] self.nodes@[j]) is Some implies
                        ord.contains(j) by {
                        assert(j != i as int);
                        assert(oldp.nodes@[j] is Some);
                        let k = choose|k: int| 0 <= k < ord0.len() && ord0[k] == j;
                        assert(k != b);
                        if k < b {
                            assert(ord[k] == j);
                        } else {
                            assert(ord[k - 1] == j);
                        }
                    }
                    assert(self.wf());
                    assert forall|k: int| 0 <= k < ord.len() implies #[trigger] self.names()[k]
                        == names0.remove(b)[k] && self.filters()[k] == oldp.filters().remove(b)[k]
                        by {
                        if k < b - 1 {
                            assert(self.node_at(k) == oldp.node_at(k));
                        } else if k == b - 1 {
                            assert(self.node_at(k).name == oldp.node_at(k).name);
                            assert(self.node_at(k).filter == oldp.node_at(k).filter);
                        } else if k == b {
                            assert(self.node_at(k).name == oldp.node_at(b + 1).name);
                            assert(self.node_at(k).filter == oldp.node_at(b + 1).filter);
                        } else {
                            assert(self.node_at(k) == oldp.node_at(k + 1));
                        }
                    }
                    assert(self.names() =~= names0.remove(b));
                    assert(self.filters() =~= oldp.filters().remove(b));
                    assert(node.filter == oldp.filters()[b]);
                }
                Some(node.filter)
            }
        }
    }

    /// Swaps the stage implementation of the first stage named `old_name`
    /// for `new_filter` under the name `new_name`, returning the stage
    /// that was there.  The chain's structure is untouched: the node
    /// order, head, tail and every stable arena index stay as they were.
    pub fn replace(&mut self, old_name: &str, new_name: &str, new_filter: F) -> (r: Option<F>)
        requires
            old(self).wf(),
        ensures
            final(self).wf(),
            final(self).same_identity(*old(self)),
            final(self).attributes == old(self).attributes,
            final(self).order == old(self).order,
            final(self).head == old(self).head,
            final(self).tail == old(self).tail,
            final(self).nodes@.len() == old(self).nodes@.len(),
            match find_name(old(self).names(), old_name@) {
                Some(b) => r == Some(old(self).filters()[b])
                    && final(self).names() == old(self).names().update(b, new_name@)
                    && final(self).filters() == old(self).filters().update(b, new_filter),
                None => r is None && *final(self) == *old(self),
            },
    {
        let target = old_name.to_owned();
        let loc = self.locate(&target);
        match loc {
            None => None,
            Some(i) => {
                let ghost oldp = *old(self);
                let ghost ord0 = self.order@;
                let ghost names0 = self.names();
                let ghost b = find_name(names0, target@)->Some_0;
                proof {
                    lemma_find_name_characterization(names0, target@);
                    assert(i as int == ord0[b]);
                }
                let renamed = new_name.to_owned();
                let mut swapped = new_filter;
                match &mut self.nodes[i] {
                    Some(n) => {
                        n.name = renamed;
                        core::mem::swap(&mut swapped, &mut n.filter);
                    }
                    None => {
                        proof {
                            assert(false);
                        }
                    }
                }
                proof {
                    let ord = self.order@;
                    assert(ord == ord0);
                    assert forall|k: int| 0 <= k < ord.len() implies (#[trigger] self.nodes@[
                        ord[k]]) is Some by {}
                    assert forall|k: int| 0 <= k < ord.len() implies (#[trigger] self.node_at(
                        k)).next == next_link(ord, k) && self.node_at(k).prev == prev_link(ord, k)
                        && self.node_at(k).kind == self.media_type by {
                        if k != b {
                            assert(ord0[k] != ord0[b]);
                            assert(self.node_at(k) == oldp.node_at(k));
                        }
                        assert(oldp.node_at(k).next == next_link(ord0, k));
                        assert(oldp.node_at(k).prev == prev_link(ord0, k));
                    }
                    assert forall|j: int|
                        0 <= j < self.nodes@.len() && (#[trigger] self.nodes@[j]) is Some implies
                        ord.contains(j) by {
                        assert(oldp.nodes@[j] is Some);
                    }
                    assert(self.wf());
                    assert forall|k: int| 0 <= k < ord.len() implies #[trigger] self.names()[k]
                        == names0.update(b, new_name@)[k] && self.filters()[k]
                        == oldp.filters().update(b, new_filter)[k] by {
                        if k != b {
                            assert(self.node_at(k) == oldp.node_at(k));
                        }
                    }
                    assert(self.names() =~= names0.update(b, new_name@));
                    assert(self.filters() =~= oldp.filters().update(b, new_filter));
                    assert(swapped == oldp.filters()[b]);
                }
                Some(swapped)
            }
        }
    }

    /// Walks the chain head to tail and returns the arena index of the
    /// first node carrying `target`, or nothing when no node does.
    fn locate(&self, target: &String) -> (r: Option<usize>)
        requires
            self.wf(),
        ensures
            match r {
                Some(i) => {
                    &&& find_name(self.names(), target@) matches Some(b)
                        && i as int == self.order@[b]
                    &&& i < self.nodes@.len()
                },
                None => find_name(self.names(), target@) is None,
            },
    {
        let ghost ord = self.order@;
        let ghost names = self.names();
        let nlen = self.nodes.len();
        let mut cur: Option<usize> = self.head;
        let ghost k: int = 0;
        loop
            invariant
                self.wf(),
                self.nodes@.len() == nlen,
                ord == self.order@,
                names == self.names(),
                0 <= k <= ord.len(),
                cur == (if k < ord.len() {
                    Some(ord[k] as usize)
                } else {
                    None::<usize>
                }),
                forall|j: int| 0 <= j < k ==> names[j] != target@,
            decreases ord.len() - k,
        {
            match cur {
                None => {
                    proof {
                        lemma_find_name_characterization(names, target@);
                    }
                    return None;
                }
                Some(i) => {
                    proof {
                        assert(k < ord.len());
                        assert(i as int == ord[k]);
                        assert(self.nodes@[i as int] is Some);
                    }
                    match &self.nodes[i] {
                        Some(n) => {
                            proof {
                                assert(self.nodes@[i as int] == Some(*n));
                                assert(self.node_at(k) == *n);
                                assert(names[k] == n.name@);
                            }
                            if n.name == *target {
                                proof {
                                    assert(names[k] == target@);
                                    lemma_find_name_at(names, target@, k);
                                }
                                return Some(i);
                            }
                            cur = n.next;
                            proof {
                                k = k + 1;
                            }
                        }
                        None => {
                            proof {
                                assert(false);
                            }
                            return None;
                        }
                    }
                }
            }
        }
    }

    /// Looks a stage up by name; the result is the stable arena index of
    /// the first node with that name, usable with `context_at`.
    pub fn find(&self, name: &str) -> (r: Option<usize>)
        requires
            self.wf(),
        ensures
            match r {
                Some(i) => {
                    &&& find_name(self.names(), name@) matches Some(b)
                        && i as int == self.order@[b]
                    &&& i < self.nodes@.len()
                },
                None => find_name(self.names(), name@) is None,
            },
    {
        let owned = name.to_owned();
        self.locate(&owned)
    }

    /// The head node, if the chain is not empty.
    pub fn first_context(&self) -> (r: Option<&FrameFilterContext<F>>)
        requires
            self.wf(),
        ensures
            match r {
                Some(c) => self.names().len() > 0 && c.name@ == self.names()[0] && c.filter
                    == self.filters()[0],
                None => self.names().len() == 0,
            },
    {
        let nlen = self.nodes.len();
        match self.head {
            None => None,
            Some(h) => {
                proof {
                    assert(self.order@[0] < nlen as int);
                    assert(self.order@[0] == h as int);
                }
                match &self.nodes[h] {
                    Some(n) => Some(n),
                    None => {
                        proof {
                            assert(false);
                        }
                        None
                    }
                }
            }
        }
    }

    /// The tail node, if the chain is not empty.
    pub fn last_context(&self) -> (r: Option<&FrameFilterContext<F>>)
        requires
            self.wf(),
        ensures
            match r {
                Some(c) => self.names().len() > 0 && c.name@ == self.names()[self.names().len()
                    - 1] && c.filter == self.filters()[self.names().len() - 1],
                None => self.names().len() == 0,
            },
    {
        let nlen = self.nodes.len();
        match self.tail {
            None => None,
            Some(t) => {
                proof {
                    assert(self.order@[self.order@.len() - 1] < nlen as int);
                    assert(self.order@[self.order@.len() - 1] == t as int);
                }
                match &self.nodes[t] {
                    Some(n) => Some(n),
                    None => {
                        proof {
                            assert(false);
                        }
                        None
                    }
                }
            }
        }
    }

    /// The stage names read by following `next` links from the head.
    pub fn names_head_to_tail(&self) -> (r: Vec<String>)
        requires
            self.wf(),
        ensures
            r@.map_values(|s: String| s@) == self.names(),
    {
        let ghost ord = self.order@;
        let ghost names = self.names();
        let nlen = self.nodes.len();
        let mut out: Vec<String> = Vec::new();
        let mut cur: Option<usize> = self.head;
        let ghost k: int = 0;
        loop
            invariant
                self.wf(),
                self.nodes@.len() == nlen,
                ord == self.order@,
                names == self.names(),
                0 <= k <= ord.len(),
                cur == (if k < ord.len() {
                    Some(ord[k] as usize)
                } else {
                    None::<usize>
                }),
                out@.len() == k,
                forall|j: int| 0 <= j < k ==> #[trigger] out@[j]@ == names[j],
            decreases ord.len() - k,
        {
            match cur {
                None => {
                    proof {
                        assert(out@.map_values(|s: String| s@) =~= names);
                    }
                    return out;
                }
                Some(i) => {
                    match &self.nodes[i] {
                        Some(n) => {
                            out.push(n.name.clone());
                            cur = n.next;
                            proof {
                                assert(names[k] == n.name@);
                                k = k + 1;
                            }
                        }
                        None => {
                            proof {
                                assert(false);
                            }
                            return out;
                        }
                    }
                }
            }
        }
    }

    /// The stage names read by following `prev` links from the tail:
    /// always the reverse of the head-to-tail reading.
    pub fn names_tail_to_head(&self) -> (r: Vec<String>)
        requires
            self.wf(),
        ensures
            r@.map_values(|s: String| s@) == self.names().reverse(),
    {
        let ghost ord = self.order@;
        let ghost names = self.names();
        let nlen = self.nodes.len();
        let mut out: Vec<String> = Vec::new();
        let mut cur: Option<usize> = self.tail;
        let ghost k: int = ord.len() as int;
        loop
            invariant
                self.wf(),
                self.nodes@.len() == nlen,
                ord == self.order@,
                names == self.names(),
                0 <= k <= ord.len(),
                cur == (if k > 0 {
                    Some(ord[k - 1] as usize)
                } else {
                    None::<usize>
                }),
                out@.len() == ord.len() - k,
                forall|j: int|
                    0 <= j < out@.len() ==> #[trigger] out@[j]@ == names[ord.len() - 1 - j],
            decreases k,
        {
            match cur {
                None => {
                    proof {
                        let mapped = out@.map_values(|s: String| s@);
                        assert forall|j: int| 0 <= j < names.len() implies #[trigger] mapped[j]
                            == names.reverse()[j] by {
                            assert(out@[j]@ == names[names.len() - 1 - j]);
                        }
                        assert(mapped =~= names.reverse());
                    }
                    return out;
                }
                Some(i) => {
                    match &self.nodes[i] {
                        Some(n) => {
                            proof {
                                assert(i as int == ord[k - 1]);
                                assert(names[k - 1] == n.name@);
                            }
                            out.push(n.name.clone());
                            cur = n.prev;
                            proof {
                                k = k - 1;
                            }
                        }
                        None => {
                            proof {
                                assert(false);
                            }
                            return out;
                        }
                    }
                }
            }
        }
    }

    /// The head node, for mutation of its stage in place; the links are
    /// the chain's own and are not meant to be rewired through this.
    pub fn first_context_mut(&mut self) -> (r: Option<&mut FrameFilterContext<F>>)
        requires
            old(self).wf(),
        ensures
            match r {
                Some(c) => {
                    &&& old(self).names().len() > 0
                    &&& *c == old(self).node_at(0)
                    &&& final(self).nodes@ == old(self).nodes@.update(
                        old(self).order@[0],
                        Some(*final(c)),
                    )
                    &&& final(self).head == old(self).head
                    &&& final(self).tail == old(self).tail
                    &&& final(self).order == old(self).order
                    &&& final(self).attributes == old(self).attributes
                    &&& final(self).same_identity(*old(self))
                },
                None => old(self).names().len() == 0 && *final(self) == *old(self),
            },
    {
        let nlen = self.nodes.len();
        match self.head {
            None => None,
            Some(h) => {
                proof {
                    assert(self.order@[0] < nlen as int);
                    assert(self.order@[0] == h as int);
                }
                match &mut self.nodes[h] {
                    Some(n) => Some(n),
                    None => {
                        proof {
                            assert(false);
                        }
                        None
                    }
                }
            }
        }
    }

    /// The tail node, for mutation of its stage in place.
    pub fn last_context_mut(&mut self) -> (r: Option<&mut FrameFilterContext<F>>)
        requires
            old(self).wf(),
        ensures
            match r {
                Some(c) => {
                    &&& old(self).names().len() > 0
                    &&& *c == old(self).node_at(old(self).names().len() - 1)
                    &&& final(self).nodes@ == old(self).nodes@.update(
                        old(self).order@[old(self).order@.len() - 1],
                        Some(*final(c)),
                    )
                    &&& final(self).head == old(self).head
                    &&& final(self).tail == old(self).tail
                    &&& final(self).order == old(self).order
                    &&& final(self).attributes == old(self).attributes
                    &&& final(self).same_identity(*old(self))
                },
                None => old(self).names().len() == 0 && *final(self) == *old(self),
            },
    {
        let nlen = self.nodes.len();
        match self.tail {
            None => None,
            Some(t) => {
                proof {
                    assert(self.order@[self.order@.len() - 1] < nlen as int);
                    assert(self.order@[self.order@.len() - 1] == t as int);
                }
                match &mut self.nodes[t] {
                    Some(n) => Some(n),
                    None => {
                        proof {
                            assert(false);
                        }
                        None
                    }
                }
            }
        }
    }

    /// Stores an attribute on the chain, replacing any value under the
    /// same key: the channel stages use to pass derived state along.
    pub fn set_attribute(&mut self, key: String, value: AttrValue)
        requires
            old(self).wf(),
        ensures
            final(self).wf(),
            final(self).same_structure(*old(self)),
            final(self).filters() == old(self).filters(),
            final(self).attributes.spec_contains(key@),
            final(self).attributes.spec_get(key@) == value,
            forall|k: Seq<char>| k != key@ ==>
                (final(self).attributes.spec_contains(k) <==> old(self).attributes.spec_contains(
                    k,
                )),
    {
        let ghost oldp = *old(self);
        self.attributes.set_attribute(key, value);
        proof {
            assert forall|k: int| 0 <= k < self.order@.len() implies #[trigger] self.node_at(k)
                == oldp.node_at(k) by {}
            assert(self.wf());
            assert(self.names() =~= oldp.names());
            assert(self.filters() =~= oldp.filters());
        }
    }

    /// Reads an attribute from the chain.
    pub fn get_attribute(&self, key: &String) -> (r: Option<&AttrValue>)
        requires
            self.wf(),
        ensures
            match r {
                Some(v) => self.attributes.spec_contains(key@) && *v == self.attributes.spec_get(
                    key@,
                ),
                None => !self.attributes.spec_contains(key@),
            },
    {
        self.attributes.get_attribute(key)
    }

    /// Removes an attribute from the chain, returning its value.
    pub fn remove_attribute(&mut self, key: &String) -> (r: Option<AttrValue>)
        requires
            old(self).wf(),
        ensures
            final(self).wf(),
            final(self).same_structure(*old(self)),
            final(self).filters() == old(self).filters(),
            !final(self).attributes.spec_contains(key@),
            match r {
                Some(v) => old(self).attributes.spec_contains(key@) && v == old(
                    self,
                ).attributes.spec_get(key@),
                None => !old(self).attributes.spec_contains(key@),
            },
    {
        let ghost oldp = *old(self);
        let r = self.attributes.remove_attribute(key);
        proof {
            assert forall|k: int| 0 <= k < self.order@.len() implies #[trigger] self.node_at(k)
                == oldp.node_at(k) by {}
            assert(self.wf());
            assert(self.names() =~= oldp.names());
            assert(self.filters() =~= oldp.filters());
        }
        r
    }

    /// Reads the node at a stable arena index, if that slot is live.
    pub fn context_at(&self, i: usize) -> (r: Option<&FrameFilterContext<F>>)
        requires
            self.wf(),
        ensures
            match r {
                Some(c) => i < self.nodes@.len() && self.nodes@[i as int] == Some(*c),
                None => i >= self.nodes@.len() || self.nodes@[i as int] is None,
            },
    {
        if i < self.nodes.len() {
            match &self.nodes[i] {
                Some(n) => Some(n),
                None => None,
            }
        } else {
            None
        }
    }
}

/// In a well-formed chain holding exactly one stage, the head equals the
/// tail and both name the sole stage.  Together with the contracts of
/// `add_first` and `add_last` on an empty chain, the node they insert is
/// both head and tail.
pub proof fn lemma_singleton_head_eq_tail<F>(p: FramePipeline<F>)
    requires
        p.wf(),
        p.names().len() == 1,
    ensures
        p.head == p.tail,
        p.head is Some,
        p.node_at(0).name@ == p.names()[0],
{
    assert(p.head == Some(p.order@[0] as usize));
    assert(p.node_at(0).name@ == p.names()[0]);
}

/// In a well-formed empty chain, head and tail are both absent: removing
/// the last remaining stage leaves no dangling link.
pub proof fn lemma_empty_no_links<F>(p: FramePipeline<F>)
    requires
        p.wf(),
        p.names().len() == 0,
    ensures
        p.head is None,
        p.tail is None,
{
}

/// The names read by following `next` links from `cur`, for at most
/// `fuel` steps, stopping at any dead slot.
pub open spec fn walk_next<F>(p: FramePipeline<F>, cur: Option<usize>, fuel: nat) -> Seq<
    Seq<char>,
>
    decreases fuel,
{
    match cur {
        None => Seq::empty(),
        Some(i) => {
            if fuel == 0 || i >= p.nodes@.len() || !(p.nodes@[i as int] is Some) {
                Seq::empty()
            } else {
                let node = p.nodes@[i as int]->Some_0;
                seq![node.name@].add(walk_next(p, node.next, (fuel - 1) as nat))
            }
        },
    }
}

/// The names read by following `prev` links from `cur`, for at most
/// `fuel` steps, stopping at any dead slot.
pub open spec fn walk_prev<F>(p: FramePipeline<F>, cur: Option<usize>, fuel: nat) -> Seq<
    Seq<char>,
>
    decreases fuel,
{
    match cur {
        None => Seq::empty(),
        Some(i) => {
            if fuel == 0 || i >= p.nodes@.len() || !(p.nodes@[i as int] is Some) {
                Seq::empty()
            } else {
                let node = p.nodes@[i as int]->Some_0;
                seq![node.name@].add(walk_prev(p, node.prev, (fuel - 1) as nat))
            }
        },
    }
}

proof fn lemma_walk_next_from<F>(p: FramePipeline<F>, k: int)
    requires
        p.wf(),
        p.nodes@.len() <= usize::MAX,
        0 <= k <= p.order@.len(),
    ensures
        walk_next(
            p,
            if k < p.order@.len() {
                Some(p.order@[k] as usize)
            } else {
                None
            },
            (p.order@.len() - k) as nat,
        ) == p.names().subrange(k, p.names().len() as int),
    decreases p.order@.len() - k,
{
    let ord = p.order@;
    let n = ord.len() as int;
    if k == n {
        assert(p.names().subrange(n, n) =~= Seq::<Seq<char>>::empty());
    } else {
        let i = ord[k] as usize;
        assert(i as int == ord[k]);
        assert(p.nodes@[ord[k]] is Some);
        let node = p.nodes@[ord[k]]->Some_0;
        assert(node == p.node_at(k));
        assert(node.next == next_link(ord, k));
        lemma_walk_next_from(p, k + 1);
        assert(walk_next(p, if k < n { Some(i) } else { None }, (n - k) as nat) == seq![
            node.name@,
        ].add(walk_next(p, node.next, (n - k - 1) as nat)));
        assert(p.names().subrange(k, n) =~= seq![p.names()[k]].add(
            p.names().subrange(k + 1, n),
        ));
        assert(node.name@ == p.names()[k]);
    }
}

proof fn lemma_walk_prev_from<F>(p: FramePipeline<F>, k: int)
    requires
        p.wf(),
        p.nodes@.len() <= usize::MAX,
        -1 <= k < p.order@.len(),
    ensures
        walk_prev(
            p,
            if k >= 0 {
                Some(p.order@[k] as usize)
            } else {
                None
            },
            (k + 1) as nat,
        ) == p.names().take(k + 1).reverse(),
    decreases k + 1,
{
    let ord = p.order@;
    if k == -1 {
        assert(p.names().take(0).reverse() =~= Seq::<Seq<char>>::empty());
    } else {
        let i = ord[k] as usize;
        assert(i as int == ord[k]);
        assert(p.nodes@[ord[k]] is Some);
        let node = p.nodes@[ord[k]]->Some_0;
        assert(node == p.node_at(k));
        assert(node.prev == prev_link(ord, k));
        lemma_walk_prev_from(p, k - 1);
        assert(walk_prev(p, Some(i), (k + 1) as nat) == seq![node.name@].add(
            walk_prev(p, node.prev, k as nat),
        ));
        assert(node.name@ == p.names()[k]);
        let taken = p.names().take(k + 1);
        assert forall|j: int| 0 <= j < k + 1 implies #[trigger] taken.reverse()[j] == seq![
            p.names()[k],
        ].add(p.names().take(k).reverse())[j] by {
            assert(taken.reverse()[j] == taken[k - j]);
            if j > 0 {
                assert(p.names().take(k).reverse()[j - 1] == p.names().take(k)[k - j]);
            }
        }
        assert(taken.reverse() =~= seq![p.names()[k]].add(p.names().take(k).reverse()));
    }
}

/// The doubly-linked invariant, read off the physical links: in a
/// well-formed chain, following `next` links from the head yields the
/// chain's names, and following `prev` links from the tail yields
/// exactly their reverse.
pub proof fn lemma_traversals_mirror<F>(p: FramePipeline<F>)
    requires
        p.wf(),
        p.nodes@.len() <= usize::MAX,
    ensures
        walk_next(p, p.head, p.names().len()) == p.names(),
        walk_prev(p, p.tail, p.names().len()) == p.names().reverse(),
{
    let n = p.names().len() as int;
    lemma_walk_next_from(p, 0);
    assert(p.names().subrange(0, n) =~= p.names());
    lemma_walk_prev_from(p, n - 1);
    assert(p.names().take(n) =~= p.names());
}

} // verus!
