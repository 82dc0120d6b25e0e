use vstd::prelude::*;
use std::collections::{BTreeMap, HashMap};

verus! {

/// Number of distinct segment indices: every value of a `u8`.
pub const SEGMENT_SLOTS: usize = 256;

/// The byte runs of one script body, by segment index. Runs arrive in any
/// order; they are joined in index order.
pub struct SegmentBuffer {
    runs: BTreeMap<u8, Vec<u8>>,
}

/// The runs of indices below `k`, joined in index order.
pub open spec fn joined(m: Map<u8, Seq<u8>>, k: nat) -> Seq<u8>
    decreases k,
{
    if k == 0 {
        Seq::empty()
    } else {
        let i = (k - 1) as u8;
        let run = if m.contains_key(i) {
            m[i]
        } else {
            Seq::empty()
        };
        joined(m, (k - 1) as nat) + run
    }
}

/// All runs joined in index order.
pub open spec fn reassembled(m: Map<u8, Seq<u8>>) -> Seq<u8> {
    joined(m, SEGMENT_SLOTS as nat)
}

impl View for SegmentBuffer {
    type V = Map<u8, Seq<u8>>;

    closed spec fn view(&self) -> Map<u8, Seq<u8>> {
        self.runs@.map_values(|v: Vec<u8>| v@)
    }
}

impl SegmentBuffer {
    pub closed spec fn wf(&self) -> bool {
        true
    }

    pub fn new() -> (r: Self)
        ensures
            r.wf(),
            r@ == Map::<u8, Seq<u8>>::empty(),
    {
        let r = SegmentBuffer { runs: BTreeMap::new() };
        assert(r@ =~= Map::<u8, Seq<u8>>::empty());
        r
    }

    /// Stores the run of segment `idx`, replacing an earlier one.
    pub fn insert(&mut self, idx: u8, data: Vec<u8>)
        requires
            old(self).wf(),
        ensures
            final(self).wf(),
            final(self)@ == old(self)@.insert(idx, data@),
    {
        broadcast use vstd::laws_cmp::group_laws_cmp, vstd::std_specs::btree::group_btree_axioms;

        let ghost d = data@;
        self.runs.insert(idx, data);
        assert(self@ =~= old(self)@.insert(idx, d));
    }

    /// All runs joined in index order.
    pub fn assemble(&self) -> (r: Vec<u8>)
        requires
            self.wf(),
        ensures
            r@ == reassembled(self@),
    {
        broadcast use vstd::laws_cmp::group_laws_cmp, vstd::std_specs::btree::group_btree_axioms;

        let mut out: Vec<u8> = Vec::new();
        let mut k: usize = 0;
        while k < SEGMENT_SLOTS
            invariant
                k <= SEGMENT_SLOTS,
                out@ == joined(self@, k as nat),
            decreases SEGMENT_SLOTS - k,
        {
            let ghost before = out@;
            let key = k as u8;
            if let Some(run) = self.runs.get(&key) {
                let mut i: usize = 0;
                while i < run.len()
                    invariant
                        i <= run@.len(),
                        out@ == before + run@.subrange(0, i as int),
                    decreases run.len() - i,
                {
                    out.push(run[i]);
                    i += 1;
                    assert(out@ =~= before + run@.subrange(0, i as int));
                }
                assert(run@.subrange(0, run@.len() as int) =~= run@);
                assert(self@.contains_key(key) && self@[key] == run@);
            } else {
                assert(!self@.contains_key(key));
                assert(out@ =~= before + Seq::<u8>::empty());
            }
            k += 1;
        }
        out
    }
}

/// The segment buffers of every script body seen so far, by script id, and
/// the order in which the scripts were first seen.
pub struct ScriptSegments {
    bufs: HashMap<usize, SegmentBuffer>,
    order: Vec<usize>,
}

impl View for ScriptSegments {
    type V = Map<usize, Map<u8, Seq<u8>>>;

    closed spec fn view(&self) -> Map<usize, Map<u8, Seq<u8>>> {
        self.bufs@.map_values(|b: SegmentBuffer| b@)
    }
}

impl ScriptSegments {
    pub closed spec fn wf(&self) -> bool {
        &&& forall|id: usize| #[trigger] self.bufs@.contains_key(id) ==> self.bufs@[id].wf()
        &&& self.order@.no_duplicates()
        &&& forall|id: usize| self.order@.contains(id) <==> #[trigger] self.bufs@.contains_key(id)
    }

    /// The script ids in the order they were first registered.
    pub closed spec fn order(&self) -> Seq<usize> {
        self.order@
    }

    pub fn new() -> (r: Self)
        ensures
            r.wf(),
            r@ == Map::<usize, Map<u8, Seq<u8>>>::empty(),
            r.order().len() == 0,
    {
        let r = ScriptSegments { bufs: HashMap::new(), order: Vec::new() };
        assert(r@ =~= Map::<usize, Map<u8, Seq<u8>>>::empty());
        r
    }

    /// Gives script `id` an empty buffer unless it has one.
    pub fn register(&mut self, id: usize)
        requires
            old(self).wf(),
        ensures
            final(self).wf(),
            old(self)@.contains_key(id) ==> final(self)@ == old(self)@,
            !old(self)@.contains_key(id) ==> final(self)@ == old(self)@.insert(id, Map::empty()),
    {
        broadcast use vstd::std_specs::hash::group_hash_axioms;

        if !self.bufs.contains_key(&id) {
            let b = SegmentBuffer::new();
            self.bufs.insert(id, b);
            self.order.push(id);
            proof {
                assert forall|i: usize| self.order@.contains(i) <==> #[trigger] self.bufs@.contains_key(i) by {
                    if i != id {
                        assert(self.order@.contains(i) <==> old(self).order@.contains(i)) by {
                            if self.order@.contains(i) {
                                let j = choose|j: int| 0 <= j < self.order@.len() && self.order@[j] == i;
                                assert(old(self).order@[j] == i);
                            }
                            if old(self).order@.contains(i) {
                                let j = choose|j: int| 0 <= j < old(self).order@.len() && old(self).order@[j] == i;
                                assert(self.order@[j] == i);
                            }
                        }
                    } else {
                        assert(self.order@[self.order@.len() - 1] == id);
                    }
                }
                assert(self@ =~= old(self)@.insert(id, Map::empty()));
            }
        }
    }

    /// Stores run `idx` of script `id`; false, and nothing changed, where the
    /// script has no buffer.
    pub fn add_run(&mut self, id: usize, idx: u8, data: Vec<u8>) -> (r: bool)
        requires
            old(self).wf(),
        ensures
            final(self).wf(),
            final(self).order() == old(self).order(),
            r == old(self)@.contains_key(id),
            r ==> final(self)@ == old(self)@.insert(id, old(self)@[id].insert(idx, data@)),
            !r ==> final(self)@ == old(self)@,
    {
        broadcast use vstd::std_specs::hash::group_hash_axioms;

        if !self.bufs.contains_key(&id) {
            return false;
        }
        match self.bufs.remove(&id) {
            Some(mut b) => {
                let ghost d = data@;
                b.insert(idx, data);
                self.bufs.insert(id, b);
                assert(self@ =~= old(self)@.insert(id, old(self)@[id].insert(idx, d)));
                true
            },
            None => false,
        }
    }

    /// The buffer of script `id`.
    pub fn get(&self, id: usize) -> (r: Option<&SegmentBuffer>)
        requires
            self.wf(),
        ensures
            match r {
                Some(b) => self@.contains_key(id) && b@ == self@[id] && b.wf(),
                None => !self@.contains_key(id),
            },
    {
        broadcast use vstd::std_specs::hash::group_hash_axioms;

        self.bufs.get(&id)
    }

    /// A script has a buffer exactly when it is registered, and it is
    /// registered once.
    pub proof fn lemma_order_is_domain(&self)
        requires
            self.wf(),
        ensures
            forall|id: usize| #[trigger] self@.contains_key(id) <==> self.order().contains(id),
            self.order().no_duplicates(),
    {
    }

    /// The `i`-th registered script id.
    pub fn id_at(&self, i: usize) -> (r: usize)
        requires
            self.wf(),
            i < self.order().len(),
        ensures
            r == self.order()[i as int],
            self@.contains_key(r),
    {
        self.order[i]
    }

    pub fn count(&self) -> (r: usize)
        ensures
            r == self.order().len(),
    {
        self.order.len()
    }
}

proof fn lemma_joined_past(m: Map<u8, Seq<u8>>, k: nat, top: nat)
    requires
        top <= k <= SEGMENT_SLOTS,
        forall|i: u8| #[trigger] m.contains_key(i) ==> (i as nat) < top,
    ensures
        joined(m, k) == joined(m, top),
    decreases k,
{
    if k > top {
        lemma_joined_past(m, (k - 1) as nat, top);
        assert(!m.contains_key((k - 1) as u8));
        assert(joined(m, k) =~= joined(m, (k - 1) as nat));
    }
}

/// Reassembly follows segment indices, not arrival order: runs 1 and 0
/// stored in that order join to the same bytes as the whole body stored as
/// run 0.
pub proof fn lemma_reassembly_order(first: Seq<u8>, second: Seq<u8>)
    ensures
        reassembled(Map::empty().insert(1u8, second).insert(0u8, first))
            == reassembled(Map::empty().insert(0u8, first + second)),
        reassembled(Map::empty().insert(0u8, first).insert(1u8, second)) == first + second,
{
    let late = Map::<u8, Seq<u8>>::empty().insert(1u8, second).insert(0u8, first);
    let early = Map::<u8, Seq<u8>>::empty().insert(0u8, first).insert(1u8, second);
    let whole = Map::<u8, Seq<u8>>::empty().insert(0u8, first + second);
    assert(late =~= early);
    lemma_joined_past(late, SEGMENT_SLOTS as nat, 2);
    lemma_joined_past(whole, SEGMENT_SLOTS as nat, 1);
    assert(joined(late, 0) =~= Seq::<u8>::empty());
    assert(joined(late, 1) =~= first);
    assert(joined(late, 2) =~= first + second);
    assert(joined(whole, 0) =~= Seq::<u8>::empty());
    assert(whole.contains_key(0u8));
    assert(joined(whole, 1) =~= first + second);
}

} // verus!
