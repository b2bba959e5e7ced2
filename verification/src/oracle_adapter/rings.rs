//! The observation rings: for each region and metric, a ring cursor, the
//! ring slots and the challenge flags on them.

use vstd::prelude::*;

use super::{Head, Observation};
use crate::env::Symbol;

verus! {

/// One ring: the cursor, the observation in each slot, and the challenge
/// reason flagged on each slot.
pub struct Ring {
    pub region: Symbol,
    pub metric: Symbol,
    pub head: Head,
    pub slots: [Option<Observation>; 16],
    pub challenges: [Option<u32>; 16],
}

/// A ring as a value: the cursor, the slots and the challenge flags.
pub struct RingView {
    pub head: Head,
    pub slots: Seq<Option<Observation>>,
    pub challenges: Seq<Option<u32>>,
}

impl View for Ring {
    type V = RingView;

    open spec fn view(&self) -> RingView {
        RingView { head: self.head, slots: self.slots@, challenges: self.challenges@ }
    }
}

/// The ring of a region and metric that has never received an observation.
pub open spec fn empty_ring() -> RingView {
    RingView {
        head: Head { next_seq: 0, count: 0 },
        slots: Seq::new(16, |i: int| None::<Observation>),
        challenges: Seq::new(16, |i: int| None::<u32>),
    }
}

/// What every ring satisfies: sixteen slots; `count` is the number of
/// writes so far, capped at sixteen; exactly the first `count` slots hold an
/// observation; every stored observation was accepted and has a
/// non-negative value.
pub open spec fn ring_wf(r: RingView) -> bool {
    &&& r.slots.len() == 16
    &&& r.challenges.len() == 16
    &&& r.head.count <= 16
    &&& r.head.count == (if r.head.next_seq < 16 { r.head.next_seq } else { 16 })
    &&& forall|i: int| 0 <= i < 16 ==> (#[trigger] r.slots[i] is Some <==> i < r.head.count)
    &&& forall|i: int|
        0 <= i < 16 ==> (#[trigger] r.slots[i] matches Some(o) ==> o.value >= 0 && o.accepted)
}

/// The empty ring is well formed.
pub proof fn lemma_empty_ring_wf()
    ensures
        ring_wf(empty_ring()),
{
}

/// The rings a list describes when they are stored in order, a later ring
/// for a region and metric replacing an earlier one.
pub open spec fn ring_entries_map(s: Seq<Ring>) -> Map<(Seq<u8>, Seq<u8>), RingView>
    decreases s.len(),
{
    if s.len() == 0 {
        Map::empty()
    } else {
        ring_entries_map(s.drop_last()).insert((s.last().region@, s.last().metric@), s.last()@)
    }
}

/// Whether a ring is well formed.
pub fn ring_is_wf(ring: &Ring) -> (r: bool)
    ensures
        r == ring_wf(ring@),
{
    let head = ring.head;
    if head.count > 16 {
        return false;
    }
    let expected: u32 = if head.next_seq < 16 {
        head.next_seq
    } else {
        16
    };
    if head.count != expected {
        return false;
    }
    let mut i: usize = 0;
    while i < 16
        invariant
            i <= 16,
            head == ring.head,
            ring.head.count <= 16,
            ring.head.count == (if ring.head.next_seq < 16 {
                ring.head.next_seq
            } else {
                16
            }),
            forall|k: int| 0 <= k < i ==> (#[trigger] ring@.slots[k] is Some <==> k < ring.head.count),
            forall|k: int|
                0 <= k < i ==> (#[trigger] ring@.slots[k] matches Some(o) ==> o.value >= 0
                    && o.accepted),
        decreases 16 - i,
    {
        match ring.slots[i] {
            Some(o) => {
                if (i as u32) >= head.count || o.value < 0 || !o.accepted {
                    assert(!ring_wf(ring@));
                    return false;
                }
            },
            None => {
                if (i as u32) < head.count {
                    assert(!ring_wf(ring@));
                    return false;
                }
            },
        }
        i = i + 1;
    }
    true
}

/// The rings of all regions and metrics that have received an observation.
pub struct RingTable {
    rings: Vec<Ring>,
    contents: Ghost<Map<(Seq<u8>, Seq<u8>), RingView>>,
}

impl View for RingTable {
    type V = Map<(Seq<u8>, Seq<u8>), RingView>;

    closed spec fn view(&self) -> Map<(Seq<u8>, Seq<u8>), RingView> {
        self.contents@
    }
}

/// The ring stored under a key, or the empty ring.
pub open spec fn ring_in(m: Map<(Seq<u8>, Seq<u8>), RingView>, region: Seq<u8>, metric: Seq<u8>) -> RingView {
    if m.contains_key((region, metric)) {
        m[(region, metric)]
    } else {
        empty_ring()
    }
}

impl RingTable {
    /// The rings and the map agree, every ring is well formed, and no
    /// region and metric pair occurs twice.
    pub closed spec fn wf(&self) -> bool {
        &&& forall|i: int|
            0 <= i < self.rings@.len() ==> {
                &&& #[trigger] self.contents@.contains_key(
                    (self.rings@[i].region@, self.rings@[i].metric@),
                )
                &&& self.contents@[(self.rings@[i].region@, self.rings@[i].metric@)]
                    == self.rings@[i]@
            }
        &&& forall|k: (Seq<u8>, Seq<u8>)|
            #[trigger] self.contents@.contains_key(k) ==> exists|i: int|
                0 <= i < self.rings@.len() && (self.rings@[i].region@, self.rings@[i].metric@) == k
        &&& forall|i: int, j: int|
            0 <= i < self.rings@.len() && 0 <= j < self.rings@.len() && i != j ==> (
            self.rings@[i].region@,
            self.rings@[i].metric@,
            ) != (self.rings@[j].region@, self.rings@[j].metric@)
        &&& forall|k: (Seq<u8>, Seq<u8>)| #[trigger]
            self.contents@.contains_key(k) ==> ring_wf(self.contents@[k])
    }

    /// Every ring a well formed table holds is well formed.
    pub proof fn lemma_rings_wf(&self, region: Seq<u8>, metric: Seq<u8>)
        requires
            self.wf(),
        ensures
            ring_wf(ring_in(self@, region, metric)),
    {
        if !self@.contains_key((region, metric)) {
            lemma_empty_ring_wf();
        }
    }

    /// Every ring a well formed table holds is well formed, by key.
    pub proof fn lemma_all_rings_wf(&self)
        requires
            self.wf(),
        ensures
            forall|k: (Seq<u8>, Seq<u8>)| #[trigger]
                self@.contains_key(k) ==> ring_wf(self@[k]),
    {
    }

    /// A table with no rings.
    pub fn new() -> (t: Self)
        ensures
            t.wf(),
            t@ == Map::<(Seq<u8>, Seq<u8>), RingView>::empty(),
    {
        RingTable { rings: Vec::new(), contents: Ghost(Map::empty()) }
    }

    /// A table holding `rings`, stored in order, or `None` when one of them
    /// is not well formed.
    pub fn from_rings(rings: Vec<Ring>) -> (t: Option<Self>)
        ensures
            t is Some <==> forall|i: int| 0 <= i < rings@.len() ==> ring_wf(#[trigger] rings@[i]@),
            t matches Some(t) ==> t.wf() && t@ == ring_entries_map(rings@),
    {
        let mut t = RingTable::new();
        let mut i: usize = 0;
        while i < rings.len()
            invariant
                i <= rings@.len(),
                t.wf(),
                t@ == ring_entries_map(rings@.subrange(0, i as int)),
                forall|k: int| 0 <= k < i ==> ring_wf(#[trigger] rings@[k]@),
            decreases rings@.len() - i,
        {
            let ring = &rings[i];
            if !ring_is_wf(ring) {
                return None;
            }
            t.update(&ring.region, &ring.metric, ring.head, ring.slots, ring.challenges);
            proof {
                let next = rings@.subrange(0, i + 1);
                assert(next.drop_last() =~= rings@.subrange(0, i as int));
                assert(next.last() == rings@[i as int]);
            }
            i = i + 1;
        }
        assert(rings@.subrange(0, rings@.len() as int) =~= rings@);
        Some(t)
    }

    fn find(&self, region: &Symbol, metric: &Symbol) -> (r: Option<usize>)
        requires
            self.wf(),
        ensures
            match r {
                Some(i) => i < self.rings@.len() && self.rings@[i as int].region@ == region@
                    && self.rings@[i as int].metric@ == metric@,
                None => !self@.contains_key((region@, metric@)),
            },
    {
        let mut i: usize = 0;
        while i < self.rings.len()
            invariant
                self.wf(),
                i <= self.rings@.len(),
                forall|k: int|
                    0 <= k < i ==> (self.rings@[k].region@, self.rings@[k].metric@) != (
                    region@,
                    metric@,
                    ),
            decreases self.rings@.len() - i,
        {
            if self.rings[i].region.equals(region) && self.rings[i].metric.equals(metric) {
                return Some(i);
            }
            i = i + 1;
        }
        proof {
            if self@.contains_key((region@, metric@)) {
                let j = choose|j: int|
                    0 <= j < self.rings@.len() && (self.rings@[j].region@, self.rings@[j].metric@)
                        == (region@, metric@);
                assert((self.rings@[j].region@, self.rings@[j].metric@) != (region@, metric@));
            }
        }
        None
    }

    /// The ring of a region and metric, if it has received an observation.
    pub fn lookup(&self, region: &Symbol, metric: &Symbol) -> (r: Option<&Ring>)
        requires
            self.wf(),
        ensures
            match r {
                Some(ring) => self@.contains_key((region@, metric@)) && ring@ == self@[(
                    region@,
                    metric@,
                )],
                None => !self@.contains_key((region@, metric@)),
            },
    {
        match self.find(region, metric) {
            Some(i) => {
                proof {
                    assert(self.contents@.contains_key(
                        (self.rings@[i as int].region@, self.rings@[i as int].metric@),
                    ));
                }
                Some(&self.rings[i])
            },
            None => None,
        }
    }

    /// Store a ring for a region and metric, replacing any ring there.
    pub fn update(
        &mut self,
        region: &Symbol,
        metric: &Symbol,
        head: Head,
        slots: [Option<Observation>; 16],
        challenges: [Option<u32>; 16],
    )
        requires
            old(self).wf(),
            ring_wf(RingView { head, slots: slots@, challenges: challenges@ }),
        ensures
            final(self).wf(),
            final(self)@ == old(self)@.insert(
                (region@, metric@),
                RingView { head, slots: slots@, challenges: challenges@ },
            ),
    {
        let ghost key = (region@, metric@);
        let ghost rv = RingView { head, slots: slots@, challenges: challenges@ };
        let ring = Ring {
            region: region.duplicate(),
            metric: metric.duplicate(),
            head,
            slots,
            challenges,
        };
        assert(ring@ == rv);
        let ghost old_rings = self.rings@;
        match self.find(region, metric) {
            Some(i) => {
                self.rings.set(i, ring);
                self.contents = Ghost(self.contents@.insert(key, rv));
                proof {
                    assert forall|j: int| 0 <= j < self.rings@.len() implies {
                        &&& #[trigger] self.contents@.contains_key(
                            (self.rings@[j].region@, self.rings@[j].metric@),
                        )
                        &&& self.contents@[(self.rings@[j].region@, self.rings@[j].metric@)]
                            == self.rings@[j]@
                    } by {
                        if j != i {
                            assert(self.rings@[j] == old_rings[j]);
                            assert(old(self).contents@.contains_key(
                                (old_rings[j].region@, old_rings[j].metric@),
                            ));
                        }
                    }
                    assert forall|k: (Seq<u8>, Seq<u8>)| #[trigger]
                        self.contents@.contains_key(k) implies exists|j: int|
                        0 <= j < self.rings@.len() && (
                        self.rings@[j].region@,
                        self.rings@[j].metric@,
                        ) == k by {
                        if k != key {
                            let j = choose|j: int|
                                0 <= j < old_rings.len() && (
                                old_rings[j].region@,
                                old_rings[j].metric@,
                                ) == k;
                            assert(self.rings@[j] == old_rings[j]);
                        } else {
                            assert((self.rings@[i as int].region@, self.rings@[i as int].metric@)
                                == k);
                        }
                    }
                    assert forall|a: int, b: int|
                        0 <= a < self.rings@.len() && 0 <= b < self.rings@.len() && a != b
                        implies (self.rings@[a].region@, self.rings@[a].metric@) != (
                        self.rings@[b].region@,
                        self.rings@[b].metric@,
                    ) by {
                        assert((old_rings[a].region@, old_rings[a].metric@) != (
                            old_rings[b].region@,
                            old_rings[b].metric@,
                        ));
                    }
                    assert forall|k: (Seq<u8>, Seq<u8>)| #[trigger]
                        self.contents@.contains_key(k) implies ring_wf(self.contents@[k]) by {
                        if k != key {
                            assert(old(self).contents@.contains_key(k));
                        }
                    }
                }
            },
            None => {
                self.rings.push(ring);
                self.contents = Ghost(self.contents@.insert(key, rv));
                proof {
                    let n = old_rings.len() as int;
                    assert forall|j: int| 0 <= j < self.rings@.len() implies {
                        &&& #[trigger] self.contents@.contains_key(
                            (self.rings@[j].region@, self.rings@[j].metric@),
                        )
                        &&& self.contents@[(self.rings@[j].region@, self.rings@[j].metric@)]
                            == self.rings@[j]@
                    } by {
                        if j != n {
                            assert(self.rings@[j] == old_rings[j]);
                            assert(old(self).contents@.contains_key(
                                (old_rings[j].region@, old_rings[j].metric@),
                            ));
                        }
                    }
                    assert forall|k: (Seq<u8>, Seq<u8>)| #[trigger]
                        self.contents@.contains_key(k) implies exists|j: int|
                        0 <= j < self.rings@.len() && (
                        self.rings@[j].region@,
                        self.rings@[j].metric@,
                        ) == k by {
                        if k != key {
                            let j = choose|j: int|
                                0 <= j < old_rings.len() && (
                                old_rings[j].region@,
                                old_rings[j].metric@,
                                ) == k;
                            assert(self.rings@[j] == old_rings[j]);
                        } else {
                            assert((self.rings@[n].region@, self.rings@[n].metric@) == k);
                        }
                    }
                    assert forall|a: int, b: int|
                        0 <= a < self.rings@.len() && 0 <= b < self.rings@.len() && a != b
                        implies (self.rings@[a].region@, self.rings@[a].metric@) != (
                        self.rings@[b].region@,
                        self.rings@[b].metric@,
                    ) by {
                        if a == n {
                            assert(old(self).contents@.contains_key(
                                (old_rings[b].region@, old_rings[b].metric@),
                            ));
                        } else if b == n {
                            assert(old(self).contents@.contains_key(
                                (old_rings[a].region@, old_rings[a].metric@),
                            ));
                        }
                    }
                    assert forall|k: (Seq<u8>, Seq<u8>)| #[trigger]
                        self.contents@.contains_key(k) implies ring_wf(self.contents@[k]) by {
                        if k != key {
                            assert(old(self).contents@.contains_key(k));
                        }
                    }
                }
            },
        }
    }
}

} // verus!
