//! Properties that relate the oracle's entry points to one another, stated
//! over the storage view and the entry points' spec functions.

use vstd::prelude::*;

use super::median::{ascending, half, observed_publishers, observed_values, slot_counts};
use super::rings::ring_wf;
use super::{
    bound_secs, cancel_spec, challenge_spec, counted, execute_spec, is_active, median_spec,
    observation_at, propose_spec, ring_of, rings_wf, submit_spec, unchallenge_spec, Error,
    Observation, OracleView, PendingRegistry, PublisherInfo, PublisherKey, REGISTRY_TIMELOCK_SECS,
    RING_SIZE,
};

verus! {

/// A proposed registry change cannot be executed before its eta: the eta
/// is one timelock after the proposal, and executing earlier fails with
/// `RegistryTimelock` and changes nothing.
pub proof fn law_timelock_blocks_early_execution(
    v: OracleView,
    now: u64,
    publisher: Seq<u8>,
    add: bool,
    later: u64,
)
    requires
        propose_spec(v, now, publisher, add).1 is Ok,
        later < propose_spec(v, now, publisher, add).1->Ok_0,
    ensures
        propose_spec(v, now, publisher, add).1->Ok_0 == now + REGISTRY_TIMELOCK_SECS,
        execute_spec(propose_spec(v, now, publisher, add).0, later, publisher) == (
            propose_spec(v, now, publisher, add).0,
            Err::<(), Error>(Error::RegistryTimelock),
        ),
{
}

/// Once the eta is reached the change executes: an addition leaves the key
/// an active publisher, a removal leaves it inactive, and in both cases the
/// pending record is consumed.
pub proof fn law_timelock_releases_at_eta(
    v: OracleView,
    now: u64,
    publisher: Seq<u8>,
    add: bool,
    later: u64,
)
    requires
        propose_spec(v, now, publisher, add).1 is Ok,
        later >= propose_spec(v, now, publisher, add).1->Ok_0,
    ensures
        execute_spec(propose_spec(v, now, publisher, add).0, later, publisher).1 is Ok,
        is_active(execute_spec(propose_spec(v, now, publisher, add).0, later, publisher).0, publisher)
            == add,
        !execute_spec(
            propose_spec(v, now, publisher, add).0,
            later,
            publisher,
        ).0.pending.contains_key(publisher),
{
}

/// The trust set changes only through an executed registry change whose
/// timelock has run out: when executing changes the publisher records, a
/// change for that key was pending and its eta had been reached.
pub proof fn law_trust_set_changes_only_after_timelock(v: OracleView, now: u64, publisher: Seq<u8>)
    requires
        execute_spec(v, now, publisher).0.publishers != v.publishers,
    ensures
        v.pending.contains_key(publisher),
        v.pending[publisher].eta <= now,
        execute_spec(v, now, publisher).1 is Ok,
{
}

/// No other entry point touches the publisher records: proposing,
/// cancelling, submitting, challenging and clearing a challenge all leave
/// them as they were, whatever their outcome.
pub proof fn law_other_entry_points_keep_trust_set(
    v: OracleView,
    now: u64,
    publisher: PublisherKey,
    add: bool,
    region: Seq<u8>,
    metric: Seq<u8>,
    timestamp: u64,
    value: i128,
    seq: u32,
    reason: u32,
)
    ensures
        propose_spec(v, now, publisher@, add).0.publishers == v.publishers,
        cancel_spec(v, publisher@).0.publishers == v.publishers,
        submit_spec(v, now, region, metric, timestamp, value, publisher).0.publishers == v.publishers,
        challenge_spec(v, region, metric, seq, reason).0.publishers == v.publishers,
        unchallenge_spec(v, region, metric, seq).0.publishers == v.publishers,
{
}

/// Cancelling a proposal right after making it restores the storage
/// exactly as it was before the proposal.
pub proof fn law_cancel_undoes_propose(v: OracleView, now: u64, publisher: Seq<u8>, add: bool)
    requires
        propose_spec(v, now, publisher, add).1 is Ok,
    ensures
        cancel_spec(propose_spec(v, now, publisher, add).0, publisher) == (v, Ok::<(), Error>(())),
{
    let v1 = propose_spec(v, now, publisher, add).0;
    assert(v1.pending.remove(publisher) =~= v.pending);
}

/// Removing a publisher keeps its record: the key stays registered, marked
/// inactive, with its first registration time.
pub proof fn law_removal_keeps_history(v: OracleView, now: u64, publisher: Seq<u8>)
    requires
        v.pending.contains_key(publisher),
        !v.pending[publisher].add,
        execute_spec(v, now, publisher).1 is Ok,
    ensures
        execute_spec(v, now, publisher).0.publishers.contains_key(publisher),
        !execute_spec(v, now, publisher).0.publishers[publisher].active,
        execute_spec(v, now, publisher).0.publishers[publisher].added_at
            == v.publishers[publisher].added_at,
{
}

/// An accepted submission can be read back: the returned slot holds the
/// submitted observation, unchallenged, and the ring cursor has moved on by
/// one with the count capped at the ring size.
pub proof fn law_submit_then_read(
    v: OracleView,
    now: u64,
    region: Seq<u8>,
    metric: Seq<u8>,
    timestamp: u64,
    value: i128,
    publisher: PublisherKey,
)
    requires
        rings_wf(v),
        submit_spec(v, now, region, metric, timestamp, value, publisher).1 is Ok,
    ensures
        ({
            let (v1, r) = submit_spec(v, now, region, metric, timestamp, value, publisher);
            let slot = r->Ok_0;
            &&& slot < RING_SIZE
            &&& observation_at(v1, region, metric, slot) == Some(
                Observation { value, timestamp, publisher, accepted: true },
            )
            &&& ring_of(v1, region, metric).challenges[slot as int] is None
            &&& ring_of(v1, region, metric).head.next_seq == ring_of(v, region, metric).head.next_seq
                + 1
            &&& ring_of(v1, region, metric).head.count <= RING_SIZE
            &&& rings_wf(v1)
        }),
{
    let r = ring_of(v, region, metric);
    if !v.rings.contains_key((region, metric)) {
        super::rings::lemma_empty_ring_wf();
    }
    let v1 = submit_spec(v, now, region, metric, timestamp, value, publisher).0;
    let r1 = ring_of(v1, region, metric);
    let slot = r.head.next_seq % RING_SIZE;
    assert forall|i: int| 0 <= i < 16 implies (#[trigger] r1.slots[i] is Some <==> i
        < r1.head.count) by {
        if i != slot {
            assert(r1.slots[i] == r.slots[i]);
        }
    }
    assert forall|i: int| 0 <= i < 16 implies (#[trigger] r1.slots[i] matches Some(o) ==> o.value
        >= 0 && o.accepted) by {
        if i != slot {
            assert(r1.slots[i] == r.slots[i]);
        }
    }
    assert(ring_wf(r1));
}

/// Clearing a challenge right after raising it restores the storage
/// exactly as it was.
pub proof fn law_unchallenge_undoes_challenge(
    v: OracleView,
    region: Seq<u8>,
    metric: Seq<u8>,
    seq: u32,
    reason: u32,
)
    requires
        rings_wf(v),
        challenge_spec(v, region, metric, seq, reason).1 is Ok,
    ensures
        unchallenge_spec(challenge_spec(v, region, metric, seq, reason).0, region, metric, seq) == (
            v,
            Ok::<(), Error>(()),
        ),
{
    let r = ring_of(v, region, metric);
    if !v.rings.contains_key((region, metric)) {
        assert(observation_at(v, region, metric, seq) is None);
    }
    assert(ring_wf(r));
    let v1 = challenge_spec(v, region, metric, seq, reason).0;
    let r1 = ring_of(v1, region, metric);
    assert(r1.challenges.update(seq as int, None) =~= r.challenges);
    assert(v1.rings.insert(
        (region, metric),
        super::rings::RingView { challenges: r1.challenges.update(seq as int, None), ..r1 },
    ) =~= v.rings);
}

/// A challenge takes exactly its slot out of the median: afterwards that
/// slot never counts, and every other slot counts just as before.
pub proof fn law_challenge_excludes_slot(
    v: OracleView,
    region: Seq<u8>,
    metric: Seq<u8>,
    seq: u32,
    reason: u32,
    now: u64,
    bound: int,
)
    requires
        rings_wf(v),
        challenge_spec(v, region, metric, seq, reason).1 is Ok,
    ensures
        !slot_counts(
            ring_of(challenge_spec(v, region, metric, seq, reason).0, region, metric),
            seq as int,
            now,
            bound,
        ),
        forall|i: int|
            0 <= i < RING_SIZE && i != seq ==> slot_counts(
                ring_of(challenge_spec(v, region, metric, seq, reason).0, region, metric),
                i,
                now,
                bound,
            ) == slot_counts(ring_of(v, region, metric), i, now, bound),
{
    let r = ring_of(v, region, metric);
    if !v.rings.contains_key((region, metric)) {
        assert(observation_at(v, region, metric, seq) is None);
    }
    assert(ring_wf(r));
    let r1 = ring_of(challenge_spec(v, region, metric, seq, reason).0, region, metric);
    assert(r1.challenges[seq as int] is Some);
    assert forall|i: int| 0 <= i < RING_SIZE && i != seq implies slot_counts(r1, i, now, bound)
        == slot_counts(r, i, now, bound) by {
        assert(r1.slots[i] == r.slots[i]);
        assert(r1.challenges[i] == r.challenges[i]);
    }
}

/// One publisher can never set the index alone: when every observation
/// that counts comes from the same key, the median is refused as stale.
pub proof fn law_single_publisher_is_stale(
    v: OracleView,
    now: u64,
    region: Seq<u8>,
    metric: Seq<u8>,
    publisher: Seq<u8>,
)
    requires
        bound_secs(v) <= u64::MAX,
        forall|i: int|
            0 <= i < counted(v, now, region, metric).len() ==> #[trigger] counted(
                v,
                now,
                region,
                metric,
            )[i].publisher@ == publisher,
    ensures
        median_spec(v, now, region, metric) == Err::<i128, Error>(Error::ObservationStale),
{
    let c = counted(v, now, region, metric);
    let ps = observed_publishers(c);
    let f = |o: Observation| o.publisher@;
    assert(ps.subset_of(set![publisher])) by {
        assert forall|k: Seq<u8>| ps.contains(k) implies set![publisher].contains(k) by {
            let i = choose|i: int| 0 <= i < c.map_values(f).len() && c.map_values(f)[i] == k;
            assert(c[i].publisher@ == publisher);
        }
    }
    vstd::set_lib::lemma_len_subset(ps, set![publisher]);
}

/// The median lies between the smallest and the largest value that counts:
/// some counted value is at most the median and some is at least it.
pub proof fn law_median_within_counted_values(
    v: OracleView,
    now: u64,
    region: Seq<u8>,
    metric: Seq<u8>,
)
    requires
        median_spec(v, now, region, metric) is Ok,
    ensures
        ({
            let m = median_spec(v, now, region, metric)->Ok_0;
            let vals = observed_values(counted(v, now, region, metric));
            &&& exists|i: int| 0 <= i < vals.len() && vals[i] <= m
            &&& exists|j: int| 0 <= j < vals.len() && m <= vals[j]
        }),
{
    broadcast use vstd::seq_lib::group_to_multiset_ensures;

    let vals = observed_values(counted(v, now, region, metric));
    let s = vals.sort_by(ascending());
    super::median::lemma_ascending_total();
    vals.lemma_sort_by_ensures(ascending());
    let m = median_spec(v, now, region, metric)->Ok_0;
    let mid = s.len() / 2;
    assert(s.len() == vals.len()) by {
        assert(s.to_multiset().len() == vals.to_multiset().len());
    }
    assert(s.len() > 0);
    if s.len() % 2 == 1 {
        assert(m == s[mid as int]);
        assert(s.to_multiset().contains(s[mid as int]));
        assert(vals.contains(s[mid as int]));
    } else {
        let a = s[mid - 1];
        let b = s[mid as int];
        assert((ascending())(a, b));
        assert(m == half(a + b));
        assert(a <= m <= b);
        assert(s.to_multiset().contains(a));
        assert(s.to_multiset().contains(b));
        assert(vals.contains(a));
        assert(vals.contains(b));
    }
}

/// Writes go round the ring in order: the write numbered `k` (counting
/// accepted writes from zero, which is the cursor `next_seq` before it)
/// lands in slot `k mod 16` and returns that slot; the cursor moves to
/// `k + 1`, and every other slot keeps what it held. So after `k >= 16`
/// writes the ring holds exactly the latest sixteen observations.
pub proof fn law_writes_go_round_the_ring(
    v: OracleView,
    now: u64,
    region: Seq<u8>,
    metric: Seq<u8>,
    timestamp: u64,
    value: i128,
    publisher: PublisherKey,
)
    requires
        rings_wf(v),
        submit_spec(v, now, region, metric, timestamp, value, publisher).1 is Ok,
    ensures
        ({
            let k = ring_of(v, region, metric).head.next_seq;
            let (v1, r) = submit_spec(v, now, region, metric, timestamp, value, publisher);
            &&& r == Ok::<u32, Error>((k % 16) as u32)
            &&& ring_of(v1, region, metric).head.next_seq == k + 1
            &&& ring_of(v1, region, metric).head.count == (if k + 1 < 16 {
                k + 1
            } else {
                16
            })
            &&& ring_of(v1, region, metric).challenges[(k % 16) as int] is None
            &&& ring_of(v1, region, metric).slots[(k % 16) as int] == Some(
                Observation { value, timestamp, publisher, accepted: true },
            )
            &&& forall|i: int|
                0 <= i < 16 && i != k % 16 ==> #[trigger] ring_of(v1, region, metric).slots[i]
                    == ring_of(v, region, metric).slots[i]
        }),
{
    let r = ring_of(v, region, metric);
    if !v.rings.contains_key((region, metric)) {
        super::rings::lemma_empty_ring_wf();
    }
    assert(ring_wf(r));
}

/// The median is a rank statistic: there is an ascending arrangement `t`
/// of the counted values such that, for an odd count `n`, the median is
/// `t[n / 2]` (so at least `(n + 1) / 2` counted values lie at or below it
/// and as many at or above it), and for an even count it is the sum of
/// `t[n / 2 - 1]` and `t[n / 2]` halved, rounded toward zero.
pub proof fn law_median_is_the_middle_rank(
    v: OracleView,
    now: u64,
    region: Seq<u8>,
    metric: Seq<u8>,
)
    requires
        median_spec(v, now, region, metric) is Ok,
    ensures
        ({
            let m = median_spec(v, now, region, metric)->Ok_0;
            let vals = observed_values(counted(v, now, region, metric));
            exists|t: Seq<i128>|
                {
                    &&& t.to_multiset() == vals.to_multiset()
                    &&& t.len() == vals.len()
                    &&& forall|a: int, b: int| 0 <= a <= b < t.len() ==> t[a] <= t[b]
                    &&& t.len() % 2 == 1 ==> m == t[(t.len() / 2) as int]
                    &&& t.len() % 2 == 0 ==> {
                        let sum = t[t.len() / 2 - 1] + t[(t.len() / 2) as int];
                        m == (if sum >= 0 {
                            sum / 2
                        } else {
                            -((-sum) / 2)
                        })
                    }
                }
        }),
{
    broadcast use vstd::seq_lib::group_to_multiset_ensures;

    let vals = observed_values(counted(v, now, region, metric));
    let s = vals.sort_by(ascending());
    super::median::lemma_ascending_total();
    vals.lemma_sort_by_ensures(ascending());
    assert(s.len() == vals.len()) by {
        assert(s.to_multiset().len() == vals.to_multiset().len());
    }
    assert forall|a: int, b: int| 0 <= a <= b < s.len() implies s[a] <= s[b] by {
        if a < b {
            assert((ascending())(s[a], s[b]));
        }
    }
}

/// Re-adding a key that is not currently active is accepted: with an admin
/// configured, nothing pending for the key, the key not active (never
/// registered, or removed), and the timelock fitting in `u64`, proposing an
/// addition records it with eta `now + 604800` and returns that eta.
/// `PublisherExists` comes only for a currently active key.
pub proof fn law_inactive_key_can_be_proposed_for_addition(
    v: OracleView,
    now: u64,
    publisher: Seq<u8>,
)
    ensures
        v.admin is Some && !v.pending.contains_key(publisher) && !(v.publishers.contains_key(
            publisher,
        ) && v.publishers[publisher].active) && now + 604800 <= u64::MAX ==> {
            &&& propose_spec(v, now, publisher, true).1 == Ok::<u64, Error>((now + 604800) as u64)
            &&& propose_spec(v, now, publisher, true).0.pending[publisher] == (PendingRegistry {
                add: true,
                eta: (now + 604800) as u64,
            })
        },
        propose_spec(v, now, publisher, true).1 == Err::<u64, Error>(Error::PublisherExists) ==> (
        v.publishers.contains_key(publisher) && v.publishers[publisher].active),
{
}

/// An executed addition records the key as active from the ledger time of
/// the execution, however long after the eta that is.
pub proof fn law_registration_time_is_execution_time(v: OracleView, now: u64, publisher: Seq<u8>)
    requires
        v.pending.contains_key(publisher),
        v.pending[publisher].add,
        execute_spec(v, now, publisher).1 is Ok,
    ensures
        execute_spec(v, now, publisher).0.publishers[publisher] == (PublisherInfo {
            active: true,
            added_at: now,
        }),
{
}

/// Clearing a challenge never fails once an admin is configured, whatever
/// the slot holds; on a slot without a flag it changes nothing. So a retry,
/// or any number of clears in a row, succeeds.
pub proof fn law_unchallenge_is_idempotent(
    v: OracleView,
    region: Seq<u8>,
    metric: Seq<u8>,
    seq: u32,
)
    requires
        v.admin is Some,
    ensures
        unchallenge_spec(v, region, metric, seq).1 == Ok::<(), Error>(()),
        (seq >= 16 || ring_of(v, region, metric).challenges[seq as int] is None) ==> unchallenge_spec(
            v,
            region,
            metric,
            seq,
        ).0 == v,
        unchallenge_spec(unchallenge_spec(v, region, metric, seq).0, region, metric, seq).1 == Ok::<
            (),
            Error,
        >(()),
{
}

} // verus!
