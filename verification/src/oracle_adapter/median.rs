//! Sorting the values that count toward a median, and tracking which
//! publishers they came from.

use vstd::prelude::*;
use vstd::seq_lib::lemma_multiset_commutative;

use super::rings::RingView;
use super::table::{keys_equal, PublisherKey};
use super::{Error, Observation};

verus! {

/// Observations retained per region and metric, as an array length.
pub const RING_SLOTS: usize = 16;

/// How long ago, in seconds, an observation stamped `t` was made at `now`;
/// zero for a stamp in the future.
pub open spec fn age(now: u64, t: u64) -> int {
    if now >= t {
        now - t
    } else {
        0
    }
}

/// Slot `i` of a ring counts toward the median: it holds an accepted
/// observation no older than `bound` seconds and carries no challenge.
pub open spec fn slot_counts(r: RingView, i: int, now: u64, bound: int) -> bool {
    match r.slots[i] {
        Some(o) => o.accepted && age(now, o.timestamp) <= bound && r.challenges[i] is None,
        None => false,
    }
}

/// The observations of the first `n` slots that count toward the median,
/// in slot order.
pub open spec fn counted_observations(r: RingView, n: int, now: u64, bound: int) -> Seq<
    Observation,
>
    decreases n,
{
    if n <= 0 {
        Seq::empty()
    } else {
        let prev = counted_observations(r, n - 1, now, bound);
        if slot_counts(r, n - 1, now, bound) {
            prev.push(r.slots[n - 1]->0)
        } else {
            prev
        }
    }
}

/// The values of a sequence of observations.
pub open spec fn observed_values(s: Seq<Observation>) -> Seq<i128> {
    s.map_values(|o: Observation| o.value)
}

/// The distinct publishers of a sequence of observations.
pub open spec fn observed_publishers(s: Seq<Observation>) -> Set<Seq<u8>> {
    s.map_values(|o: Observation| o.publisher@).to_set()
}

/// The views of a sequence of keys.
pub open spec fn key_views(s: Seq<PublisherKey>) -> Seq<Seq<u8>> {
    s.map_values(|k: PublisherKey| k@)
}

/// Ascending order on values.
pub open spec fn ascending() -> spec_fn(i128, i128) -> bool {
    |a: i128, b: i128| a <= b
}

/// Half of `x`, truncated toward zero.
pub open spec fn half(x: int) -> int {
    if x >= 0 {
        x / 2
    } else {
        -((-x) / 2)
    }
}

/// The median of an ascending, non-empty sequence: the middle value for an
/// odd length, else the mean of the two middle values truncated toward
/// zero, or `Overflow` when their sum leaves `i128`.
pub open spec fn median_of_sorted(s: Seq<i128>) -> Result<i128, Error> {
    let mid = s.len() / 2;
    if s.len() % 2 == 1 {
        Ok(s[mid as int])
    } else if s[mid - 1] + s[mid as int] > i128::MAX || s[mid - 1] + s[mid as int] < i128::MIN {
        Err(Error::Overflow)
    } else {
        Ok(half(s[mid - 1] + s[mid as int]) as i128)
    }
}

/// Membership test over the distinct-publisher accumulator. A linear scan
/// bounded by the ring size.
pub fn contains_publisher(seen: &Vec<PublisherKey>, publisher: &PublisherKey) -> (r: bool)
    ensures
        r == key_views(seen@).contains(publisher@),
{
    let mut i: usize = 0;
    while i < seen.len()
        invariant
            i <= seen@.len(),
            forall|k: int| 0 <= k < i ==> seen@[k]@ != publisher@,
        decreases seen@.len() - i,
    {
        if keys_equal(&seen[i], publisher) {
            assert(key_views(seen@)[i as int] == publisher@);
            return true;
        }
        i = i + 1;
    }
    proof {
        if key_views(seen@).contains(publisher@) {
            let j = choose|j: int| 0 <= j < key_views(seen@).len() && key_views(seen@)[j] == publisher@;
            assert(seen@[j]@ == publisher@);
        }
    }
    false
}

/// Ascending order on values is a total order.
pub proof fn lemma_ascending_total()
    ensures
        vstd::relations::total_ordering(ascending()),
{
    let r = ascending();
    assert(vstd::relations::reflexive(r));
    assert(vstd::relations::antisymmetric(r));
    assert(vstd::relations::transitive(r));
    assert(vstd::relations::strongly_connected(r));
}

/// A sorted rearrangement of `s` is the ascending sort of `s`.
pub proof fn lemma_sorted_rearrangement(s: Seq<i128>, t: Seq<i128>)
    requires
        sorted_prefix(t, t.len() as int),
        t.to_multiset() == s.to_multiset(),
    ensures
        t == s.sort_by(ascending()),
{
    lemma_ascending_total();
    s.lemma_sort_by_ensures(ascending());
    assert(vstd::relations::sorted_by(t, ascending())) by {
        assert forall|i: int, j: int| 0 <= i < j < t.len() implies #[trigger] (ascending())(
            t[i],
            t[j],
        ) by {
            assert(t[i] <= t[j]);
        }
    }
    vstd::seq_lib::lemma_sorted_unique(t, s.sort_by(ascending()), ascending());
}

/// One more counted observation adds its value at the end.
pub proof fn lemma_values_push(s: Seq<Observation>, o: Observation)
    ensures
        observed_values(s.push(o)) == observed_values(s).push(o.value),
{
    assert(observed_values(s.push(o)) =~= observed_values(s).push(o.value));
}

/// One more counted observation adds its publisher to the set.
pub proof fn lemma_publishers_push(s: Seq<Observation>, o: Observation)
    ensures
        observed_publishers(s.push(o)) == observed_publishers(s).insert(o.publisher@),
{
    let f = |x: Observation| x.publisher@;
    assert(s.push(o).map_values(f) =~= s.map_values(f).push(o.publisher@));
    assert forall|k: Seq<u8>| #[trigger] observed_publishers(s.push(o)).contains(k) <==> observed_publishers(
        s,
    ).insert(o.publisher@).contains(k) by {
        let a = s.map_values(f);
        if a.push(o.publisher@).contains(k) {
            let i = choose|i: int| 0 <= i < a.push(o.publisher@).len() && a.push(o.publisher@)[i] == k;
            if i < a.len() {
                assert(a.contains(k));
            }
        }
        if a.contains(k) {
            let i = choose|i: int| 0 <= i < a.len() && a[i] == k;
            assert(a.push(o.publisher@)[i] == k);
        }
        if k == o.publisher@ {
            assert(a.push(o.publisher@)[a.len() as int] == k);
        }
    }
    assert(observed_publishers(s.push(o)) =~= observed_publishers(s).insert(o.publisher@));
}

/// Appending a key not yet present keeps the keys distinct and adds it to
/// their set.
pub proof fn lemma_keys_push(ks: Seq<PublisherKey>, k: PublisherKey)
    requires
        key_views(ks).no_duplicates(),
        !key_views(ks).contains(k@),
    ensures
        key_views(ks.push(k)).no_duplicates(),
        key_views(ks.push(k)).to_set() == key_views(ks).to_set().insert(k@),
{
    let a = key_views(ks);
    assert(key_views(ks.push(k)) =~= a.push(k@));
    assert forall|i: int, j: int|
        0 <= i < a.push(k@).len() && 0 <= j < a.push(k@).len() && i != j implies a.push(k@)[i]
        != a.push(k@)[j] by {
        if i == a.len() as int {
            if a[j] == k@ {
                assert(a.contains(k@));
            }
        } else if j == a.len() as int {
            if a[i] == k@ {
                assert(a.contains(k@));
            }
        }
    }
    assert forall|x: Seq<u8>| #[trigger] a.push(k@).to_set().contains(x) <==> a.to_set().insert(k@).contains(x) by {
        if a.push(k@).contains(x) {
            let i = choose|i: int| 0 <= i < a.push(k@).len() && a.push(k@)[i] == x;
            if i < a.len() {
                assert(a.contains(x));
            }
        }
        if a.contains(x) {
            let i = choose|i: int| 0 <= i < a.len() && a[i] == x;
            assert(a.push(k@)[i] == x);
        }
        if x == k@ {
            assert(a.push(k@)[a.len() as int] == x);
        }
    }
    assert(a.push(k@).to_set() =~= a.to_set().insert(k@));
}

/// The first `n` entries of `s` are in ascending order.
pub open spec fn sorted_prefix(s: Seq<i128>, n: int) -> bool {
    forall|a: int, b: int| 0 <= a <= b < n ==> #[trigger] s[a] <= #[trigger] s[b]
}

/// One insertion step keeps the multiset of the first `i + 1` values: the
/// values before the insertion point stay, the value from position `i` goes
/// in, and the values between move up by one.
proof fn lemma_insertion_permutes(s: Seq<i128>, t: Seq<i128>, j: int, i: int)
    requires
        0 <= j <= i < s.len(),
        t =~= s.subrange(0, j) + seq![s[i]] + s.subrange(j, i),
    ensures
        t.to_multiset() == s.subrange(0, i + 1).to_multiset(),
{
    let p = s.subrange(0, j);
    let m = s.subrange(j, i);
    let x = seq![s[i]];
    assert(s.subrange(0, i + 1) =~= p + m + x);
    lemma_multiset_commutative(p + x, m);
    lemma_multiset_commutative(p, x);
    lemma_multiset_commutative(p + m, x);
    lemma_multiset_commutative(p, m);
    broadcast use vstd::multiset::group_multiset_axioms;
    assert(p.to_multiset().add(x.to_multiset()).add(m.to_multiset()) =~= p.to_multiset().add(
        m.to_multiset(),
    ).add(x.to_multiset()));
}

/// Sort `values[0..len]` ascending in place by insertion. `len` never
/// exceeds the ring size, so the quadratic cost is bounded by a constant.
/// The values past `len` are left as they were.
pub fn sort_ascending(values: &mut [i128; 16], len: usize)
    requires
        len <= RING_SLOTS,
    ensures
        sorted_prefix(final(values)@, len as int),
        final(values)@.subrange(0, len as int).to_multiset()
            == old(values)@.subrange(0, len as int).to_multiset(),
        final(values)@.subrange(len as int, 16) == old(values)@.subrange(len as int, 16),
{
    let ghost orig = values@;
    let mut i: usize = 1;
    while i < len
        invariant
            1 <= i,
            len <= 16,
            i <= len || len == 0,
            values@.len() == 16,
            sorted_prefix(values@, i as int),
            values@.subrange(0, len as int).to_multiset() == orig.subrange(0, len as int).to_multiset(),
            values@.subrange(len as int, 16) == orig.subrange(len as int, 16),
        decreases len - i,
    {
        let ghost s = values@;
        let key = values[i];
        let mut j: usize = i;
        while j > 0 && values[j - 1] > key
            invariant
                0 <= j <= i < len <= 16,
                values@.len() == 16,
                s.len() == 16,
                key == s[i as int],
                sorted_prefix(s, i as int),
                forall|k: int| 0 <= k < j ==> values@[k] == s[k],
                forall|k: int| j < k <= i ==> values@[k] == s[k - 1],
                forall|k: int| i < k < 16 ==> values@[k] == s[k],
                forall|k: int| j < k <= i ==> values@[k] > key,
            decreases j,
        {
            values[j] = values[j - 1];
            j = j - 1;
        }
        values[j] = key;
        proof {
            let t = values@;
            assert(j == 0 || s[j - 1] <= key);
            assert forall|a: int, b: int| 0 <= a <= b < i + 1 implies #[trigger] t[a] <= #[trigger] t[b] by {
                if a < j && b < j {
                    assert(t[a] == s[a] && t[b] == s[b]);
                } else if a < j && b == j {
                    assert(t[a] == s[a]);
                    assert(s[a] <= s[j - 1]);
                } else if a < j {
                    assert(t[a] == s[a] && t[b] == s[b - 1]);
                    assert(s[a] <= s[b - 1]);
                } else if a == j && b > j {
                    assert(t[b] == s[b - 1]);
                } else if a > j {
                    assert(t[a] == s[a - 1] && t[b] == s[b - 1]);
                    assert(s[a - 1] <= s[b - 1]);
                }
            }
            assert(t.subrange(0, i + 1) =~= s.subrange(0, j as int) + seq![s[i as int]] + s.subrange(j as int, i as int));
            lemma_insertion_permutes(s, t.subrange(0, i + 1), j as int, i as int);
            assert(t.subrange(0, len as int) =~= t.subrange(0, i + 1) + s.subrange(i + 1, len as int));
            assert(s.subrange(0, len as int) =~= s.subrange(0, i + 1) + s.subrange(i + 1, len as int));
            lemma_multiset_commutative(t.subrange(0, i + 1), s.subrange(i + 1, len as int));
            lemma_multiset_commutative(s.subrange(0, i + 1), s.subrange(i + 1, len as int));
            assert(t.subrange(len as int, 16) =~= s.subrange(len as int, 16));
        }
        i = i + 1;
    }
}

} // verus!
