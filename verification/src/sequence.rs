//! Sets of packet sequence numbers and their ascending listing.

use vstd::prelude::*;

verus! {

/// The ordinal of a packet sent from one end of a channel.
pub type Sequence = u64;

/// Every element is strictly smaller than all that follow it.
pub open spec fn is_ascending(s: Seq<u64>) -> bool {
    forall|i: int, j: int| 0 <= i < j < s.len() ==> s[i] < s[j]
}

/// The members of a finite set, listed in ascending order.
pub open spec fn sorted(set: Set<u64>) -> Seq<u64> {
    choose|s: Seq<u64>| is_ascending(s) && s.to_set() == set
}

/// Two ascending sequences with the same members are the same sequence.
pub proof fn lemma_ascending_unique(a: Seq<u64>, b: Seq<u64>)
    requires
        is_ascending(a),
        is_ascending(b),
        a.to_set() == b.to_set(),
    ensures
        a == b,
    decreases a.len(),
{
    if a.len() == 0 {
        if b.len() > 0 {
            assert(b.to_set().contains(b[0]));
        }
    } else {
        assert(a.to_set().contains(a.last()));
        assert(b.to_set().contains(b.last()));
        let a1 = a.drop_last();
        let b1 = b.drop_last();
        assert forall|x: u64| a1.to_set().contains(x) <==> b1.to_set().contains(x) by {
            if a1.contains(x) {
                let i = choose|i: int| 0 <= i < a1.len() && a1[i] == x;
                assert(a.to_set().contains(x));
                let j = choose|j: int| 0 <= j < b.len() && b[j] == x;
                assert(b1[j] == x);
            }
            if b1.contains(x) {
                let j = choose|j: int| 0 <= j < b1.len() && b1[j] == x;
                assert(b.to_set().contains(x));
                let i = choose|i: int| 0 <= i < a.len() && a[i] == x;
                assert(a1[i] == x);
            }
        }
        assert(a1.to_set() =~= b1.to_set());
        lemma_ascending_unique(a1, b1);
        assert(b =~= b1.push(b.last()));
    }
}

/// An ascending sequence is the ascending listing of its own members.
pub proof fn lemma_sorted_of_ascending(s: Seq<u64>)
    requires
        is_ascending(s),
    ensures
        sorted(s.to_set()) == s,
{
    lemma_ascending_unique(sorted(s.to_set()), s);
}

/// Where a value enters an ascending sequence: the index before which every
/// element is smaller and from which on none is.
pub proof fn lemma_insertion_point(s: Seq<u64>, x: u64) -> (p: int)
    requires
        is_ascending(s),
    ensures
        0 <= p <= s.len(),
        forall|i: int| 0 <= i < p ==> s[i] < x,
        forall|i: int| p <= i < s.len() ==> s[i] >= x,
    decreases s.len(),
{
    if s.len() == 0 {
        0
    } else if s.last() < x {
        s.len() as int
    } else {
        let p = lemma_insertion_point(s.drop_last(), x);
        assert forall|i: int| 0 <= i < p implies s[i] < x by {
            assert(s.drop_last()[i] == s[i]);
        }
        assert forall|i: int| p <= i < s.len() implies s[i] >= x by {
            if i < s.len() - 1 {
                assert(s.drop_last()[i] == s[i]);
            }
        }
        p
    }
}

/// Putting a new value at its insertion point keeps the sequence ascending
/// and adds the value to its members.
pub proof fn lemma_insert_ascending(s: Seq<u64>, p: int, x: u64)
    requires
        is_ascending(s),
        0 <= p <= s.len(),
        forall|i: int| 0 <= i < p ==> s[i] < x,
        forall|i: int| p <= i < s.len() ==> s[i] > x,
    ensures
        is_ascending(s.insert(p, x)),
        s.insert(p, x).to_set() == s.to_set().insert(x),
{
    let t = s.insert(p, x);
    s.insert_ensures(p, x);
    assert forall|y: u64| t.to_set().contains(y) <==> s.to_set().insert(x).contains(y) by {
        if s.contains(y) {
            let k = choose|k: int| 0 <= k < s.len() && s[k] == y;
            if k < p {
                assert(t[k] == y);
            }
        }
    }
}

/// Every finite set has an ascending listing: `sorted` of it is ascending and
/// holds exactly its members.
pub proof fn lemma_sorted_lists(set: Set<u64>)
    requires
        set.finite(),
    ensures
        is_ascending(sorted(set)),
        sorted(set).to_set() == set,
    decreases set.len(),
{
    if set.len() == 0 {
        let e = Seq::<u64>::empty();
        assert(is_ascending(e) && e.to_set() == set);
    } else {
        let x = set.choose();
        let rest = set.remove(x);
        lemma_sorted_lists(rest);
        let l = sorted(rest);
        let p = lemma_insertion_point(l, x);
        lemma_insert_ascending(l, p, x);
    }
}

/// A value that lies strictly between what has been kept so far and the
/// element at `from` does not occur in `s`, given that every earlier element
/// of `s` that matters has been kept.
proof fn lemma_absent_beyond(s: Seq<u64>, from: int, kept: Seq<u64>, x: u64)
    requires
        is_ascending(s),
        0 <= from < s.len(),
        x < s[from],
        forall|k: int| 0 <= k < kept.len() ==> #[trigger] kept[k] < x,
        forall|k: int| 0 <= k < from && #[trigger] s[k] == x ==> kept.contains(s[k]),
    ensures
        !s.contains(x),
{
    if s.contains(x) {
        let k = choose|k: int| 0 <= k < s.len() && s[k] == x;
        if k < from {
            assert(kept.contains(s[k]));
        }
    }
}

/// A finite set of sequence numbers.
///
/// The members are kept in a vector in ascending order, so membership is a
/// binary search and the ascending listing is the vector itself.
#[derive(Debug, PartialEq, Eq)]
pub struct SequenceSet {
    items: Vec<Sequence>,
}

/// The pending commitments of one end of a channel.
pub type CommitmentSet = SequenceSet;

/// The sequences for which a chain holds a written acknowledgement.
pub type AcknowledgementPresenceSet = SequenceSet;

/// The sequences whose acknowledgement has yet to reach the source, in
/// ascending order.
pub type UnreceivedAckResult = Vec<Sequence>;

impl View for SequenceSet {
    type V = Set<u64>;

    closed spec fn view(&self) -> Set<u64> {
        self.items@.to_set()
    }
}

impl Clone for SequenceSet {
    fn clone(&self) -> (copy: Self)
        ensures
            copy@ == self@,
    {
        proof {
            use_type_invariant(self);
        }
        SequenceSet { items: self.items.clone() }
    }
}

impl SequenceSet {
    #[verifier::type_invariant]
    spec fn ascending(self) -> bool {
        is_ascending(self.items@)
    }

    /// The set is finite.
    pub proof fn lemma_finite(self)
        ensures
            self@.finite(),
    {
        vstd::seq_lib::seq_to_set_is_finite(self.items@);
    }

    /// The empty set.
    pub fn new() -> (set: Self)
        ensures
            set@ == Set::<u64>::empty(),
    {
        SequenceSet { items: Vec::new() }
    }

    /// The number of members.
    pub fn len(&self) -> (n: usize)
        ensures
            n == self@.len(),
    {
        proof {
            use_type_invariant(self);
            self.items@.unique_seq_to_set();
        }
        self.items.len()
    }

    /// Whether the set has no member.
    pub fn is_empty(&self) -> (empty: bool)
        ensures
            empty == self@.is_empty(),
    {
        proof {
            if self.items@.len() > 0 {
                assert(self.items@.to_set().contains(self.items@[0]));
            }
        }
        self.items.len() == 0
    }

    /// The index before which every member is smaller than `sequence` and
    /// from which on none is.
    fn position(&self, sequence: Sequence) -> (p: usize)
        ensures
            p <= self.items@.len(),
            forall|i: int| 0 <= i < p ==> self.items@[i] < sequence,
            forall|i: int| p <= i < self.items@.len() ==> self.items@[i] >= sequence,
    {
        proof {
            use_type_invariant(self);
        }
        let mut low: usize = 0;
        let mut high: usize = self.items.len();
        while low < high
            invariant
                low <= high <= self.items@.len(),
                is_ascending(self.items@),
                forall|i: int| 0 <= i < low ==> self.items@[i] < sequence,
                forall|i: int| high <= i < self.items@.len() ==> self.items@[i] >= sequence,
            decreases high - low,
        {
            let mid: usize = low + (high - low) / 2;
            if self.items[mid] < sequence {
                low = mid + 1;
            } else {
                high = mid;
            }
        }
        low
    }

    /// Whether `sequence` is a member.
    pub fn contains(&self, sequence: Sequence) -> (found: bool)
        ensures
            found == self@.contains(sequence),
    {
        proof {
            use_type_invariant(self);
        }
        let p = self.position(sequence);
        p < self.items.len() && self.items[p] == sequence
    }

    /// Adds `sequence` to the set. Returns whether it was new.
    pub fn insert(&mut self, sequence: Sequence) -> (added: bool)
        ensures
            final(self)@ == old(self)@.insert(sequence),
            added == !old(self)@.contains(sequence),
    {
        proof {
            use_type_invariant(&*self);
        }
        let p = self.position(sequence);
        if p < self.items.len() && self.items[p] == sequence {
            false
        } else {
            proof {
                lemma_insert_ascending(self.items@, p as int, sequence);
            }
            let mut items: Vec<u64> = Vec::new();
            std::mem::swap(&mut items, &mut self.items);
            items.insert(p, sequence);
            self.items = items;
            true
        }
    }

    /// The set of the values that occur in `records`, in whatever order and
    /// however often they occur there.
    pub fn collect(records: &Vec<Sequence>) -> (set: Self)
        ensures
            set@ == records@.to_set(),
    {
        assert(records@.subrange(0, records@.len() as int) =~= records@);
        SequenceSet::collect_range(records, 0, records.len())
    }

    /// The set of the values in `records` from index `from` up to, not
    /// including, `to`: the sets of the two halves, united.
    fn collect_range(records: &Vec<Sequence>, from: usize, to: usize) -> (set: Self)
        requires
            from <= to <= records@.len(),
        ensures
            set@ == records@.subrange(from as int, to as int).to_set(),
        decreases to - from,
    {
        let ghost range = records@.subrange(from as int, to as int);
        if to - from == 0 {
            SequenceSet::new()
        } else if to - from == 1 {
            let mut items: Vec<u64> = Vec::new();
            items.push(records[from]);
            assert(items@ =~= range);
            SequenceSet { items }
        } else {
            let mid: usize = from + (to - from) / 2;
            let lower = SequenceSet::collect_range(records, from, mid);
            let upper = SequenceSet::collect_range(records, mid, to);
            proof {
                let first = records@.subrange(from as int, mid as int);
                let second = records@.subrange(mid as int, to as int);
                assert(range =~= first + second);
                vstd::seq_lib::seq_to_set_distributes_over_add(first, second);
            }
            lower.union(&upper)
        }
    }

    /// The members of either set.
    pub fn union(&self, other: &Self) -> (either: Self)
        ensures
            either@ == self@.union(other@),
    {
        proof {
            use_type_invariant(self);
            use_type_invariant(other);
        }
        let mut items: Vec<u64> = Vec::new();
        let mut i: usize = 0;
        let mut j: usize = 0;
        while i < self.items.len() || j < other.items.len()
            invariant
                i <= self.items@.len(),
                j <= other.items@.len(),
                is_ascending(self.items@),
                is_ascending(other.items@),
                is_ascending(items@),
                forall|k: int|
                    0 <= k < items@.len() ==> self.items@.contains(#[trigger] items@[k])
                        || other.items@.contains(items@[k]),
                forall|k: int| 0 <= k < i ==> items@.contains(#[trigger] self.items@[k]),
                forall|k: int| 0 <= k < j ==> items@.contains(#[trigger] other.items@[k]),
                forall|k: int|
                    0 <= k < items@.len() && i < self.items@.len() ==> #[trigger] items@[k]
                        < self.items@[i as int],
                forall|k: int|
                    0 <= k < items@.len() && j < other.items@.len() ==> #[trigger] items@[k]
                        < other.items@[j as int],
            decreases self.items@.len() - i + other.items@.len() - j,
        {
            let ghost before = items@;
            let take_own = j == other.items.len() || (i < self.items.len() && self.items[i]
                <= other.items[j]);
            let take_other = i == self.items.len() || (j < other.items.len() && other.items[j]
                <= self.items[i]);
            let next = if take_own {
                self.items[i]
            } else {
                other.items[j]
            };
            items.push(next);
            proof {
                assert(items@[before.len() as int] == next);
                assert forall|k: int| 0 <= k < before.len() implies items@[k] == before[k] by {}
                assert forall|x: u64| before.contains(x) implies items@.contains(x) by {
                    let k = choose|k: int| 0 <= k < before.len() && before[k] == x;
                    assert(items@[k] == x);
                }
            }
            if take_own {
                i += 1;
            }
            if take_other {
                j += 1;
            }
        }
        proof {
            assert forall|x: u64|
                items@.to_set().contains(x) <==> self.items@.to_set().union(
                    other.items@.to_set(),
                ).contains(x) by {
                if self.items@.contains(x) {
                    let p = choose|p: int| 0 <= p < self.items@.len() && self.items@[p] == x;
                    assert(items@.contains(self.items@[p]));
                }
                if other.items@.contains(x) {
                    let q = choose|q: int| 0 <= q < other.items@.len() && other.items@[q] == x;
                    assert(items@.contains(other.items@[q]));
                }
            }
        }
        SequenceSet { items }
    }

    /// The members that the two sets have in common.
    pub fn intersection(&self, other: &Self) -> (common: Self)
        ensures
            common@ == self@.intersect(other@),
    {
        proof {
            use_type_invariant(self);
            use_type_invariant(other);
        }
        let mut items: Vec<u64> = Vec::new();
        let mut i: usize = 0;
        let mut j: usize = 0;
        while i < self.items.len() && j < other.items.len()
            invariant
                i <= self.items@.len(),
                j <= other.items@.len(),
                is_ascending(self.items@),
                is_ascending(other.items@),
                is_ascending(items@),
                forall|k: int|
                    0 <= k < items@.len() ==> self.items@.contains(#[trigger] items@[k])
                        && other.items@.contains(items@[k]),
                forall|k: int|
                    0 <= k < i && other.items@.contains(#[trigger] self.items@[k])
                        ==> items@.contains(self.items@[k]),
                forall|k: int|
                    0 <= k < j && self.items@.contains(#[trigger] other.items@[k])
                        ==> items@.contains(other.items@[k]),
                forall|k: int|
                    0 <= k < items@.len() && i < self.items@.len() ==> #[trigger] items@[k]
                        < self.items@[i as int],
                forall|k: int|
                    0 <= k < items@.len() && j < other.items@.len() ==> #[trigger] items@[k]
                        < other.items@[j as int],
            decreases self.items@.len() - i + other.items@.len() - j,
        {
            let a = self.items[i];
            let b = other.items[j];
            if a < b {
                proof {
                    lemma_absent_beyond(other.items@, j as int, items@, a);
                }
                i += 1;
            } else if b < a {
                proof {
                    lemma_absent_beyond(self.items@, i as int, items@, b);
                }
                j += 1;
            } else {
                let ghost before = items@;
                items.push(a);
                proof {
                    assert(items@[before.len() as int] == a);
                    assert forall|k: int| 0 <= k < before.len() implies items@[k] == before[k] by {}
                    assert forall|x: u64| before.contains(x) implies items@.contains(x) by {
                        let k = choose|k: int| 0 <= k < before.len() && before[k] == x;
                        assert(items@[k] == x);
                    }
                }
                i += 1;
                j += 1;
            }
        }
        proof {
            assert forall|x: u64|
                items@.to_set().contains(x) <==> self.items@.to_set().intersect(
                    other.items@.to_set(),
                ).contains(x) by {
                if self.items@.contains(x) && other.items@.contains(x) {
                    let p = choose|p: int| 0 <= p < self.items@.len() && self.items@[p] == x;
                    let q = choose|q: int| 0 <= q < other.items@.len() && other.items@[q] == x;
                    if i == self.items@.len() {
                        assert(items@.contains(self.items@[p]));
                    } else {
                        assert(items@.contains(other.items@[q]));
                    }
                }
            }
        }
        SequenceSet { items }
    }

    /// The members in ascending order.
    pub fn to_vec(&self) -> (listing: Vec<Sequence>)
        ensures
            listing@ == sorted(self@),
            is_ascending(listing@),
            listing@.to_set() == self@,
    {
        proof {
            use_type_invariant(self);
            lemma_sorted_of_ascending(self.items@);
        }
        self.items.clone()
    }

    /// The members in ascending order, without copying them.
    pub fn into_vec(self) -> (listing: Vec<Sequence>)
        ensures
            listing@ == sorted(self@),
            is_ascending(listing@),
            listing@.to_set() == self@,
    {
        proof {
            use_type_invariant(&self);
            lemma_sorted_of_ascending(self.items@);
        }
        self.items
    }
}

} // verus!
