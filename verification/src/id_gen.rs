//! Sequential identifier allocation: every call hands out the smallest
//! positive integer that has not been used yet.

use std::collections::HashSet;
use vstd::std_specs::iter::IteratorSpec;
use vstd::prelude::*;

verus! {

/// Whether `id` is the smallest positive integer that `used` does not hold.
pub open spec fn is_smallest_unused(used: Set<u64>, id: u64) -> bool {
    &&& id >= 1
    &&& !used.contains(id)
    &&& forall|v: u64| 1 <= v < id ==> used.contains(v)
}

/// Whether some positive 64-bit integer is missing from `used`.
pub open spec fn has_unused(used: Set<u64>) -> bool {
    exists|v: u64| v >= 1 && !used.contains(v)
}

/// The smallest positive integer that `used` does not hold. The value is
/// meaningful only while `has_unused(used)` holds.
pub open spec fn smallest_unused(used: Set<u64>) -> u64 {
    choose|id: u64| is_smallest_unused(used, id)
}

/// The identifiers returned by `n` allocations in a row, the first of them
/// made when `used` is the set of identifiers in use.
pub open spec fn allocations(used: Set<u64>, n: nat) -> Seq<u64>
    decreases n,
{
    if n == 0 {
        Seq::empty()
    } else {
        let id = smallest_unused(used);
        seq![id] + allocations(used.insert(id), (n - 1) as nat)
    }
}

/// Whether `n` allocations in a row can be served starting from `used`,
/// that is, whether an unused positive identifier is left at each of them.
pub open spec fn can_allocate(used: Set<u64>, n: nat) -> bool
    decreases n,
{
    n == 0 || (has_unused(used) && can_allocate(
        used.insert(smallest_unused(used)),
        (n - 1) as nat,
    ))
}

/// Hands out identifiers, never the same one twice. Its view is the set of
/// identifiers in use: those it was seeded with and those it has returned.
pub struct IdGenerator {
    used_ids: HashSet<u64>,
    counter: u64,
}

impl View for IdGenerator {
    type V = Set<u64>;

    closed spec fn view(&self) -> Set<u64> {
        self.used_ids@
    }
}

impl IdGenerator {
    /// The cursor is positive and every positive integer below it is in use.
    pub closed spec fn wf(&self) -> bool {
        &&& self.counter >= 1
        &&& forall|v: u64| 1 <= v < self.counter ==> self.used_ids@.contains(v)
    }

    /// Where the next search for an unused identifier starts.
    pub closed spec fn cursor(&self) -> u64 {
        self.counter
    }

    /// The identifiers in use are finitely many.
    pub proof fn lemma_finite(&self)
        ensures
            self@.finite(),
    {
        vstd::std_specs::hash::axiom_spec_hash_keys_iter(&self.used_ids);
        vstd::seq_lib::seq_to_set_is_finite(self.used_ids.iter().remaining().unref());
    }

    /// A generator with no identifier in use.
    pub fn new() -> (g: Self)
        ensures
            g.wf(),
            g@ == Set::<u64>::empty(),
            g.cursor() == 1,
    {
        Self { used_ids: HashSet::new(), counter: 1 }
    }

    /// A generator that treats every member of `used_ids` as already in use.
    pub fn with_used_ids(used_ids: HashSet<u64>) -> (g: Self)
        ensures
            g.wf(),
            g@ == used_ids@,
            g.cursor() == 1,
    {
        Self { used_ids, counter: 1 }
    }

    /// Returns the smallest positive integer not yet in use and records it
    /// as used. The cursor comes to rest on the returned identifier.
    ///
    /// An unused positive identifier must be left; by
    /// `lemma_room_leaves_unused` one is, as long as fewer than `u64::MAX`
    /// identifiers are in use.
    pub fn generate_unique_id(&mut self) -> (id: u64)
        requires
            old(self).wf(),
            has_unused(old(self)@),
        ensures
            final(self).wf(),
            id == smallest_unused(old(self)@),
            is_smallest_unused(old(self)@, id),
            old(self).cursor() <= id,
            final(self)@ == old(self)@.insert(id),
            final(self).cursor() == id,
    {
        while self.used_ids.contains(&self.counter)
            invariant
                self.used_ids@ == old(self).used_ids@,
                old(self).counter <= self.counter,
                self.wf(),
                has_unused(self.used_ids@),
            decreases u64::MAX - self.counter,
        {
            self.counter += 1;
        }
        proof {
            lemma_smallest_unused_is_unique(self.used_ids@, self.counter);
        }
        self.used_ids.insert(self.counter);
        self.counter
    }
}

impl Default for IdGenerator {
    fn default() -> (g: Self)
        ensures
            g.wf(),
            g@ == Set::<u64>::empty(),
            g.cursor() == 1,
    {
        Self::new()
    }
}

/// At most one identifier is the smallest unused one, and `smallest_unused`
/// names it.
pub proof fn lemma_smallest_unused_is_unique(used: Set<u64>, id: u64)
    requires
        is_smallest_unused(used, id),
    ensures
        smallest_unused(used) == id,
{
    // Of two identifiers that both are the smallest unused one, neither can
    // be below the other: it would be in use.
    assert(is_smallest_unused(used, smallest_unused(used)));
}

/// The smallest unused identifier at or above `from`, given that all
/// positive integers below `from` are in use and `spare` is not.
proof fn lemma_least_unused_from(used: Set<u64>, from: u64, spare: u64) -> (least: u64)
    requires
        1 <= from <= spare,
        !used.contains(spare),
        forall|v: u64| 1 <= v < from ==> used.contains(v),
    ensures
        is_smallest_unused(used, least),
    decreases spare - from,
{
    if used.contains(from) {
        lemma_least_unused_from(used, (from + 1) as u64, spare)
    } else {
        from
    }
}

/// While a positive identifier is left unused, `smallest_unused` is the
/// smallest of those left.
pub proof fn lemma_smallest_unused_exists(used: Set<u64>)
    requires
        has_unused(used),
    ensures
        is_smallest_unused(used, smallest_unused(used)),
{
    let spare = choose|v: u64| v >= 1 && !used.contains(v);
    let least = lemma_least_unused_from(used, 1, spare);
    lemma_smallest_unused_is_unique(used, least);
}

/// A set with fewer members than there are positive 64-bit integers
/// leaves one of them unused.
pub proof fn lemma_room_leaves_unused(used: Set<u64>)
    requires
        used.finite(),
        used.len() < u64::MAX,
    ensures
        has_unused(used),
{
    if !has_unused(used) {
        // Then `used` holds all of 1 to `u64::MAX`, which are `u64::MAX` members.
        let positive = Set::<u64>::range_inclusive(1, u64::MAX);
        vstd::set_lib::range_set_properties::<u64>(1, u64::MAX);
        assert(positive.subset_of(used));
        vstd::set_lib::lemma_len_subset(positive, used);
    }
}

/// Room for `n` more members is room for `n` allocations in a row.
pub proof fn lemma_room_for_allocations(used: Set<u64>, n: nat)
    requires
        used.finite(),
        used.len() + n <= u64::MAX,
    ensures
        can_allocate(used, n),
    decreases n,
{
    if n > 0 {
        lemma_room_leaves_unused(used);
        lemma_smallest_unused_exists(used);
        lemma_room_for_allocations(used.insert(smallest_unused(used)), (n - 1) as nat);
    }
}

/// `n` allocations return `n` identifiers.
pub proof fn lemma_allocations_len(used: Set<u64>, n: nat)
    ensures
        allocations(used, n).len() == n,
    decreases n,
{
    if n > 0 {
        lemma_allocations_len(used.insert(smallest_unused(used)), (n - 1) as nat);
    }
}

/// Allocations made in a row return identifiers in strictly increasing
/// order, so that no two of them are the same; none of them was in use
/// before; and each is the smallest positive integer that neither was in
/// use at the start nor has been returned since.
pub proof fn lemma_allocations_are_fresh_and_smallest(used: Set<u64>, n: nat)
    requires
        can_allocate(used, n),
    ensures
        allocations(used, n).len() == n,
        allocations(used, n).no_duplicates(),
        forall|i: int| 0 <= i < n ==> !used.contains(#[trigger] allocations(used, n)[i]),
        forall|i: int, j: int|
            0 <= i < j < n ==> allocations(used, n)[i] < allocations(used, n)[j],
        forall|i: int|
            0 <= i < n ==> is_smallest_unused(
                used.union(allocations(used, n).take(i).to_set()),
                #[trigger] allocations(used, n)[i],
            ),
    decreases n,
{
    if n > 0 {
        let id = smallest_unused(used);
        let next = used.insert(id);
        let rest = allocations(next, (n - 1) as nat);
        let all = allocations(used, n);
        lemma_smallest_unused_exists(used);
        lemma_allocations_are_fresh_and_smallest(next, (n - 1) as nat);
        assert(all == seq![id] + rest);
        assert forall|i: int| 0 <= i < n implies is_smallest_unused(
            used.union(all.take(i).to_set()),
            #[trigger] all[i],
        ) by {
            if i > 0 {
                // What is in use before the allocation `i` is what was in
                // use before the allocation `i - 1` of the rest.
                assert forall|v: u64|
                    used.union(all.take(i).to_set()).contains(v) <==> next.union(
                        rest.take(i - 1).to_set(),
                    ).contains(v) by {
                    let head = all.take(i);
                    let tail = rest.take(i - 1);
                    if head.contains(v) {
                        let k = choose|k: int| 0 <= k < head.len() && head[k] == v;
                        if k > 0 {
                            assert(tail[k - 1] == v);
                        }
                    }
                    if tail.contains(v) {
                        let k = choose|k: int| 0 <= k < tail.len() && tail[k] == v;
                        assert(head[k + 1] == v);
                    }
                    if v == id {
                        assert(head[0] == v);
                    }
                }
            }
        }
    }
}

/// Starting with nothing in use, the allocations are 1, 2, 3 and so on.
pub proof fn lemma_allocations_from_nothing(n: nat)
    requires
        n <= u64::MAX,
    ensures
        can_allocate(Set::<u64>::empty(), n),
        allocations(Set::<u64>::empty(), n) == Seq::new(n, |i: int| (i + 1) as u64),
{
    lemma_allocations_after_run(0, n);
    assert(run_up_to(0) =~= Set::<u64>::empty());
}

/// The identifiers 1 to `last`.
pub open spec fn run_up_to(last: u64) -> Set<u64> {
    Set::new(|v: u64| 1 <= v <= last)
}

/// With exactly 1 to `last` in use, the allocations carry on from
/// `last + 1`, one by one.
pub proof fn lemma_allocations_after_run(last: u64, n: nat)
    requires
        last + n <= u64::MAX,
    ensures
        can_allocate(run_up_to(last), n),
        allocations(run_up_to(last), n) == Seq::new(n, |i: int| (last + i + 1) as u64),
    decreases n,
{
    let used = run_up_to(last);
    if n > 0 {
        let id = (last + 1) as u64;
        lemma_smallest_unused_is_unique(used, id);
        assert(used.insert(id) =~= run_up_to(id));
        lemma_allocations_after_run(id, (n - 1) as nat);
    }
}

} // verus!
