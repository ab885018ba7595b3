//! The visit counter: how many tracked requests the service has answered.

use vstd::prelude::*;

verus! {

/// The count after `n` more visits, one at a time.
pub open spec fn after_visits(count: nat, n: nat) -> nat
    decreases n,
{
    if n == 0 {
        count
    } else {
        after_visits(count, (n - 1) as nat) + 1
    }
}

/// A counter of visits.  It starts at zero and only ever goes up by one.
pub struct VisitCounter {
    count: usize,
}

impl View for VisitCounter {
    type V = nat;

    closed spec fn view(&self) -> nat {
        self.count as nat
    }
}

impl VisitCounter {
    /// A counter that has seen no visit.
    pub fn new() -> (counter: VisitCounter)
        ensures
            counter@ == 0,
    {
        VisitCounter { count: 0 }
    }

    /// The visits counted so far.
    pub fn value(&self) -> (count: usize)
        ensures
            count == self@,
    {
        self.count
    }

    /// Counts one visit and returns the new count.
    pub fn increment(&mut self) -> (count: usize)
        requires
            old(self)@ < usize::MAX,
        ensures
            final(self)@ == after_visits(old(self)@, 1),
            count == final(self)@,
    {
        assert(after_visits(self@, 1) == after_visits(self@, 0) + 1);
        self.count += 1;
        self.count
    }
}

/// Visits add up: `n` visits, one at a time, raise the count by `n`.  From
/// zero the count is then `n`.
pub proof fn lemma_visits_add_up(count: nat, n: nat)
    ensures
        after_visits(count, n) == count + n,
        after_visits(0, n) == n,
    decreases n,
{
    if n > 0 {
        lemma_visits_add_up(count, (n - 1) as nat);
        lemma_visits_add_up(0, (n - 1) as nat);
    }
}

/// Visits can be counted in two runs: `m` visits and then `n` more are
/// `m + n` visits.
pub proof fn lemma_visits_compose(count: nat, m: nat, n: nat)
    ensures
        after_visits(after_visits(count, m), n) == after_visits(count, m + n),
{
    lemma_visits_add_up(count, m);
    lemma_visits_add_up(count + m, n);
    lemma_visits_add_up(count, m + n);
}

} // verus!
