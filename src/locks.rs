//! The documented lock order of the shared state, and why taking locks in
//! that order cannot deadlock.
use vstd::prelude::*;

verus! {

/// The locks that guard the engine's shared maps.
#[derive(Clone, Copy, Debug, PartialEq, Eq, Structural)]
pub enum LockId {
    StatusRegistry,
    SystemHandler,
    ClientHandler,
    Ledger,
    PortalMap,
}

/// The place of a lock in the acquisition order.
pub open spec fn rank(l: LockId) -> nat {
    match l {
        LockId::StatusRegistry => 0,
        LockId::SystemHandler => 1,
        LockId::ClientHandler => 2,
        LockId::Ledger => 3,
        LockId::PortalMap => 4,
    }
}

/// Computes `rank`.
pub fn lock_rank(l: LockId) -> (r: u8)
    ensures
        r as nat == rank(l),
{
    match l {
        LockId::StatusRegistry => 0,
        LockId::SystemHandler => 1,
        LockId::ClientHandler => 2,
        LockId::Ledger => 3,
        LockId::PortalMap => 4,
    }
}

/// Every held lock comes before `next` in the order.
pub open spec fn may_take(held: Seq<LockId>, next: LockId) -> bool {
    forall|i: int| 0 <= i < held.len() ==> rank(#[trigger] held[i]) < rank(next)
}

/// The locks a task holds, taken in the documented order.
pub struct LockSet {
    pub held: Vec<LockId>,
}

impl LockSet {
    /// Held locks strictly follow the order.
    pub open spec fn wf(&self) -> bool {
        forall|i: int, j: int| 0 <= i < j < self.held@.len() ==> rank(#[trigger] self.held@[i]) < rank(#[trigger] self.held@[j])
    }

    /// No lock held.
    pub fn new() -> (r: LockSet)
        ensures
            r.wf(),
            r.held@.len() == 0,
    {
        LockSet { held: Vec::new() }
    }

    /// Whether `next` may be taken now.
    pub fn may_acquire(&self, next: LockId) -> (r: bool)
        ensures
            r == may_take(self.held@, next),
    {
        let want = lock_rank(next);
        let mut i: usize = 0;
        while i < self.held.len()
            invariant
                i <= self.held@.len(),
                want as nat == rank(next),
                forall|j: int| 0 <= j < i ==> rank(#[trigger] self.held@[j]) < rank(next),
            decreases self.held.len() - i,
        {
            if lock_rank(self.held[i]) >= want {
                return false;
            }
            i = i + 1;
        }
        true
    }

    /// Takes `next` when the order allows it; returns whether it did.
    pub fn acquire(&mut self, next: LockId) -> (r: bool)
        requires
            old(self).wf(),
        ensures
            final(self).wf(),
            r == may_take(old(self).held@, next),
            r ==> final(self).held@ == old(self).held@.push(next),
            !r ==> final(self).held@ == old(self).held@,
    {
        if self.may_acquire(next) {
            self.held.push(next);
            true
        } else {
            false
        }
    }

    /// Releases every lock, innermost first.
    pub fn release_all(&mut self)
        ensures
            final(self).wf(),
            final(self).held@.len() == 0,
    {
        self.held.clear();
    }
}

/// Two tasks that each take locks in the documented order cannot wait on
/// each other: when each waits for a lock that comes after all it holds,
/// neither holds the lock the other waits for, both ways at once.
pub proof fn lemma_ordered_tasks_cannot_deadlock(
    held_a: Seq<LockId>,
    want_a: LockId,
    held_b: Seq<LockId>,
    want_b: LockId,
)
    requires
        may_take(held_a, want_a),
        may_take(held_b, want_b),
    ensures
        !(held_a.contains(want_b) && held_b.contains(want_a)),
{
    if held_a.contains(want_b) && held_b.contains(want_a) {
        let i = choose|i: int| 0 <= i < held_a.len() && held_a[i] == want_b;
        let j = choose|j: int| 0 <= j < held_b.len() && held_b[j] == want_a;
        assert(rank(held_a[i]) < rank(want_a));
        assert(rank(held_b[j]) < rank(want_b));
    }
}

/// More generally, no ring of tasks that take locks in order can wait on
/// one another: if task `k` waits for a lock that task `k + 1` holds, for
/// every task of the ring, the ranks of the awaited locks would have to
/// rise all the way round.
pub proof fn lemma_no_wait_cycle(helds: Seq<Seq<LockId>>, wants: Seq<LockId>)
    requires
        helds.len() == wants.len(),
        helds.len() > 0,
        forall|k: int| 0 <= k < helds.len() ==> may_take(#[trigger] helds[k], wants[k]),
    ensures
        !(forall|k: int| 0 <= k < helds.len() ==> #[trigger] helds[(k + 1) % (helds.len() as int)].contains(wants[k])),
{
    let n = helds.len() as int;
    if forall|k: int| 0 <= k < n ==> #[trigger] helds[(k + 1) % n].contains(wants[k]) {
        // rank(wants[k]) < rank(wants[k + 1]) for every k, which cannot close a ring
        assert forall|k: int| 0 <= k < n implies rank(#[trigger] wants[k]) < rank(wants[(k + 1) % n]) by {
            assert(helds[(k + 1) % n].contains(wants[k]));
            let h = helds[(k + 1) % n];
            let x = choose|x: int| 0 <= x < h.len() && h[x] == wants[k];
            assert(0 <= (k + 1) % n < n);
            assert(may_take(helds[(k + 1) % n], wants[(k + 1) % n]));
            assert(rank(h[x]) < rank(wants[(k + 1) % n]));
        }
        assert forall|m: int| 0 <= m < n implies rank(wants[0]) + m <= rank(#[trigger] wants[m]) by {
            lemma_rank_rises(wants, n, m);
        }
        assert(rank(wants[0]) + (n - 1) <= rank(wants[n - 1]));
        assert((n - 1 + 1) % n == 0);
        assert(rank(wants[n - 1]) < rank(wants[0]));
    }
}

proof fn lemma_rank_rises(wants: Seq<LockId>, n: int, m: int)
    requires
        wants.len() == n,
        0 <= m < n,
        forall|k: int| 0 <= k < n ==> rank(#[trigger] wants[k]) < rank(wants[(k + 1) % n]),
    ensures
        rank(wants[0]) + m <= rank(wants[m]),
    decreases m,
{
    if m > 0 {
        lemma_rank_rises(wants, n, m - 1);
        assert(rank(wants[m - 1]) < rank(wants[(m - 1 + 1) % n]));
        assert((m - 1 + 1) % n == m);
    }
}

} // verus!
