use vstd::prelude::*;

use crate::worker::{Worker, WorkersList};

verus! {

/// The position of the last selection.
#[derive(Debug, Default, Clone, Copy)]
pub struct Index {
    pub n: usize,
}

impl Index {
    pub fn set(&mut self, n: usize)
        ensures
            final(self).n == n,
    {
        self.n = n;
    }
}

/// How the next worker is chosen.
#[derive(Debug, Clone, Copy, PartialEq, Eq, Structural)]
pub enum WorkerSelectionStrategy {
    /// Each selection takes the worker after the previous one, wrapping around.
    RoundRobin,
}

/// The cursor that round-robin selection moves to from `cursor`, over `len` workers.
pub open spec fn round_robin_next(cursor: int, len: int) -> int {
    (cursor + 1) % len
}

/// The cursor after `k` round-robin selections from `cursor`, over `len` workers.
pub open spec fn round_robin_after(cursor: int, len: int, k: nat) -> int
    decreases k,
{
    if k == 0 {
        cursor
    } else {
        round_robin_next(round_robin_after(cursor, len, (k - 1) as nat), len)
    }
}

/// The next cursor is the successor of the current one, reduced below `len`.
proof fn lemma_round_robin_next(cursor: int, len: int)
    requires
        cursor >= 0,
        len > 0,
    ensures
        cursor % len + 1 == len ==> round_robin_next(cursor, len) == 0,
        cursor % len + 1 != len ==> round_robin_next(cursor, len) == cursor % len + 1,
{
    vstd::arithmetic::div_mod::lemma_add_mod_noop(cursor, 1, len);
    vstd::arithmetic::div_mod::lemma_mod_bound(cursor, len);
    if len == 1 {
        vstd::arithmetic::div_mod::lemma_mod_self_0(1);
        assert((cursor + 1) % 1 == 0) by (nonlinear_arith);
    } else {
        vstd::arithmetic::div_mod::lemma_small_mod(1, len as nat);
        if cursor % len + 1 == len {
            vstd::arithmetic::div_mod::lemma_mod_self_0(len);
        } else {
            vstd::arithmetic::div_mod::lemma_small_mod((cursor % len + 1) as nat, len as nat);
        }
    }
}

/// Whether one of the first `n` round-robin selections from `cursor` lands on `k`.
pub open spec fn visited_within(cursor: int, len: int, k: int, n: nat) -> bool {
    exists|i: nat| 1 <= i <= n && #[trigger] round_robin_after(cursor, len, i) == k
}

proof fn lemma_round_robin_after_closed(cursor: int, len: int, i: nat)
    requires
        cursor >= 0,
        len > 0,
        i >= 1,
    ensures
        round_robin_after(cursor, len, i) == (cursor + i) % len,
    decreases i,
{
    if i > 1 {
        lemma_round_robin_after_closed(cursor, len, (i - 1) as nat);
        let prev = cursor + i - 1;
        vstd::arithmetic::div_mod::lemma_add_mod_noop(prev, 1, len);
        vstd::arithmetic::div_mod::lemma_mod_bound(prev, len);
        vstd::arithmetic::div_mod::lemma_mod_bound(prev % len + 1, len);
        vstd::arithmetic::div_mod::lemma_mod_bound(prev + 1, len);
        if len > 1 {
            vstd::arithmetic::div_mod::lemma_small_mod(1, len as nat);
        } else {
            vstd::arithmetic::div_mod::lemma_mod_bound(1, len);
        }
        assert(round_robin_after(cursor, len, i) == round_robin_next(prev % len, len));
    } else {
        assert(round_robin_after(cursor, len, 0) == cursor);
    }
}

proof fn lemma_shifted_mod(cursor: int, len: int, i: int)
    requires
        cursor >= 0,
        len > 0,
        1 <= i <= len,
    ensures
        cursor % len + i < len ==> (cursor + i) % len == cursor % len + i,
        cursor % len + i >= len ==> (cursor + i) % len == cursor % len + i - len,
{
    let q = cursor / len;
    let r = cursor % len;
    vstd::arithmetic::div_mod::lemma_fundamental_div_mod(cursor, len);
    vstd::arithmetic::div_mod::lemma_mod_bound(cursor, len);
    if r + i < len {
        vstd::arithmetic::div_mod::lemma_mod_multiples_vanish(q, r + i, len);
        vstd::arithmetic::div_mod::lemma_small_mod((r + i) as nat, len as nat);
    } else {
        assert(len * (q + 1) == len * q + len) by (nonlinear_arith);
        vstd::arithmetic::div_mod::lemma_mod_multiples_vanish(q + 1, r + i - len, len);
        vstd::arithmetic::div_mod::lemma_small_mod((r + i - len) as nat, len as nat);
    }
}

/// Round-robin fairness: over a registry of `len` workers, the `len` selections
/// that follow any cursor land on pairwise different positions, and every
/// position is among them. The positions depend on the cursor alone.
pub proof fn lemma_round_robin_fair(cursor: int, len: int)
    requires
        cursor >= 0,
        len > 0,
    ensures
        forall|i: nat| 1 <= i <= len ==> 0 <= #[trigger] round_robin_after(cursor, len, i) < len,
        forall|i: nat, j: nat|
            1 <= i < j <= len ==> #[trigger] round_robin_after(cursor, len, i)
                != #[trigger] round_robin_after(cursor, len, j),
        forall|k: int| 0 <= k < len ==> #[trigger] visited_within(cursor, len, k, len as nat),
{
    vstd::arithmetic::div_mod::lemma_mod_bound(cursor, len);
    let r = cursor % len;
    assert forall|i: nat| 1 <= i <= len implies 0 <= #[trigger] round_robin_after(cursor, len, i) < len by {
        lemma_round_robin_after_closed(cursor, len, i);
        lemma_shifted_mod(cursor, len, i as int);
    }
    assert forall|i: nat, j: nat|
        1 <= i < j <= len implies #[trigger] round_robin_after(cursor, len, i)
            != #[trigger] round_robin_after(cursor, len, j) by {
        lemma_round_robin_after_closed(cursor, len, i);
        lemma_shifted_mod(cursor, len, i as int);
        lemma_round_robin_after_closed(cursor, len, j);
        lemma_shifted_mod(cursor, len, j as int);
    }
    assert forall|k: int| 0 <= k < len implies #[trigger] visited_within(cursor, len, k, len as nat) by {
        let i: nat = if k > r { (k - r) as nat } else { (k + len - r) as nat };
        lemma_round_robin_after_closed(cursor, len, i);
        lemma_shifted_mod(cursor, len, i as int);
        assert(round_robin_after(cursor, len, i) == k);
    }
}

/// Round-robin fairness over a run of selections: when each cursor of
/// `cursors` is the round-robin successor of the one before, as successive
/// calls of `select_next_worker` on a registry of `len` workers leave it, the
/// `len` cursors after the first are pairwise different and take every
/// position of the registry.
pub proof fn lemma_selections_visit_each_once(cursors: Seq<int>, len: int)
    requires
        len > 0,
        cursors.len() == len + 1,
        cursors[0] >= 0,
        forall|i: int| 0 <= i < len ==> #[trigger] cursors[i + 1] == round_robin_next(cursors[i], len),
    ensures
        forall|i: int| 1 <= i <= len ==> 0 <= #[trigger] cursors[i] < len,
        forall|i: int, j: int| 1 <= i < j <= len ==> #[trigger] cursors[i] != #[trigger] cursors[j],
        forall|k: int| 0 <= k < len ==> #[trigger] cursors.subrange(1, len + 1).contains(k),
{
    assert forall|i: int| 0 <= i <= len implies #[trigger] cursors[i] == round_robin_after(cursors[0], len, i as nat) by {
        lemma_cursors_follow(cursors, len, i);
    }
    lemma_round_robin_fair(cursors[0], len);
    assert forall|i: int, j: int| 1 <= i < j <= len implies #[trigger] cursors[i] != #[trigger] cursors[j] by {
        assert(round_robin_after(cursors[0], len, i as nat) != round_robin_after(cursors[0], len, j as nat));
    }
    assert forall|i: int| 1 <= i <= len implies 0 <= #[trigger] cursors[i] < len by {
        assert(0 <= round_robin_after(cursors[0], len, i as nat) < len);
    }
    assert forall|k: int| 0 <= k < len implies #[trigger] cursors.subrange(1, len + 1).contains(k) by {
        assert(visited_within(cursors[0], len, k, len as nat));
        let n = choose|n: nat| 1 <= n <= len && #[trigger] round_robin_after(cursors[0], len, n) == k;
        assert(cursors[n as int] == k);
        assert(cursors.subrange(1, len + 1)[n - 1] == k);
    }
}

proof fn lemma_cursors_follow(cursors: Seq<int>, len: int, i: int)
    requires
        len > 0,
        cursors.len() == len + 1,
        forall|j: int| 0 <= j < len ==> #[trigger] cursors[j + 1] == round_robin_next(cursors[j], len),
        0 <= i <= len,
    ensures
        cursors[i] == round_robin_after(cursors[0], len, i as nat),
    decreases i,
{
    if i > 0 {
        lemma_cursors_follow(cursors, len, i - 1);
        assert(cursors[(i - 1) + 1] == round_robin_next(cursors[i - 1], len));
    }
}

/// Picks workers from a registry, remembering where it stopped.
#[derive(Debug)]
pub struct NextWorkerSelector {
    index: Index,
    selection_strategy: WorkerSelectionStrategy,
}

impl NextWorkerSelector {
    pub closed spec fn cursor(&self) -> int {
        self.index.n as int
    }

    pub closed spec fn strategy(&self) -> WorkerSelectionStrategy {
        self.selection_strategy
    }

    /// A round-robin selector whose cursor stands at 0.
    pub fn new() -> (r: NextWorkerSelector)
        ensures
            r.cursor() == 0,
            r.strategy() == WorkerSelectionStrategy::RoundRobin,
    {
        NextWorkerSelector { index: Index { n: 0 }, selection_strategy: WorkerSelectionStrategy::RoundRobin }
    }

    /// Replaces the strategy from the next selection on; the cursor stays.
    pub fn set_strategy(&mut self, strategy: WorkerSelectionStrategy)
        ensures
            final(self).strategy() == strategy,
            final(self).cursor() == old(self).cursor(),
    {
        self.selection_strategy = strategy;
    }

    /// The next worker of `workers_list`, or `None` when it is empty. Round robin
    /// first advances the cursor, then takes the worker under it.
    pub fn select_next_worker<'a>(&mut self, workers_list: &'a WorkersList) -> (r: Option<&'a Worker>)
        ensures
            final(self).strategy() == old(self).strategy(),
            workers_list@.len() == 0 ==> r is None && final(self).cursor() == old(self).cursor(),
            workers_list@.len() > 0 ==> {
                &&& final(self).cursor() == round_robin_next(old(self).cursor(), workers_list@.len() as int)
                &&& 0 <= final(self).cursor() < workers_list@.len()
                &&& r matches Some(w) && w@ == workers_list@[final(self).cursor()]
            },
    {
        match self.selection_strategy {
            WorkerSelectionStrategy::RoundRobin => self.select_round_robin(workers_list),
        }
    }

    fn select_round_robin<'a>(&mut self, workers_list: &'a WorkersList) -> (r: Option<&'a Worker>)
        ensures
            final(self).strategy() == old(self).strategy(),
            workers_list@.len() == 0 ==> r is None && final(self).cursor() == old(self).cursor(),
            workers_list@.len() > 0 ==> {
                &&& final(self).cursor() == round_robin_next(old(self).cursor(), workers_list@.len() as int)
                &&& 0 <= final(self).cursor() < workers_list@.len()
                &&& r matches Some(w) && w@ == workers_list@[final(self).cursor()]
            },
    {
        let len = workers_list.len();
        if len == 0 {
            return None;
        }
        let cur: usize = self.index.n % len;
        let next_index: usize = if cur + 1 == len { 0 } else { cur + 1 };
        proof {
            lemma_round_robin_next(self.index.n as int, len as int);
        }
        self.index.set(next_index);
        workers_list.get(next_index)
    }
}

} // verus!
