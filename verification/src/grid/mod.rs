//! The grid: a fixed topology context plus a double-buffered cell-state
//! array, supporting randomized initialization and generation advance.

pub mod neighbor_strategy;

use vstd::prelude::*;

use rand::Rng;

use crate::model::node::NodeId;
use crate::state_map::{
    state_count, StateMap, StatePool, DEFAULT_NUMBER_OF_DIFFERENT_STATES_EXPECTED,
};
use neighbor_strategy::{spec_neighbors, NeighboringContext, NeighboringStrategy};

verus! {

/// Why a grid operation was refused.
#[derive(Clone, Copy, PartialEq, Eq, Structural, Debug)]
pub enum GridError {
    /// The weighted-state list was empty or every weight was zero.
    InvalidWeights,
}

/// One state with its relative random-initialization weight. Weights are
/// relative and need not sum to any particular value; a zero weight never
/// draws its state.
#[derive(Clone, Copy, PartialEq, Eq, Structural, Debug)]
pub struct StateProbabilty {
    pub state: NodeId,
    pub weight: u32,
}

/// Whether `c` occurs among the states of `cells`.
pub open spec fn appears_in(cells: Seq<NodeId>, c: NodeId) -> bool {
    exists|j: int| 0 <= j < cells.len() && c == cells[j]
}

/// Whether `next` is a value the transition function `f` can return for
/// cell `i` of `cells`, applied to `i`'s freshly rebuilt neighbor
/// histogram. This is the one step of a generation advance: it reads only
/// the prior generation's states.
pub open spec fn advanced_cell<F: Fn(NodeId, &StateMap) -> NodeId>(
    f: F,
    cells: Seq<NodeId>,
    ctx: NeighboringContext,
    i: int,
    next: NodeId,
) -> bool {
    exists|sm: StateMap|
        sm.counts@ == spec_histogram(cells, ctx, i) && call_ensures(f, (cells[i], &sm), next)
}

/// Whether `c` is the state of some positive-weight entry of `probs`.
pub open spec fn drawn_from_positive_weight(probs: Seq<StateProbabilty>, c: NodeId) -> bool {
    exists|k: int| 0 <= k < probs.len() && probs[k].weight > 0 && c == probs[k].state
}

/// The sum of the relative weights of `s`.
pub open spec fn total_weight(s: Seq<StateProbabilty>) -> int
    decreases s.len(),
{
    if s.len() == 0 {
        0
    } else {
        total_weight(s.drop_last()) + s.last().weight
    }
}

proof fn lemma_total_weight_prefix(s: Seq<StateProbabilty>, i: int)
    requires
        0 <= i <= s.len(),
    ensures
        0 <= total_weight(s.take(i)) <= total_weight(s),
    decreases s.len() - i,
{
    if i == s.len() {
        assert(s.take(i) =~= s);
        lemma_total_weight_nonneg(s);
    } else {
        lemma_total_weight_prefix(s, i + 1);
        assert(s.take(i + 1).drop_last() =~= s.take(i));
        assert(s.take(i + 1).last() == s[i]);
        lemma_total_weight_nonneg(s.take(i));
    }
}

proof fn lemma_total_weight_nonneg(s: Seq<StateProbabilty>)
    ensures
        total_weight(s) >= 0,
    decreases s.len(),
{
    if s.len() > 0 {
        lemma_total_weight_nonneg(s.drop_last());
    }
}

/// Relies on rand: `rand::rng()` gives the thread-local generator and
/// `Rng::random_range` over `0..n` returns a uniformly sampled value of that
/// range. The draw is random, so nothing is assumed of the outcome beyond
/// `r < n`; `random_range` refuses an empty range, which the precondition
/// rules out.
#[verifier::external_body]
fn random_below(n: u32) -> (r: u32)
    requires
        n >= 1,
    ensures
        r < n,
{
    rand::rng().random_range(0..n)
}

/// The index of the weight interval that `x` falls into: drawing
/// `x < total_weight` uniformly at random picks each entry with probability
/// proportional to its weight. The picked entry always has positive weight.
fn pick_weighted(state_probabilities: &Vec<StateProbabilty>, x: u32) -> (idx: usize)
    requires
        total_weight(state_probabilities@) <= u32::MAX,
        x < total_weight(state_probabilities@),
    ensures
        idx < state_probabilities@.len(),
        state_probabilities@[idx as int].weight > 0,
{
    let n = state_probabilities.len();
    let mut acc: u32 = 0;
    let mut i: usize = 0;
    while i < n
        invariant
            i <= n,
            n == state_probabilities@.len(),
            total_weight(state_probabilities@) <= u32::MAX,
            x < total_weight(state_probabilities@),
            acc == total_weight(state_probabilities@.take(i as int)),
            acc <= x,
        decreases n - i,
    {
        proof {
            lemma_total_weight_prefix(state_probabilities@, i + 1);
            assert(state_probabilities@.take(i + 1).drop_last() =~= state_probabilities@.take(
                i as int,
            ));
        }
        let w = state_probabilities[i].weight;
        if x - acc < w {
            return i;
        }
        acc = acc + w;
        i += 1;
    }
    proof {
        assert(state_probabilities@.take(n as int) =~= state_probabilities@);
        assert(false);
    }
    0
}

/// A fixed topology-context plus a live cell-state buffer and an equally
/// sized scratch buffer. No wraparound: the topology respects grid edges.
pub struct Grid {
    pub neighbor_ctx: NeighboringContext,
    pub n_cells: usize,
    pub cells: Vec<NodeId>,
    pub next_cells: Vec<NodeId>,
}

impl Grid {
    /// Both buffers hold one state per cell and the row width is positive.
    pub open spec fn wf(&self) -> bool {
        &&& self.cells@.len() == self.n_cells
        &&& self.next_cells@.len() == self.n_cells
        &&& self.neighbor_ctx.cells_per_row >= 1
    }

    /// A grid with every cell in the default state (identifier 0).
    pub fn empty(n_cells: usize, cells_per_row: usize, strategy: NeighboringStrategy) -> (r: Self)
        requires
            cells_per_row >= 1,
        ensures
            r.wf(),
            r.n_cells == n_cells,
            r.neighbor_ctx == (NeighboringContext { cells_per_row, strategy }),
            forall|i: int| 0 <= i < n_cells ==> (#[trigger] r.cells@[i]).0 == 0,
    {
        Self {
            neighbor_ctx: NeighboringContext { cells_per_row, strategy },
            n_cells,
            cells: default_cells(n_cells),
            next_cells: default_cells(n_cells),
        }
    }

    /// Overwrites the live buffer with independent weighted-random draws.
    /// Fails with `InvalidWeights`, leaving the grid unmodified, exactly when
    /// the list is empty or all weights are zero; otherwise every cell gets
    /// the state of some positive-weight entry.
    pub fn randomize(&mut self, state_probabilities: &Vec<StateProbabilty>) -> (r: Result<
        (),
        GridError,
    >)
        requires
            total_weight(state_probabilities@) <= u32::MAX,
        ensures
            final(self).neighbor_ctx == old(self).neighbor_ctx,
            final(self).n_cells == old(self).n_cells,
            final(self).next_cells@ == old(self).next_cells@,
            final(self).cells@.len() == old(self).cells@.len(),
            r is Err <==> (state_probabilities@.len() == 0 || total_weight(state_probabilities@)
                == 0),
            r is Err ==> r == Err::<(), GridError>(GridError::InvalidWeights) && final(self).cells@
                == old(self).cells@,
            r is Ok ==> forall|i: int|
                0 <= i < final(self).cells@.len() ==> drawn_from_positive_weight(
                    state_probabilities@,
                    #[trigger] final(self).cells@[i],
                ),
    {
        let n_probs = state_probabilities.len();
        let mut total: u32 = 0;
        let mut p: usize = 0;
        while p < n_probs
            invariant
                p <= n_probs,
                n_probs == state_probabilities@.len(),
                total_weight(state_probabilities@) <= u32::MAX,
                total == total_weight(state_probabilities@.take(p as int)),
            decreases n_probs - p,
        {
            proof {
                lemma_total_weight_prefix(state_probabilities@, p + 1);
                assert(state_probabilities@.take(p + 1).drop_last() =~= state_probabilities@.take(
                    p as int,
                ));
            }
            total = total + state_probabilities[p].weight;
            p += 1;
        }
        proof {
            assert(state_probabilities@.take(n_probs as int) =~= state_probabilities@);
        }
        if n_probs == 0 || total == 0 {
            return Err(GridError::InvalidWeights);
        }

        let n = self.cells.len();
        let mut i: usize = 0;
        while i < n
            invariant
                i <= n,
                n == self.cells@.len(),
                self.cells@.len() == old(self).cells@.len(),
                self.next_cells@ == old(self).next_cells@,
                self.neighbor_ctx == old(self).neighbor_ctx,
                self.n_cells == old(self).n_cells,
                total_weight(state_probabilities@) <= u32::MAX,
                total == total_weight(state_probabilities@),
                total >= 1,
                forall|t: int|
                    0 <= t < i ==> drawn_from_positive_weight(
                        state_probabilities@,
                        #[trigger] self.cells@[t],
                    ),
            decreases n - i,
        {
            let x = random_below(total);
            let k = pick_weighted(state_probabilities, x);
            self.cells.set(i, state_probabilities[k].state);
            proof {
                assert(drawn_from_positive_weight(state_probabilities@, self.cells@[i as int])) by {
                    assert(0 <= k < state_probabilities@.len()
                        && state_probabilities@[k as int].weight > 0 && self.cells@[i as int]
                        == state_probabilities@[k as int].state);
                }
            }
            i += 1;
        }
        Ok(())
    }

    /// Advances one generation: for every cell index, rebuilds that index's
    /// histogram from the states at its topology-neighbor indices (fully
    /// overwriting the pool slot), computes `f(live[index], histogram)` into
    /// the scratch buffer, and finally swaps the two buffers. Every cell's
    /// next state is computed purely from the prior generation's states.
    pub fn map_cells<F: Fn(NodeId, &StateMap) -> NodeId + Send + Sync>(
        &mut self,
        state_pool: &mut StatePool,
        f: F,
    )
        requires
            old(self).wf(),
            old(state_pool).wf(),
            old(self).n_cells > 0 ==> old(state_pool).0@.len() > 0,
            forall|i: int|
                0 <= i < old(self).cells@.len() ==> (#[trigger] old(self).cells@[i]).0
                    < DEFAULT_NUMBER_OF_DIFFERENT_STATES_EXPECTED,
            forall|c: NodeId, sm: StateMap|
                sm.counts@.len() == DEFAULT_NUMBER_OF_DIFFERENT_STATES_EXPECTED
                    ==> #[trigger] call_requires(f, (c, &sm)),
        ensures
            final(self).wf(),
            final(self).n_cells == old(self).n_cells,
            final(self).neighbor_ctx == old(self).neighbor_ctx,
            final(state_pool).wf(),
            final(state_pool).0@.len() == old(state_pool).0@.len(),
            forall|i: int|
                0 <= i < old(self).cells@.len() ==> advanced_cell(
                    f,
                    old(self).cells@,
                    old(self).neighbor_ctx,
                    i,
                    #[trigger] final(self).cells@[i],
                ),
    {
        let n = self.cells.len();
        let mut i: usize = 0;
        while i < n
            invariant
                i <= n,
                n == self.cells@.len(),
                self.wf(),
                self.cells@ == old(self).cells@,
                self.n_cells == old(self).n_cells,
                self.neighbor_ctx == old(self).neighbor_ctx,
                state_pool.wf(),
                state_pool.0@.len() == old(state_pool).0@.len(),
                n > 0 ==> state_pool.0@.len() > 0,
                forall|t: int|
                    0 <= t < self.cells@.len() ==> (#[trigger] self.cells@[t]).0
                        < DEFAULT_NUMBER_OF_DIFFERENT_STATES_EXPECTED,
                forall|c: NodeId, sm: StateMap|
                    sm.counts@.len() == DEFAULT_NUMBER_OF_DIFFERENT_STATES_EXPECTED
                        ==> #[trigger] call_requires(f, (c, &sm)),
                forall|t: int|
                    0 <= t < i ==> advanced_cell(
                        f,
                        self.cells@,
                        self.neighbor_ctx,
                        t,
                        #[trigger] self.next_cells@[t],
                    ),
            decreases n - i,
        {
            let states = neighbor_states(&self.cells, self.neighbor_ctx, i);
            let pool_len = state_pool.0.len();
            let k = i % pool_len;
            let slot = &mut state_pool.0[k];
            slot.count_states(&states);
            proof {
                assert(slot.counts@ =~= spec_histogram(self.cells@, self.neighbor_ctx, i as int));
            }
            let cell = self.cells[i];
            let next = f(cell, slot);
            self.next_cells.set(i, next);
            proof {
                let sm_val = state_pool.0@[k as int];
                assert(advanced_cell(
                    f,
                    self.cells@,
                    self.neighbor_ctx,
                    i as int,
                    self.next_cells@[i as int],
                )) by {
                    assert(sm_val.counts@ == spec_histogram(
                        self.cells@,
                        self.neighbor_ctx,
                        i as int,
                    ));
                    assert(call_ensures(f, (cell, &sm_val), next));
                }
            }
            i += 1;
        }
        core::mem::swap(&mut self.cells, &mut self.next_cells);
    }

    /// The total number of cells.
    #[inline]
    pub fn n_cells(&self) -> (r: usize)
        ensures
            r == self.n_cells,
    {
        self.n_cells
    }

    /// The number of rows: the cell count divided by the row width, rounded
    /// up.
    #[inline]
    pub fn n_rows(&self) -> (r: usize)
        requires
            self.neighbor_ctx.cells_per_row >= 1,
        ensures
            r == (self.n_cells + self.neighbor_ctx.cells_per_row - 1) as int
                / self.neighbor_ctx.cells_per_row as int,
    {
        if self.n_cells == 0 {
            proof {
                vstd::arithmetic::div_mod::lemma_basic_div_specific_divisor(
                    self.neighbor_ctx.cells_per_row as int,
                );
            }
            0
        } else {
            proof {
                vstd::arithmetic::div_mod::lemma_div_plus_one(
                    self.n_cells - 1,
                    self.neighbor_ctx.cells_per_row as int,
                );
            }
            (self.n_cells - 1) / self.neighbor_ctx.cells_per_row + 1
        }
    }

    /// The row width.
    #[inline]
    pub fn cells_per_row(&self) -> (r: usize)
        ensures
            r == self.neighbor_ctx.cells_per_row,
    {
        self.neighbor_ctx.cells_per_row
    }

    /// A read-only view of the live cells.
    #[inline]
    pub fn cells(&self) -> (r: &[NodeId])
        ensures
            r@ == self.cells@,
    {
        self.cells.as_slice()
    }
}

/// The states at the neighbor indices of `index`, in the topology's
/// candidate order.
pub open spec fn spec_neighbor_states(
    cells: Seq<NodeId>,
    ctx: NeighboringContext,
    index: int,
) -> Seq<NodeId> {
    spec_neighbors(ctx, cells.len() as int, index).map_values(|j: int| cells[j])
}

/// The neighbor histogram of `index`: for each state identifier within the
/// default capacity, how many of the cell's neighbors hold that state.
pub open spec fn spec_histogram(cells: Seq<NodeId>, ctx: NeighboringContext, index: int) -> Seq<
    u8,
> {
    Seq::new(
        DEFAULT_NUMBER_OF_DIFFERENT_STATES_EXPECTED as nat,
        |id: int| state_count(spec_neighbor_states(cells, ctx, index), id) as u8,
    )
}

/// Gathers the current states at the neighbor indices of `index`.
fn neighbor_states(cells: &Vec<NodeId>, ctx: NeighboringContext, index: usize) -> (r: Vec<NodeId>)
    requires
        ctx.cells_per_row >= 1,
        index < cells@.len(),
    ensures
        r@ == spec_neighbor_states(cells@, ctx, index as int),
        r@.len() <= 8,
        forall|t: int| 0 <= t < r@.len() ==> appears_in(cells@, #[trigger] r@[t]),
{
    let idxs = ctx.get_neighbors(index, cells.len());
    let ghost spec_idxs = spec_neighbors(ctx, cells@.len() as int, index as int);
    let mut r: Vec<NodeId> = Vec::new();
    let n = idxs.len();
    let mut t: usize = 0;
    while t < n
        invariant
            t <= n,
            n == idxs@.len(),
            idxs@.map_values(|x: usize| x as int) == spec_idxs,
            forall|k: int| 0 <= k < idxs@.len() ==> idxs@[k] < cells@.len(),
            r@.len() == t,
            forall|u: int| 0 <= u < t ==> r@[u] == cells@[spec_idxs[u]],
        decreases n - t,
    {
        proof {
            assert(idxs@.map_values(|x: usize| x as int)[t as int] == spec_idxs[t as int]);
        }
        r.push(cells[idxs[t]]);
        t += 1;
    }
    proof {
        assert(r@ =~= spec_neighbor_states(cells@, ctx, index as int));
        assert forall|u: int| 0 <= u < r@.len() implies appears_in(
            cells@,
            #[trigger] r@[u],
        ) by {
            assert(idxs@.map_values(|x: usize| x as int)[u] == spec_idxs[u]);
            assert(0 <= spec_idxs[u] < cells@.len());
            assert(r@[u] == cells@[spec_idxs[u]]);
        }
    }
    r
}

/// One default state (identifier 0) per cell.
fn default_cells(n_cells: usize) -> (r: Vec<NodeId>)
    ensures
        r@.len() == n_cells,
        forall|i: int| 0 <= i < n_cells ==> (#[trigger] r@[i]).0 == 0,
{
    let mut cells: Vec<NodeId> = Vec::new();
    let mut i: usize = 0;
    while i < n_cells
        invariant
            i <= n_cells,
            cells@.len() == i,
            forall|t: int| 0 <= t < i ==> (#[trigger] cells@[t]).0 == 0,
        decreases n_cells - i,
    {
        cells.push(NodeId(0));
        i += 1;
    }
    cells
}

} // verus!
