//! Per-cell neighbor histograms: a fixed-capacity array of per-state counts,
//! rebuilt from scratch for every cell on every generation, plus a pool that
//! pre-allocates one histogram per cell index.

use vstd::prelude::*;

use crate::grid::Grid;
use crate::model::node::NodeId;

verus! {

/// Default histogram capacity: the number of distinct state identifiers a
/// histogram can count. The capacity must exceed the highest state identifier
/// ever resolved into the histogram; that is an invariant the caller upholds.
pub const DEFAULT_NUMBER_OF_DIFFERENT_STATES_EXPECTED: usize = 64;

/// How many neighbors of `states` are in state `id`.
pub open spec fn state_count(states: Seq<NodeId>, id: int) -> nat
    decreases states.len(),
{
    if states.len() == 0 {
        0
    } else {
        state_count(states.drop_last(), id) + if states.last().0 == id {
            1nat
        } else {
            0nat
        }
    }
}

proof fn lemma_state_count_le_len(states: Seq<NodeId>, id: int)
    ensures
        state_count(states, id) <= states.len(),
    decreases states.len(),
{
    if states.len() > 0 {
        lemma_state_count_le_len(states.drop_last(), id);
    }
}

proof fn lemma_state_count_step(states: Seq<NodeId>, k: int, id: int)
    requires
        0 <= k < states.len(),
    ensures
        state_count(states.take(k + 1), id) == state_count(states.take(k), id) + if states[k].0
            == id {
            1nat
        } else {
            0nat
        },
{
    assert(states.take(k + 1).drop_last() =~= states.take(k));
    assert(states.take(k + 1).last() == states[k]);
}

/// One reusable histogram: `counts[id]` is the number of neighbors whose
/// state identifier is `id`. Counters are byte-sized; callers keep the
/// number of counted neighbors within a byte's range.
pub struct StateMap {
    pub counts: Vec<u8>,
}

impl StateMap {
    /// A histogram is usable when it was allocated at the default capacity.
    pub open spec fn wf(&self) -> bool {
        self.counts@.len() == DEFAULT_NUMBER_OF_DIFFERENT_STATES_EXPECTED
    }

    pub fn new() -> (r: Self)
        ensures
            r.wf(),
            forall|id: int| 0 <= id < r.counts@.len() ==> r.counts@[id] == 0,
    {
        let mut counts: Vec<u8> = Vec::new();
        let mut i: usize = 0;
        while i < DEFAULT_NUMBER_OF_DIFFERENT_STATES_EXPECTED
            invariant
                i <= DEFAULT_NUMBER_OF_DIFFERENT_STATES_EXPECTED,
                counts@.len() == i,
                forall|id: int| 0 <= id < i ==> counts@[id] == 0,
            decreases DEFAULT_NUMBER_OF_DIFFERENT_STATES_EXPECTED - i,
        {
            counts.push(0);
            i += 1;
        }
        Self { counts }
    }

    /// Clears every counter to zero, then increments the counter at each
    /// neighbor's state identifier.
    pub fn count_states(&mut self, states: &Vec<NodeId>)
        requires
            states@.len() <= u8::MAX,
            forall|i: int|
                0 <= i < states@.len() ==> (#[trigger] states@[i]).0 < old(self).counts@.len(),
        ensures
            final(self).counts@.len() == old(self).counts@.len(),
            forall|id: int|
                0 <= id < final(self).counts@.len() ==> final(self).counts@[id] == state_count(
                    states@,
                    id,
                ),
    {
        let cap = self.counts.len();
        let mut i: usize = 0;
        while i < cap
            invariant
                i <= cap,
                self.counts@.len() == cap,
                forall|id: int| 0 <= id < i ==> self.counts@[id] == 0,
            decreases cap - i,
        {
            self.counts.set(i, 0);
            i += 1;
        }
        assert(forall|id: int| 0 <= id < cap ==> self.counts@[id] == state_count(states@.take(0), id));
        let mut j: usize = 0;
        while j < states.len()
            invariant
                j <= states@.len(),
                states@.len() <= u8::MAX,
                self.counts@.len() == cap,
                forall|i: int|
                    0 <= i < states@.len() ==> (#[trigger] states@[i]).0 < cap,
                forall|id: int|
                    0 <= id < cap ==> self.counts@[id] == state_count(states@.take(j as int), id),
            decreases states@.len() - j,
        {
            let idx = states[j].0;
            proof {
                lemma_state_count_le_len(states@.take(j as int), idx as int);
                assert forall|id: int| 0 <= id < cap implies state_count(
                    states@.take(j + 1),
                    id,
                ) == state_count(states@.take(j as int), id) + if states@[j as int].0 == id {
                    1nat
                } else {
                    0nat
                } by {
                    lemma_state_count_step(states@, j as int, id);
                }
            }
            let c = self.counts[idx];
            self.counts.set(idx, c + 1);
            j += 1;
        }
        proof {
            assert(states@.take(states@.len() as int) =~= states@);
        }
    }

    /// The count for one state identifier. Asking for an identifier at or
    /// beyond the configured capacity is an invariant violation, which the
    /// precondition rules out.
    #[inline]
    pub fn get_count(&self, state: NodeId) -> (r: u8)
        requires
            state.0 < self.counts@.len(),
        ensures
            r == self.counts@[state.0 as int],
    {
        self.counts[state.0]
    }
}

/// One pre-allocated histogram per cell index, so a generation advance
/// never allocates. When the pool's size diverges from the grid's cell
/// count, slot lookup wraps by modulus.
pub struct StatePool(pub Vec<StateMap>);

impl StatePool {
    /// Every slot is usable.
    pub open spec fn wf(&self) -> bool {
        forall|i: int| 0 <= i < self.0@.len() ==> (#[trigger] self.0@[i]).wf()
    }

    /// One histogram per cell of `grid`.
    pub fn new(grid: &Grid) -> (r: Self)
        ensures
            r.0@.len() == grid.n_cells,
            r.wf(),
    {
        let n_cells = grid.n_cells();
        let mut state_pool: Vec<StateMap> = Vec::new();
        let mut i: usize = 0;
        while i < n_cells
            invariant
                i <= n_cells,
                state_pool@.len() == i,
                forall|t: int| 0 <= t < i ==> (#[trigger] state_pool@[t]).wf(),
            decreases n_cells - i,
        {
            state_pool.push(StateMap::new());
            i += 1;
        }
        Self(state_pool)
    }

    /// The slot for cell `idx`; lookup wraps by modulus when the pool's
    /// size diverges from the grid's cell count.
    pub fn get(&self, idx: usize) -> (r: &StateMap)
        requires
            self.0@.len() > 0,
        ensures
            *r == self.0@[idx as int % self.0@.len() as int],
    {
        let idx = idx % self.0.len();
        &self.0[idx]
    }
}

impl Default for StateMap {
    fn default() -> (r: Self)
        ensures
            r.wf(),
            forall|id: int| 0 <= id < r.counts@.len() ==> r.counts@[id] == 0,
    {
        Self::new()
    }
}

} // verus!
