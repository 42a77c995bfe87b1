//! The simulation orchestrator: owns a rule model, a grid and a histogram
//! pool, and advances the whole grid by exactly one generation per step.

use vstd::prelude::*;

use crate::grid::{advanced_cell, spec_histogram, Grid};
use crate::model::{
    lemma_next_state_within, model_fits, model_ids_within, spec_next_state, Model, NodeId,
};
use crate::state_map::{StateMap, StatePool, DEFAULT_NUMBER_OF_DIFFERENT_STATES_EXPECTED};

verus! {

/// A rule model, a grid, and one pre-allocated histogram per cell.
pub struct SimulationContext {
    pub model: Model,
    pub grid: Grid,
    pub state_pool: StatePool,
}

impl SimulationContext {
    /// The grid is well-formed, the pool has one usable slot per cell, and
    /// every state on the grid and in the rules resolves within the
    /// histogram capacity.
    pub open spec fn wf(&self) -> bool {
        &&& self.grid.wf()
        &&& self.state_pool.wf()
        &&& self.state_pool.0@.len() == self.grid.n_cells
        &&& model_fits(self.model.edges@, DEFAULT_NUMBER_OF_DIFFERENT_STATES_EXPECTED as int)
        &&& model_ids_within(self.model.edges@, DEFAULT_NUMBER_OF_DIFFERENT_STATES_EXPECTED as int)
        &&& forall|i: int|
            0 <= i < self.grid.cells@.len() ==> (#[trigger] self.grid.cells@[i]).0
                < DEFAULT_NUMBER_OF_DIFFERENT_STATES_EXPECTED
    }

    pub fn new(model: Model, grid: Grid) -> (r: Self)
        requires
            grid.wf(),
            model_fits(model.edges@, DEFAULT_NUMBER_OF_DIFFERENT_STATES_EXPECTED as int),
            model_ids_within(model.edges@, DEFAULT_NUMBER_OF_DIFFERENT_STATES_EXPECTED as int),
            forall|i: int|
                0 <= i < grid.cells@.len() ==> (#[trigger] grid.cells@[i]).0
                    < DEFAULT_NUMBER_OF_DIFFERENT_STATES_EXPECTED,
        ensures
            r.wf(),
            r.model == model,
            r.grid == grid,
    {
        Self { state_pool: StatePool::new(&grid), model, grid }
    }

    /// Advances the whole simulation by exactly one generation: every
    /// cell's next state is the rule model's answer for that cell's prior
    /// state and its prior-generation neighbor histogram. No cell ever
    /// observes another cell's already-updated state from the same step.
    pub fn step(&mut self)
        requires
            old(self).wf(),
        ensures
            final(self).wf(),
            final(self).model == old(self).model,
            final(self).grid.n_cells == old(self).grid.n_cells,
            final(self).grid.neighbor_ctx == old(self).grid.neighbor_ctx,
            final(self).grid.cells@.len() == old(self).grid.cells@.len(),
            forall|i: int|
                0 <= i < old(self).grid.cells@.len() ==> #[trigger] final(self).grid.cells@[i]
                    == spec_next_state(
                    old(self).model.edges@,
                    old(self).grid.cells@[i],
                    spec_histogram(old(self).grid.cells@, old(self).grid.neighbor_ctx, i),
                ),
    {
        let model_ref = &self.model;
        let transition = |curr_state: NodeId, state_map: &StateMap| -> (next: NodeId)
            requires
                model_fits(model_ref.edges@, state_map.counts@.len() as int),
            ensures
                next == spec_next_state(model_ref.edges@, curr_state, state_map.counts@),
            { model_ref.next_state(curr_state, state_map) };
        let ghost old_cells = self.grid.cells@;
        let ghost ctx = self.grid.neighbor_ctx;
        self.grid.map_cells(&mut self.state_pool, transition);
        proof {
            assert forall|i: int| 0 <= i < old(self).grid.cells@.len() implies #[trigger] self
                .grid
                .cells@[i] == spec_next_state(
                old(self).model.edges@,
                old(self).grid.cells@[i],
                spec_histogram(old_cells, ctx, i),
            ) by {
                assert(advanced_cell(transition, old_cells, ctx, i, self.grid.cells@[i]));
                let sm = choose|sm: StateMap|
                    sm.counts@ == spec_histogram(old_cells, ctx, i) && call_ensures(
                        transition,
                        (old_cells[i], &sm),
                        self.grid.cells@[i],
                    );
            }
            assert forall|i: int|
                0 <= i < self.grid.cells@.len() implies (#[trigger] self.grid.cells@[i]).0
                    < DEFAULT_NUMBER_OF_DIFFERENT_STATES_EXPECTED by {
                assert(self.grid.cells@[i] == spec_next_state(
                    old(self).model.edges@,
                    old(self).grid.cells@[i],
                    spec_histogram(old_cells, ctx, i),
                ));
                lemma_next_state_within(
                    old(self).model.edges@,
                    old(self).grid.cells@[i],
                    spec_histogram(old_cells, ctx, i),
                    DEFAULT_NUMBER_OF_DIFFERENT_STATES_EXPECTED as int,
                );
            }
        }
    }
}

} // verus!

