//! Grid storage, randomized initialization, and the histogram scratch pool.

use libca::grid::neighbor_strategy::NeighboringStrategy;
use libca::grid::{Grid, GridError, StateProbabilty};
use libca::state_map::{StateMap, StatePool};
use libca::NodeId;

#[test]
fn empty_grid_starts_in_default_state() {
    let grid = Grid::empty(12, 4, NeighboringStrategy::SquareAndCorners);
    assert_eq!(grid.n_cells(), 12);
    assert_eq!(grid.cells_per_row(), 4);
    assert_eq!(grid.n_rows(), 3);
    assert_eq!(grid.cells().len(), 12);
    assert!(grid.cells().iter().all(|c| c.as_index() == 0));
}

#[test]
fn n_rows_rounds_up() {
    assert_eq!(Grid::empty(0, 4, NeighboringStrategy::Square).n_rows(), 0);
    assert_eq!(Grid::empty(7, 4, NeighboringStrategy::Square).n_rows(), 2);
    assert_eq!(Grid::empty(8, 4, NeighboringStrategy::Square).n_rows(), 2);
    assert_eq!(Grid::empty(9, 4, NeighboringStrategy::Square).n_rows(), 3);
}

#[test]
fn randomize_rejects_empty_weights() {
    let mut grid = Grid::empty(4, 2, NeighboringStrategy::SquareAndCorners);
    let r = grid.randomize(&Vec::new());
    assert_eq!(r, Err(GridError::InvalidWeights));
    assert!(grid.cells().iter().all(|c| c.as_index() == 0));
}

#[test]
fn randomize_rejects_all_zero_weights() {
    let mut grid = Grid::empty(4, 2, NeighboringStrategy::SquareAndCorners);
    let probs = vec![
        StateProbabilty { state: NodeId::from_index(1), weight: 0 },
        StateProbabilty { state: NodeId::from_index(2), weight: 0 },
    ];
    let r = grid.randomize(&probs);
    assert_eq!(r, Err(GridError::InvalidWeights));
    assert!(grid.cells().iter().all(|c| c.as_index() == 0));
}

#[test]
fn randomize_draws_only_positive_weight_states() {
    let mut grid = Grid::empty(100, 10, NeighboringStrategy::SquareAndCorners);
    let probs = vec![
        StateProbabilty { state: NodeId::from_index(2), weight: 0 },
        StateProbabilty { state: NodeId::from_index(3), weight: 1 },
        StateProbabilty { state: NodeId::from_index(5), weight: 2 },
    ];
    let r = grid.randomize(&probs);
    assert_eq!(r, Ok(()));
    assert_eq!(grid.cells().len(), 100);
    assert!(grid
        .cells()
        .iter()
        .all(|c| c.as_index() == 3 || c.as_index() == 5));
}

#[test]
fn randomize_single_certain_state() {
    let mut grid = Grid::empty(9, 3, NeighboringStrategy::Hexagon);
    let probs = vec![StateProbabilty { state: NodeId::from_index(7), weight: 42 }];
    assert_eq!(grid.randomize(&probs), Ok(()));
    assert!(grid.cells().iter().all(|c| c.as_index() == 7));
}

#[test]
fn histogram_counts_states() {
    let mut sm = StateMap::new();
    let states = vec![
        NodeId::from_index(1),
        NodeId::from_index(2),
        NodeId::from_index(1),
        NodeId::from_index(0),
        NodeId::from_index(1),
    ];
    sm.count_states(&states);
    assert_eq!(sm.get_count(NodeId::from_index(0)), 1);
    assert_eq!(sm.get_count(NodeId::from_index(1)), 3);
    assert_eq!(sm.get_count(NodeId::from_index(2)), 1);
    assert_eq!(sm.get_count(NodeId::from_index(3)), 0);
}

#[test]
fn histogram_is_rebuilt_from_scratch() {
    let mut sm = StateMap::new();
    sm.count_states(&vec![NodeId::from_index(2), NodeId::from_index(2)]);
    assert_eq!(sm.get_count(NodeId::from_index(2)), 2);
    sm.count_states(&vec![NodeId::from_index(1)]);
    assert_eq!(sm.get_count(NodeId::from_index(2)), 0);
    assert_eq!(sm.get_count(NodeId::from_index(1)), 1);
}

#[test]
fn state_pool_has_one_slot_per_cell_and_wraps() {
    let grid = Grid::empty(3, 3, NeighboringStrategy::Square);
    let mut pool = StatePool::new(&grid);
    assert_eq!(pool.0.len(), 3);
    // Lookup wraps by modulus when the index diverges from the pool size.
    pool.0[1].counts[0] = 9;
    assert_eq!(pool.get(1).get_count(NodeId::from_index(0)), 9);
    assert_eq!(pool.get(4).get_count(NodeId::from_index(0)), 9);
    assert_eq!(pool.get(2).get_count(NodeId::from_index(0)), 0);
}

#[test]
fn map_cells_applies_the_transition_everywhere() {
    // A transition that ignores the histogram and flips state 0 <-> 1.
    let mut grid = Grid::empty(6, 3, NeighboringStrategy::SquareAndCorners);
    grid.cells[0] = NodeId::from_index(1);
    grid.cells[4] = NodeId::from_index(1);
    let mut pool = StatePool::new(&grid);
    grid.map_cells(&mut pool, |c: NodeId, _sm: &StateMap| {
        NodeId::from_index(if c.as_index() == 0 { 1 } else { 0 })
    });
    let cells: Vec<usize> = grid.cells().iter().map(|c| c.as_index()).collect();
    assert_eq!(cells, vec![0, 1, 1, 1, 0, 1]);
}

#[test]
fn map_cells_sees_prior_generation_histograms() {
    // Each cell becomes the count of its alive neighbors; on a 3x3 Moore
    // grid with the center alive, every border cell counts exactly one.
    let mut grid = Grid::empty(9, 3, NeighboringStrategy::SquareAndCorners);
    grid.cells[4] = NodeId::from_index(1);
    let mut pool = StatePool::new(&grid);
    grid.map_cells(&mut pool, |_c: NodeId, sm: &StateMap| {
        NodeId::from_index(sm.get_count(NodeId::from_index(1)) as usize)
    });
    let cells: Vec<usize> = grid.cells().iter().map(|c| c.as_index()).collect();
    assert_eq!(cells, vec![1, 1, 1, 1, 0, 1, 1, 1, 1]);
}
