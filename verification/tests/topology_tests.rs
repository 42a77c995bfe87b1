//! Neighbor enumeration at corner, edge, and interior positions, for each
//! topology kind. Expected index sets are compared order-insensitively,
//! since the enumeration order is unspecified.

use libca::grid::neighbor_strategy::{NeighboringContext, NeighboringStrategy};

fn neighbors(width: usize, strategy: NeighboringStrategy, index: usize, n_cells: usize) -> Vec<usize> {
    let ctx = NeighboringContext { cells_per_row: width, strategy };
    let mut r = ctx.get_neighbors(index, n_cells);
    r.sort();
    r
}

#[test]
fn moore_interior_cell_has_eight_neighbors() {
    assert_eq!(
        neighbors(4, NeighboringStrategy::SquareAndCorners, 5, 12),
        vec![0, 1, 2, 4, 6, 8, 9, 10]
    );
}

#[test]
fn moore_left_edge_cell_skips_left_column() {
    assert_eq!(
        neighbors(3, NeighboringStrategy::SquareAndCorners, 6, 12),
        vec![3, 4, 7, 9, 10]
    );
}

#[test]
fn moore_right_edge_cell_skips_right_column() {
    assert_eq!(
        neighbors(3, NeighboringStrategy::SquareAndCorners, 8, 12),
        vec![4, 5, 7, 10, 11]
    );
}

#[test]
fn moore_corner_cells() {
    assert_eq!(
        neighbors(3, NeighboringStrategy::SquareAndCorners, 0, 9),
        vec![1, 3, 4]
    );
    assert_eq!(
        neighbors(3, NeighboringStrategy::SquareAndCorners, 8, 9),
        vec![4, 5, 7]
    );
}

#[test]
fn moore_bottom_boundary_is_hard() {
    // The last row of a 3x3 grid has no cells below it.
    assert_eq!(
        neighbors(3, NeighboringStrategy::SquareAndCorners, 7, 9),
        vec![3, 4, 5, 6, 8]
    );
}

#[test]
fn von_neumann_interior_cell_has_four_neighbors() {
    assert_eq!(
        neighbors(3, NeighboringStrategy::Square, 4, 9),
        vec![1, 3, 5, 7]
    );
}

#[test]
fn von_neumann_corner_cell_has_two_neighbors() {
    assert_eq!(neighbors(3, NeighboringStrategy::Square, 0, 9), vec![1, 3]);
}

#[test]
fn hexagon_interior_cell_has_six_neighbors() {
    // Width 4, index 5: offsets -1, +1, -4, -5, +4, +3.
    assert_eq!(
        neighbors(4, NeighboringStrategy::Hexagon, 5, 12),
        vec![0, 1, 4, 6, 8, 9]
    );
}

#[test]
fn hexagon_column_zero_skips_left_offsets() {
    // Width 4, index 4: only +1, -4 and +4 survive.
    assert_eq!(
        neighbors(4, NeighboringStrategy::Hexagon, 4, 12),
        vec![0, 5, 8]
    );
}

#[test]
fn single_column_grid_has_only_vertical_neighbors() {
    assert_eq!(
        neighbors(1, NeighboringStrategy::SquareAndCorners, 1, 3),
        vec![0, 2]
    );
}
