//! Game-of-Life scenarios driven through the simulation orchestrator.

use libca::grid::neighbor_strategy::NeighboringStrategy;
use libca::grid::Grid;
use libca::model::test_utils::game_of_life_rules;
use libca::simulation::SimulationContext;
use libca::{Model, NodeId};

/// Builds a Moore-topology grid from a picture: `░` is the dead state
/// (identifier 0) and `█` the alive state (identifier 1). All rows must
/// have the same width.
fn game_of_life_grid(pattern: &str) -> Grid {
    let rows: Vec<&str> = pattern
        .lines()
        .map(|l| l.trim())
        .filter(|l| !l.is_empty())
        .collect();
    assert!(!rows.is_empty());
    let width = rows[0].chars().count();
    let mut cells = Vec::new();
    for row in &rows {
        assert_eq!(row.chars().count(), width);
        for c in row.chars() {
            match c {
                '░' => cells.push(NodeId::from_index(0)),
                '█' => cells.push(NodeId::from_index(1)),
                other => panic!("unexpected cell character {other:?}"),
            }
        }
    }
    let mut grid = Grid::empty(cells.len(), width, NeighboringStrategy::SquareAndCorners);
    grid.cells = cells;
    grid
}

/// Renders a grid back into the picture format of `game_of_life_grid`.
fn to_game_of_life_output(grid: &Grid) -> String {
    let width = grid.cells_per_row();
    let mut out = String::new();
    for (i, cell) in grid.cells().iter().enumerate() {
        if i > 0 && i % width == 0 {
            out.push('\n');
        }
        out.push(if cell.as_index() == 1 { '█' } else { '░' });
    }
    out
}

#[test]
fn gol_block_should_remain() {
    let model = Model::game_of_life();
    let grid = game_of_life_grid(
        "
            ░░░░
            ░██░
            ░██░
            ░░░░
        ",
    );

    let mut ctx = SimulationContext::new(model, grid);
    ctx.step();

    assert_eq!(
        to_game_of_life_output(&ctx.grid),
        "░░░░\n░██░\n░██░\n░░░░"
    );
}

#[test]
fn gol_blinker_should_oscillate() {
    let model = Model::game_of_life();
    let grid = game_of_life_grid(
        "
            ░░░
            ░█░
            ░█░
            ░█░
            ░░░
        ",
    );

    let mut ctx = SimulationContext::new(model, grid);
    ctx.step();

    assert_eq!(
        to_game_of_life_output(&ctx.grid),
        "░░░\n░░░\n███\n░░░\n░░░",
        "expected the horizontal phase after one step"
    );
    ctx.step();

    assert_eq!(
        to_game_of_life_output(&ctx.grid),
        "░░░\n░█░\n░█░\n░█░\n░░░",
        "expected the vertical phase after two steps"
    );
}

#[test]
fn gol_glider_should_move_and_cycle() {
    let model = Model::game_of_life();
    // A standard 5-cell glider near the top-left corner of a 16x16 grid; it
    // translates by (+1, +1) every 4 steps.
    let mut start = vec![vec!['░'; 16]; 16];
    let glider = [(1usize, 2usize), (2, 3), (3, 1), (3, 2), (3, 3)];
    for &(r, c) in &glider {
        start[r][c] = '█';
    }
    let pattern: String = start
        .iter()
        .map(|row| row.iter().collect::<String>())
        .collect::<Vec<_>>()
        .join("\n");
    let grid = game_of_life_grid(&pattern);

    let mut ctx = SimulationContext::new(model, grid);

    for _ in 0..32 {
        ctx.step();
    }

    // 32 steps = 8 full glider cycles: the original shape, shifted by (8, 8).
    let mut expected = vec![vec!['░'; 16]; 16];
    for &(r, c) in &glider {
        expected[r + 8][c + 8] = '█';
    }
    let expected_pattern: String = expected
        .iter()
        .map(|row| row.iter().collect::<String>())
        .collect::<Vec<_>>()
        .join("\n");
    assert_eq!(to_game_of_life_output(&ctx.grid), expected_pattern);
}

#[test]
fn game_of_life_rules_matches_known_model() {
    let m = game_of_life_rules();
    assert_eq!(m.nodes().len(), 2);
    assert_eq!(m.nodes()[0].name(), "Dead");
    assert_eq!(m.nodes()[1].name(), "Alive");
    assert_eq!(m.all_edges().len(), 3);
    assert_eq!(m.all_edges()[0].name(), "Underpopulation");
    assert_eq!(m.all_edges()[1].name(), "Overpopulation");
    assert_eq!(m.all_edges()[2].name(), "Reproduction");
    assert_eq!(m.all_edges()[2].from_node_id().as_index(), 0);
    assert_eq!(m.all_edges()[2].to_node_id().as_index(), 1);
}
