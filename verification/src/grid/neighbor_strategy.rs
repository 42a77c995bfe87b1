//! Neighbor topology: a pure mapping from a cell index, the grid's row
//! width and a topology kind to the cell's valid neighbor indices. The grid
//! has hard edges: an offset is discarded when it would cross a row boundary
//! or land outside the grid.

use vstd::prelude::*;

verus! {

/// The neighborhood shape laid over the grid.
#[derive(Clone, Copy, PartialEq, Eq, Structural, Debug)]
pub enum NeighboringStrategy {
    /// Von-Neumann neighborhood: the four laterally adjacent cells.
    Square,
    /// Moore neighborhood: the eight surrounding cells, corners included.
    SquareAndCorners,
    /// Hexagonal neighborhood on offset rows: six cells.
    Hexagon,
}

/// The topology context of a grid: its row width and neighborhood shape.
#[derive(Clone, Copy, PartialEq, Eq, Structural, Debug)]
pub struct NeighboringContext {
    pub cells_per_row: usize,
    pub strategy: NeighboringStrategy,
}

/// One candidate neighbor: the singleton `[target]` when the row-boundary
/// gate holds and the target lies inside the grid, else nothing.
pub open spec fn candidate(gate: bool, target: int, n_cells: int) -> Seq<int> {
    if gate && 0 <= target < n_cells {
        seq![target]
    } else {
        Seq::empty()
    }
}

/// The valid neighbor indices of `index` on a grid of `n_cells` cells, in a
/// fixed candidate order. Callers must not rely on the order.
///
/// A "left" offset (target column one less) is invalid in column 0; a
/// "right" offset (target column one more) is invalid in the last column;
/// every offset is invalid when it lands outside `[0, n_cells)`.
pub open spec fn spec_neighbors(ctx: NeighboringContext, n_cells: int, index: int) -> Seq<int> {
    let w = ctx.cells_per_row as int;
    let col = index % w;
    let left_ok = col > 0;
    let right_ok = col < w - 1;
    match ctx.strategy {
        NeighboringStrategy::Square => candidate(left_ok, index - 1, n_cells) + candidate(
            right_ok,
            index + 1,
            n_cells,
        ) + candidate(true, index - w, n_cells) + candidate(true, index + w, n_cells),
        NeighboringStrategy::SquareAndCorners => candidate(left_ok, index - 1, n_cells) + candidate(
            right_ok,
            index + 1,
            n_cells,
        ) + candidate(true, index - w, n_cells) + candidate(right_ok, index - w + 1, n_cells)
            + candidate(left_ok, index - w - 1, n_cells) + candidate(true, index + w, n_cells)
            + candidate(left_ok, index + w - 1, n_cells) + candidate(
            right_ok,
            index + w + 1,
            n_cells,
        ),
        NeighboringStrategy::Hexagon => candidate(left_ok, index - 1, n_cells) + candidate(
            right_ok,
            index + 1,
            n_cells,
        ) + candidate(true, index - w, n_cells) + candidate(left_ok, index - w - 1, n_cells)
            + candidate(true, index + w, n_cells) + candidate(left_ok, index + w - 1, n_cells),
    }
}

/// Whether `j` is a valid neighbor of `index`: `j` lies inside the grid
/// and is reached by one of the topology's offsets whose row-boundary gate
/// holds at `index`.
pub open spec fn is_neighbor(ctx: NeighboringContext, n_cells: int, index: int, j: int) -> bool {
    let w = ctx.cells_per_row as int;
    let col = index % w;
    let left_ok = col > 0;
    let right_ok = col < w - 1;
    &&& 0 <= j < n_cells
    &&& match ctx.strategy {
        NeighboringStrategy::Square => (left_ok && j == index - 1) || (right_ok && j == index + 1)
            || j == index - w || j == index + w,
        NeighboringStrategy::SquareAndCorners => (left_ok && j == index - 1) || (right_ok && j
            == index + 1) || j == index - w || (right_ok && j == index - w + 1) || (left_ok && j
            == index - w - 1) || j == index + w || (left_ok && j == index + w - 1) || (right_ok
            && j == index + w + 1),
        NeighboringStrategy::Hexagon => (left_ok && j == index - 1) || (right_ok && j == index + 1)
            || j == index - w || (left_ok && j == index - w - 1) || j == index + w || (left_ok
            && j == index + w - 1),
    }
}

proof fn lemma_contains_add<A>(a: Seq<A>, b: Seq<A>, x: A)
    ensures
        (a + b).contains(x) <==> a.contains(x) || b.contains(x),
{
    if (a + b).contains(x) {
        let i = choose|i: int| 0 <= i < (a + b).len() && (a + b)[i] == x;
        if i < a.len() {
            assert(a[i] == x);
        } else {
            assert(b[i - a.len()] == x);
        }
    }
    if a.contains(x) {
        let i = choose|i: int| 0 <= i < a.len() && a[i] == x;
        assert((a + b)[i] == x);
    }
    if b.contains(x) {
        let i = choose|i: int| 0 <= i < b.len() && b[i] == x;
        assert((a + b)[a.len() + i] == x);
    }
}

proof fn lemma_contains_candidate(gate: bool, t: int, n_cells: int, j: int)
    ensures
        candidate(gate, t, n_cells).contains(j) <==> (gate && 0 <= t < n_cells && j == t),
{
    if gate && 0 <= t < n_cells {
        assert(candidate(gate, t, n_cells)[0] == t);
    }
}

/// Law: topology boundary correctness. The enumerated neighbors of `index`
/// are exactly the indices reached by the topology's offsets, with "left"
/// offsets dropped in column 0, "right" offsets dropped in the last column,
/// and every offset dropped when it leaves the grid.
pub proof fn lemma_neighbors_exact(ctx: NeighboringContext, n_cells: int, index: int, j: int)
    requires
        ctx.cells_per_row >= 1,
        0 <= index < n_cells,
    ensures
        spec_neighbors(ctx, n_cells, index).contains(j) <==> is_neighbor(ctx, n_cells, index, j),
{
    let w = ctx.cells_per_row as int;
    let col = index % w;
    let left_ok = col > 0;
    let right_ok = col < w - 1;
    let c_left = candidate(left_ok, index - 1, n_cells);
    let c_right = candidate(right_ok, index + 1, n_cells);
    let c_up = candidate(true, index - w, n_cells);
    let c_down = candidate(true, index + w, n_cells);
    lemma_contains_candidate(left_ok, index - 1, n_cells, j);
    lemma_contains_candidate(right_ok, index + 1, n_cells, j);
    lemma_contains_candidate(true, index - w, n_cells, j);
    lemma_contains_candidate(true, index + w, n_cells, j);
    match ctx.strategy {
        NeighboringStrategy::Square => {
            lemma_contains_add(c_left, c_right, j);
            lemma_contains_add(c_left + c_right, c_up, j);
            lemma_contains_add(c_left + c_right + c_up, c_down, j);
        },
        NeighboringStrategy::SquareAndCorners => {
            let c_up_right = candidate(right_ok, index - w + 1, n_cells);
            let c_up_left = candidate(left_ok, index - w - 1, n_cells);
            let c_down_left = candidate(left_ok, index + w - 1, n_cells);
            let c_down_right = candidate(right_ok, index + w + 1, n_cells);
            lemma_contains_candidate(right_ok, index - w + 1, n_cells, j);
            lemma_contains_candidate(left_ok, index - w - 1, n_cells, j);
            lemma_contains_candidate(left_ok, index + w - 1, n_cells, j);
            lemma_contains_candidate(right_ok, index + w + 1, n_cells, j);
            lemma_contains_add(c_left, c_right, j);
            lemma_contains_add(c_left + c_right, c_up, j);
            lemma_contains_add(c_left + c_right + c_up, c_up_right, j);
            lemma_contains_add(c_left + c_right + c_up + c_up_right, c_up_left, j);
            lemma_contains_add(c_left + c_right + c_up + c_up_right + c_up_left, c_down, j);
            lemma_contains_add(
                c_left + c_right + c_up + c_up_right + c_up_left + c_down,
                c_down_left,
                j,
            );
            lemma_contains_add(
                c_left + c_right + c_up + c_up_right + c_up_left + c_down + c_down_left,
                c_down_right,
                j,
            );
        },
        NeighboringStrategy::Hexagon => {
            let c_up_left = candidate(left_ok, index - w - 1, n_cells);
            let c_down_left = candidate(left_ok, index + w - 1, n_cells);
            lemma_contains_candidate(left_ok, index - w - 1, n_cells, j);
            lemma_contains_candidate(left_ok, index + w - 1, n_cells, j);
            lemma_contains_add(c_left, c_right, j);
            lemma_contains_add(c_left + c_right, c_up, j);
            lemma_contains_add(c_left + c_right + c_up, c_up_left, j);
            lemma_contains_add(c_left + c_right + c_up + c_up_left, c_down, j);
            lemma_contains_add(c_left + c_right + c_up + c_up_left + c_down, c_down_left, j);
        },
    }
}

/// Law: the neighbor enumeration repeats no index, so it denotes exactly
/// the set characterized by [`is_neighbor`].
#[verifier::rlimit(100)]
#[verifier::spinoff_prover]
pub proof fn lemma_neighbors_distinct(ctx: NeighboringContext, n_cells: int, index: int)
    requires
        ctx.cells_per_row >= 1,
        0 <= index < n_cells,
    ensures
        forall|k1: int, k2: int|
            0 <= k1 < k2 < spec_neighbors(ctx, n_cells, index).len()
                ==> spec_neighbors(ctx, n_cells, index)[k1] != spec_neighbors(
                ctx,
                n_cells,
                index,
            )[k2],
{
    let s = spec_neighbors(ctx, n_cells, index);
    assert forall|k1: int, k2: int| 0 <= k1 < k2 < s.len() implies s[k1] != s[k2] by {
        let w = ctx.cells_per_row as int;
        assert(index % w == index - (index / w) * w) by {
            vstd::arithmetic::div_mod::lemma_fundamental_div_mod(index, w);
        }
    }
}

impl NeighboringContext {
    /// The valid neighbor indices of `index`, respecting grid edges: between
    /// 2 and the topology's arity of them, depending on the cell's position.
    pub fn get_neighbors(&self, index: usize, n_cells: usize) -> (r: Vec<usize>)
        requires
            self.cells_per_row >= 1,
            index < n_cells,
        ensures
            r@.map_values(|x: usize| x as int) == spec_neighbors(*self, n_cells as int, index as int),
            forall|k: int| 0 <= k < r@.len() ==> r@[k] < n_cells,
            r@.len() <= 8,
    {
        match self.strategy {
            NeighboringStrategy::Square => self.square_neighbors(index, n_cells),
            NeighboringStrategy::SquareAndCorners => self.square_and_corners_neighbors(
                index,
                n_cells,
            ),
            NeighboringStrategy::Hexagon => self.hexagon_neighbors(index, n_cells),
        }
    }

    fn square_neighbors(&self, index: usize, n_cells: usize) -> (r: Vec<usize>)
        requires
            self.strategy == NeighboringStrategy::Square,
            self.cells_per_row >= 1,
            index < n_cells,
        ensures
            r@.map_values(|x: usize| x as int) == spec_neighbors(*self, n_cells as int, index as int),
            forall|k: int| 0 <= k < r@.len() ==> r@[k] < n_cells,
            r@.len() <= 8,
    {
        let w = self.cells_per_row;
        let n = n_cells;
        let col = index % w;
        let left_ok = col > 0;
        let right_ok = col < w - 1;
        let ghost gn = n as int;
        let ghost gi = index as int;
        let ghost gw = w as int;

        let mut r: Vec<usize> = Vec::new();
        let ghost mut expect: Seq<int> = Seq::empty();

        match self.strategy {
            NeighboringStrategy::Square => {
                if left_ok && index >= 1 {
                    r.push(index - 1);
                }
                proof {
                    expect = expect + candidate(left_ok, gi - 1, gn);
                    assert(r@.map_values(|x: usize| x as int) =~= expect);
                }
                if right_ok && index + 1 < n {
                    r.push(index + 1);
                }
                proof {
                    expect = expect + candidate(right_ok, gi + 1, gn);
                    assert(r@.map_values(|x: usize| x as int) =~= expect);
                }
                if index >= w {
                    r.push(index - w);
                }
                proof {
                    expect = expect + candidate(true, gi - gw, gn);
                    assert(r@.map_values(|x: usize| x as int) =~= expect);
                }
                if n - index > w {
                    r.push(index + w);
                }
                proof {
                    expect = expect + candidate(true, gi + gw, gn);
                    assert(r@.map_values(|x: usize| x as int) =~= expect);
                }
            },
            _ => {
                proof {
                    assert(false);
                }
            },
        }
        r
    }

    #[verifier::rlimit(100)]
    #[verifier::spinoff_prover]
    fn square_and_corners_neighbors(&self, index: usize, n_cells: usize) -> (r: Vec<usize>)
        requires
            self.strategy == NeighboringStrategy::SquareAndCorners,
            self.cells_per_row >= 1,
            index < n_cells,
        ensures
            r@.map_values(|x: usize| x as int) == spec_neighbors(*self, n_cells as int, index as int),
            forall|k: int| 0 <= k < r@.len() ==> r@[k] < n_cells,
            r@.len() <= 8,
    {
        let w = self.cells_per_row;
        let n = n_cells;
        let col = index % w;
        let left_ok = col > 0;
        let right_ok = col < w - 1;
        let ghost gn = n as int;
        let ghost gi = index as int;
        let ghost gw = w as int;

        let mut r: Vec<usize> = Vec::new();
        let ghost mut expect: Seq<int> = Seq::empty();

        match self.strategy {
            NeighboringStrategy::SquareAndCorners => {
                if left_ok && index >= 1 {
                    r.push(index - 1);
                }
                proof {
                    expect = expect + candidate(left_ok, gi - 1, gn);
                    assert(r@.map_values(|x: usize| x as int) =~= expect);
                }
                if right_ok && index + 1 < n {
                    r.push(index + 1);
                }
                proof {
                    expect = expect + candidate(right_ok, gi + 1, gn);
                    assert(r@.map_values(|x: usize| x as int) =~= expect);
                }
                if index >= w {
                    r.push(index - w);
                }
                proof {
                    expect = expect + candidate(true, gi - gw, gn);
                    assert(r@.map_values(|x: usize| x as int) =~= expect);
                }
                if right_ok && index + 1 >= w {
                    r.push(index + 1 - w);
                }
                proof {
                    expect = expect + candidate(right_ok, gi - gw + 1, gn);
                    assert(r@.map_values(|x: usize| x as int) =~= expect);
                }
                if left_ok && index > w {
                    r.push(index - w - 1);
                }
                proof {
                    expect = expect + candidate(left_ok, gi - gw - 1, gn);
                    assert(r@.map_values(|x: usize| x as int) =~= expect);
                }
                if n - index > w {
                    r.push(index + w);
                }
                proof {
                    expect = expect + candidate(true, gi + gw, gn);
                    assert(r@.map_values(|x: usize| x as int) =~= expect);
                }
                if left_ok && n - index > w - 1 {
                    r.push(index + w - 1);
                }
                proof {
                    expect = expect + candidate(left_ok, gi + gw - 1, gn);
                    assert(r@.map_values(|x: usize| x as int) =~= expect);
                }
                if right_ok && n - index > w && n - index - w > 1 {
                    r.push(index + w + 1);
                }
                proof {
                    expect = expect + candidate(right_ok, gi + gw + 1, gn);
                    assert(r@.map_values(|x: usize| x as int) =~= expect);
                }
            },
            _ => {
                proof {
                    assert(false);
                }
            },
        }
        r
    }

    #[verifier::rlimit(100)]
    #[verifier::spinoff_prover]
    fn hexagon_neighbors(&self, index: usize, n_cells: usize) -> (r: Vec<usize>)
        requires
            self.strategy == NeighboringStrategy::Hexagon,
            self.cells_per_row >= 1,
            index < n_cells,
        ensures
            r@.map_values(|x: usize| x as int) == spec_neighbors(*self, n_cells as int, index as int),
            forall|k: int| 0 <= k < r@.len() ==> r@[k] < n_cells,
            r@.len() <= 8,
    {
        let w = self.cells_per_row;
        let n = n_cells;
        let col = index % w;
        let left_ok = col > 0;
        let right_ok = col < w - 1;
        let ghost gn = n as int;
        let ghost gi = index as int;
        let ghost gw = w as int;

        let mut r: Vec<usize> = Vec::new();
        let ghost mut expect: Seq<int> = Seq::empty();

        match self.strategy {
            NeighboringStrategy::Hexagon => {
                if left_ok && index >= 1 {
                    r.push(index - 1);
                }
                proof {
                    expect = expect + candidate(left_ok, gi - 1, gn);
                    assert(r@.map_values(|x: usize| x as int) =~= expect);
                }
                if right_ok && index + 1 < n {
                    r.push(index + 1);
                }
                proof {
                    expect = expect + candidate(right_ok, gi + 1, gn);
                    assert(r@.map_values(|x: usize| x as int) =~= expect);
                }
                if index >= w {
                    r.push(index - w);
                }
                proof {
                    expect = expect + candidate(true, gi - gw, gn);
                    assert(r@.map_values(|x: usize| x as int) =~= expect);
                }
                if left_ok && index > w {
                    r.push(index - w - 1);
                }
                proof {
                    expect = expect + candidate(left_ok, gi - gw - 1, gn);
                    assert(r@.map_values(|x: usize| x as int) =~= expect);
                }
                if n - index > w {
                    r.push(index + w);
                }
                proof {
                    expect = expect + candidate(true, gi + gw, gn);
                    assert(r@.map_values(|x: usize| x as int) =~= expect);
                }
                if left_ok && n - index > w - 1 {
                    r.push(index + w - 1);
                }
                proof {
                    expect = expect + candidate(left_ok, gi + gw - 1, gn);
                    assert(r@.map_values(|x: usize| x as int) =~= expect);
                }
            },
            _ => {
                proof {
                    assert(false);
                }
            },
        }
        r
    }
}

} // verus!
