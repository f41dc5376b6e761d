//! Cell states and the mathematical view of a grid.

use vstd::prelude::*;

verus! {

/// The state of a single cell. A cell has no identity beyond its position.
#[derive(Copy, Clone, PartialEq, Eq, Structural, Debug)]
pub enum CellState {
    Dead,
    Alive,
}

/// A dense two-dimensional grid of cells, row major.
pub type CellMap = Vec<Vec<CellState>>;

/// A `(row, col)` position.
pub type Coord = (usize, usize);

/// The mathematical view of a grid: a sequence of rows, each a sequence of cells.
pub open spec fn grid_view(cells: &CellMap) -> Seq<Seq<CellState>> {
    cells@.map_values(|row: Vec<CellState>| row@)
}

/// A grid is square when every row is exactly as long as the number of rows.
pub open spec fn is_square(g: Seq<Seq<CellState>>) -> bool {
    forall|i: int| 0 <= i < g.len() ==> (#[trigger] g[i]).len() == g.len()
}

/// 1 if `(r, c)` is inside the grid and alive, 0 otherwise. Out-of-range
/// coordinates count as dead, which makes boundary handling uniform.
pub open spec fn alive_at(g: Seq<Seq<CellState>>, r: int, c: int) -> int {
    if 0 <= r < g.len() && 0 <= c < g[r].len() && g[r][c] == CellState::Alive {
        1
    } else {
        0
    }
}

} // verus!
