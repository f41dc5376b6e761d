//! Generations of the game and the transition engine.

use vstd::prelude::*;

use crate::grid::grid_view;
use crate::grid::is_square;
use crate::grid::CellMap;
use crate::grid::CellState;
use crate::grid::Coord;
use crate::neighbors::count_neighbours_alive;
use crate::neighbors::neighbor_alive_count;

verus! {

/// Why a generation could not be constructed.
#[derive(Copy, Clone, PartialEq, Eq, Structural, Debug)]
pub enum CreateError {
    /// The requested grid dimension was zero.
    InvalidSize,
    /// A seed coordinate, after the origin offset, fell outside the grid.
    OutOfBounds,
}

/// The requested dimension of a square grid.
pub struct GameSize(pub usize);

/// One immutable generation: a cycle number and a square grid of cells.
#[derive(Debug)]
pub struct GameState {
    pub cycle: u64,
    pub cells: CellMap,
}

/// The simulation: holds the most recently produced generation and derives
/// the next one on demand.
#[derive(Debug)]
pub struct GameOfLife {
    pub game_state: GameState,
}

/// The state a cell takes in the next generation, given the current grid:
/// dead on underpopulation (at most 1 alive neighbor) or overpopulation
/// (4 or more), born on exactly 3 alive neighbors, otherwise unchanged.
pub open spec fn next_cell(g: Seq<Seq<CellState>>, r: int, c: int) -> CellState {
    let n = neighbor_alive_count(g, r, c);
    if n <= 1 || n >= 4 {
        CellState::Dead
    } else if n == 3 && g[r][c] == CellState::Dead {
        CellState::Alive
    } else {
        g[r][c]
    }
}

/// The whole next grid, every cell derived from the current grid alone.
pub open spec fn next_grid(g: Seq<Seq<CellState>>) -> Seq<Seq<CellState>> {
    Seq::new(g.len(), |r: int| Seq::new(g.len(), |c: int| next_cell(g, r, c)))
}

/// Whether `seed`, offset by `origin`, lands inside a `size`-by-`size` grid.
pub open spec fn seed_in_bounds(seed: Coord, origin: Coord, size: int) -> bool {
    seed.0 + origin.0 < size && seed.1 + origin.1 < size
}

/// Whether some seed, offset by `origin`, lands exactly on `(r, c)`.
pub open spec fn seed_alive(seeds: Seq<Coord>, origin: Coord, r: int, c: int) -> bool {
    exists|i: int|
        0 <= i < seeds.len() && (#[trigger] seeds[i]).0 + origin.0 == r && seeds[i].1 + origin.1
            == c
}

impl GameState {
    /// The grid's dimension.
    pub open spec fn size(&self) -> int {
        self.cells@.len() as int
    }

    /// The mathematical view of this generation's grid.
    pub open spec fn grid(&self) -> Seq<Seq<CellState>> {
        grid_view(&self.cells)
    }

    /// Every row is exactly `size` cells long.
    pub open spec fn well_formed(&self) -> bool {
        is_square(self.grid())
    }

    /// Runtime check that the grid is square, so that unverified callers can
    /// re-establish well-formedness before relying on it.
    pub fn is_well_formed(&self) -> (b: bool)
        ensures
            b == self.well_formed(),
    {
        let size = self.cells.len();
        let mut r: usize = 0;
        while r < size
            invariant
                size == self.cells@.len(),
                r <= size,
                forall|i: int| 0 <= i < r ==> (#[trigger] self.grid()[i]).len() == size,
            decreases size - r,
        {
            if self.cells[r].len() != size {
                proof {
                    assert(self.grid()[r as int].len() != size);
                }
                return false;
            }
            r = r + 1;
        }
        true
    }
}

/// Whether some seed, offset by `origin`, lands exactly on `(r, c)`.
fn seeds_contain(seeds: &Vec<Coord>, origin: Coord, r: usize, c: usize) -> (b: bool)
    requires
        forall|i: int|
            0 <= i < seeds@.len() ==> (#[trigger] seeds@[i]).0 + origin.0 <= usize::MAX
                && seeds@[i].1 + origin.1 <= usize::MAX,
    ensures
        b == seed_alive(seeds@, origin, r as int, c as int),
{
    let mut i: usize = 0;
    while i < seeds.len()
        invariant
            i <= seeds@.len(),
            forall|k: int|
                0 <= k < seeds@.len() ==> (#[trigger] seeds@[k]).0 + origin.0 <= usize::MAX
                    && seeds@[k].1 + origin.1 <= usize::MAX,
            forall|k: int|
                0 <= k < i ==> !((#[trigger] seeds@[k]).0 + origin.0 == r && seeds@[k].1 + origin.1
                    == c),
        decreases seeds@.len() - i,
    {
        let (sr, sc) = seeds[i];
        if sr + origin.0 == r && sc + origin.1 == c {
            return true;
        }
        i = i + 1;
    }
    false
}

/// What `GameState::new` and `GameOfLife::new` promise of a successfully
/// built generation: cycle 0, a square `size`-by-`size` grid, and a cell
/// alive exactly when some seed coordinate, offset by `origin`, names it.
pub open spec fn is_initial_generation(
    g: GameState,
    size: int,
    seeds: Seq<Coord>,
    origin: Coord,
) -> bool {
    &&& g.cycle == 0
    &&& g.size() == size
    &&& g.well_formed()
    &&& forall|r: int, c: int|
        0 <= r < size && 0 <= c < size ==> ((#[trigger] g.grid()[r][c]) == CellState::Alive
            <==> seed_alive(seeds, origin, r, c))
}

impl GameState {
    /// Build the initial generation, at cycle 0: a `size`-by-`size` grid, all
    /// cells dead except those named by a seed coordinate offset by `origin`.
    /// A zero dimension is rejected as `InvalidSize`; a seed that, after the
    /// offset, falls outside the grid is rejected as `OutOfBounds`.
    pub fn new(game_size: GameSize, initially_alive_cells: Vec<Coord>, origin: Coord) -> (result:
        Result<GameState, CreateError>)
        ensures
            game_size.0 == 0 <==> result == Err::<GameState, CreateError>(CreateError::InvalidSize),
            (game_size.0 > 0 && exists|i: int|
                0 <= i < initially_alive_cells@.len() && !seed_in_bounds(
                    #[trigger] initially_alive_cells@[i],
                    origin,
                    game_size.0 as int,
                )) <==> result == Err::<GameState, CreateError>(CreateError::OutOfBounds),
            result matches Ok(g) ==> is_initial_generation(
                g,
                game_size.0 as int,
                initially_alive_cells@,
                origin,
            ),
    {
        let size = game_size.0;
        if size == 0 {
            return Err(CreateError::InvalidSize);
        }
        let mut i: usize = 0;
        while i < initially_alive_cells.len()
            invariant
                size > 0,
                size == game_size.0,
                i <= initially_alive_cells@.len(),
                forall|k: int|
                    0 <= k < i ==> seed_in_bounds(
                        #[trigger] initially_alive_cells@[k],
                        origin,
                        size as int,
                    ),
            decreases initially_alive_cells@.len() - i,
        {
            let (sr, sc) = initially_alive_cells[i];
            if sr >= size || origin.0 >= size - sr || sc >= size || origin.1 >= size - sc {
                proof {
                    assert(!seed_in_bounds(initially_alive_cells@[i as int], origin, size as int));
                }
                return Err(CreateError::OutOfBounds);
            }
            i = i + 1;
        }
        let mut cells: CellMap = Vec::new();
        let mut r: usize = 0;
        while r < size
            invariant
                size > 0,
                r <= size,
                cells@.len() == r,
                forall|k: int|
                    0 <= k < initially_alive_cells@.len() ==> seed_in_bounds(
                        #[trigger] initially_alive_cells@[k],
                        origin,
                        size as int,
                    ),
                forall|rr: int| 0 <= rr < r ==> (#[trigger] cells@[rr]@).len() == size,
                forall|rr: int, cc: int|
                    0 <= rr < r && 0 <= cc < size ==> ((#[trigger] cells@[rr]@[cc])
                        == CellState::Alive <==> seed_alive(
                        initially_alive_cells@,
                        origin,
                        rr,
                        cc,
                    )),
            decreases size - r,
        {
            let mut row: Vec<CellState> = Vec::new();
            let mut c: usize = 0;
            while c < size
                invariant
                    size > 0,
                    r < size,
                    c <= size,
                    row@.len() == c,
                    forall|k: int|
                        0 <= k < initially_alive_cells@.len() ==> seed_in_bounds(
                            #[trigger] initially_alive_cells@[k],
                            origin,
                            size as int,
                        ),
                    forall|cc: int|
                        0 <= cc < c ==> ((#[trigger] row@[cc]) == CellState::Alive <==> seed_alive(
                            initially_alive_cells@,
                            origin,
                            r as int,
                            cc,
                        )),
                decreases size - c,
            {
                let alive = seeds_contain(&initially_alive_cells, origin, r, c);
                if alive {
                    row.push(CellState::Alive);
                } else {
                    row.push(CellState::Dead);
                }
                c = c + 1;
            }
            cells.push(row);
            r = r + 1;
        }
        let state = GameState { cycle: 0, cells };
        proof {
            assert forall|rr: int| 0 <= rr < state.size() implies (#[trigger] state.grid()[rr])
                == state.cells@[rr]@ by {}
        }
        Ok(state)
    }

    /// Derive the next generation from `from_state`: a freshly allocated grid
    /// of the same dimension, every cell computed from the current grid alone,
    /// and the cycle number advanced by one. The input is left unmodified.
    pub fn next_from(from_state: &GameState) -> (result: GameState)
        requires
            from_state.well_formed(),
            from_state.cycle < u64::MAX,
        ensures
            result.cycle == from_state.cycle + 1,
            result.size() == from_state.size(),
            result.well_formed(),
            result.grid() == next_grid(from_state.grid()),
    {
        let ghost g = from_state.grid();
        let size = from_state.cells.len();
        let mut cells: CellMap = Vec::new();
        let mut r: usize = 0;
        while r < size
            invariant
                from_state.well_formed(),
                g == from_state.grid(),
                size == from_state.cells@.len(),
                r <= size,
                cells@.len() == r,
                forall|rr: int| 0 <= rr < r ==> (#[trigger] cells@[rr]@) == next_grid(g)[rr],
            decreases size - r,
        {
            let mut row: Vec<CellState> = Vec::new();
            let mut c: usize = 0;
            while c < size
                invariant
                    from_state.well_formed(),
                    g == from_state.grid(),
                    size == from_state.cells@.len(),
                    r < size,
                    c <= size,
                    row@.len() == c,
                    forall|cc: int| 0 <= cc < c ==> (#[trigger] row@[cc]) == next_cell(
                        g,
                        r as int,
                        cc,
                    ),
                decreases size - c,
            {
                let n = count_neighbours_alive(r, c, &from_state.cells);
                proof {
                    assert(g[r as int] == from_state.cells@[r as int]@);
                    assert(g[r as int].len() == g.len());
                }
                let cell = from_state.cells[r][c];
                let new_cell = if n <= 1 || n >= 4 {
                    CellState::Dead
                } else if n == 3 && cell == CellState::Dead {
                    CellState::Alive
                } else {
                    cell
                };
                row.push(new_cell);
                c = c + 1;
            }
            proof {
                assert(row@ =~= next_grid(g)[r as int]);
            }
            cells.push(row);
            r = r + 1;
        }
        let next_state = GameState { cycle: from_state.cycle + 1, cells };
        proof {
            assert forall|rr: int| 0 <= rr < size implies (#[trigger] next_state.grid()[rr])
                == next_state.cells@[rr]@ by {}
            assert(next_state.grid() =~= next_grid(g));
        }
        next_state
    }
}

impl Clone for GameState {
    /// A deep copy: the same cycle number and a grid with the same contents,
    /// independently allocated.
    fn clone(&self) -> (result: Self)
        ensures
            result.cycle == self.cycle,
            result.grid() == self.grid(),
    {
        let mut cells: CellMap = Vec::new();
        let mut r: usize = 0;
        while r < self.cells.len()
            invariant
                r <= self.cells@.len(),
                cells@.len() == r,
                forall|rr: int| 0 <= rr < r ==> (#[trigger] cells@[rr]@) == self.cells@[rr]@,
            decreases self.cells@.len() - r,
        {
            let source_row = &self.cells[r];
            let mut row: Vec<CellState> = Vec::new();
            let mut c: usize = 0;
            while c < source_row.len()
                invariant
                    source_row@ == self.cells@[r as int]@,
                    r < self.cells@.len(),
                    c <= source_row@.len(),
                    row@.len() == c,
                    forall|cc: int| 0 <= cc < c ==> (#[trigger] row@[cc]) == source_row@[cc],
                decreases source_row@.len() - c,
            {
                row.push(source_row[c]);
                c = c + 1;
            }
            proof {
                assert(row@ =~= self.cells@[r as int]@);
            }
            cells.push(row);
            r = r + 1;
        }
        let copy = GameState { cycle: self.cycle, cells };
        proof {
            assert forall|rr: int| 0 <= rr < copy.cells@.len() implies (#[trigger] copy.grid()[rr])
                == copy.cells@[rr]@ by {}
            assert(copy.grid() =~= self.grid());
        }
        copy
    }
}

impl GameOfLife {
    /// Start a simulation from the initial generation that `GameState::new`
    /// builds from the same arguments, with the same rejections.
    pub fn new(game_size: GameSize, initially_alive_cells: Vec<Coord>, origin: Coord) -> (result:
        Result<GameOfLife, CreateError>)
        ensures
            game_size.0 == 0 <==> result == Err::<GameOfLife, CreateError>(
                CreateError::InvalidSize,
            ),
            (game_size.0 > 0 && exists|i: int|
                0 <= i < initially_alive_cells@.len() && !seed_in_bounds(
                    #[trigger] initially_alive_cells@[i],
                    origin,
                    game_size.0 as int,
                )) <==> result == Err::<GameOfLife, CreateError>(CreateError::OutOfBounds),
            result matches Ok(game) ==> is_initial_generation(
                game.game_state,
                game_size.0 as int,
                initially_alive_cells@,
                origin,
            ),
    {
        match GameState::new(game_size, initially_alive_cells, origin) {
            Ok(game_state) => Ok(GameOfLife { game_state }),
            Err(e) => Err(e),
        }
    }

    /// Advance the simulation by one generation and hand back an independent
    /// copy of the generation just produced.
    pub fn next(&mut self) -> (result: GameState)
        requires
            old(self).game_state.well_formed(),
            old(self).game_state.cycle < u64::MAX,
        ensures
            final(self).game_state.cycle == old(self).game_state.cycle + 1,
            final(self).game_state.well_formed(),
            final(self).game_state.grid() == next_grid(old(self).game_state.grid()),
            result.cycle == final(self).game_state.cycle,
            result.grid() == final(self).game_state.grid(),
    {
        self.game_state = GameState::next_from(&self.game_state);
        self.game_state.clone()
    }
}

/// Deriving the next generation is deterministic: two generations with the
/// same cycle number and the same grid are carried to the same cycle number
/// and the same grid.
pub proof fn lemma_next_generation_deterministic(g1: GameState, g2: GameState)
    requires
        g1.cycle == g2.cycle,
        g1.grid() == g2.grid(),
    ensures
        g1.cycle + 1 == g2.cycle + 1,
        next_grid(g1.grid()) == next_grid(g2.grid()),
{
}

/// A lone alive cell has no alive neighbors, so it dies of underpopulation,
/// and no dead cell sees more than one alive neighbor, so nothing is born:
/// the next grid is entirely dead, whatever the grid's dimension.
pub proof fn lemma_lone_cell_grid_dies(g: Seq<Seq<CellState>>, r0: int, c0: int)
    requires
        is_square(g),
        0 <= r0 < g.len(),
        0 <= c0 < g.len(),
        forall|r: int, c: int|
            0 <= r < g.len() && 0 <= c < g.len() ==> ((#[trigger] g[r][c]) == CellState::Alive
                <==> (r == r0 && c == c0)),
    ensures
        forall|r: int, c: int|
            0 <= r < g.len() && 0 <= c < g.len() ==> #[trigger] next_grid(g)[r][c]
                == CellState::Dead,
{
    assert forall|r: int, c: int|
        0 <= r < g.len() && 0 <= c < g.len() implies #[trigger] next_grid(g)[r][c]
        == CellState::Dead by {
        assert(neighbor_alive_count(g, r, c) <= 1);
    }
}

/// No birth at four alive neighbors: a dead cell with exactly four alive
/// neighbors stays dead (overpopulation applies from four upward).
pub proof fn lemma_no_birth_at_four(g: Seq<Seq<CellState>>, r: int, c: int)
    requires
        is_square(g),
        0 <= r < g.len(),
        0 <= c < g.len(),
        g[r][c] == CellState::Dead,
        neighbor_alive_count(g, r, c) == 4,
    ensures
        next_grid(g)[r][c] == CellState::Dead,
{
}

/// A two-by-two block of alive cells, fully interior to the grid and alone
/// in it, is a still life: the transition leaves the grid unchanged. Each
/// block cell has exactly three alive neighbors and survives, and no dead
/// cell sees exactly three alive neighbors, so nothing is born.
pub proof fn lemma_block_is_still(g: Seq<Seq<CellState>>, br: int, bc: int)
    requires
        is_square(g),
        g.len() >= 4,
        1 <= br && br + 1 <= g.len() - 2,
        1 <= bc && bc + 1 <= g.len() - 2,
        forall|r: int, c: int|
            0 <= r < g.len() && 0 <= c < g.len() ==> ((#[trigger] g[r][c]) == CellState::Alive
                <==> ((r == br || r == br + 1) && (c == bc || c == bc + 1))),
    ensures
        next_grid(g) == g,
{
    assert forall|r: int, c: int|
        0 <= r < g.len() && 0 <= c < g.len() implies #[trigger] next_grid(g)[r][c] == g[r][c] by {
        assert(g[r].len() == g.len());
    }
    assert forall|r: int| 0 <= r < g.len() implies #[trigger] next_grid(g)[r] == g[r] by {
        assert(g[r].len() == g.len());
        assert(next_grid(g)[r] =~= g[r]);
    }
    assert(next_grid(g) =~= g);
}

} // verus!
