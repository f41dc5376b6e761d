//! Boundary-aware enumeration of a cell's neighbors, and the alive count.

use vstd::prelude::*;

use crate::grid::alive_at;
use crate::grid::grid_view;
use crate::grid::is_square;
use crate::grid::CellMap;
use crate::grid::CellState;
use crate::grid::Coord;

verus! {

/// A candidate neighbor position as a one-element sequence if it lies inside
/// the `size`-by-`size` grid, and an empty sequence otherwise.
pub open spec fn cand(r: int, c: int, size: int) -> Seq<(int, int)> {
    if 0 <= r < size && 0 <= c < size {
        seq![(r, c)]
    } else {
        Seq::empty()
    }
}

/// The in-bounds neighbors of `(row, col)`, in the order the enumeration
/// produces them: east, west, north, south, north-west, south-west,
/// north-east, south-east.
pub open spec fn valid_neighbors(row: int, col: int, size: int) -> Seq<(int, int)> {
    cand(row, col + 1, size) + cand(row, col - 1, size) + cand(row - 1, col, size) + cand(
        row + 1,
        col,
        size,
    ) + cand(row - 1, col - 1, size) + cand(row + 1, col - 1, size) + cand(row - 1, col + 1, size)
        + cand(row + 1, col + 1, size)
}

/// The next index toward the high edge, or `None` at the boundary.
pub fn checked_increment(index: usize, size: usize) -> (r: Option<usize>)
    requires
        index < size,
    ensures
        r == if index + 1 == size {
            None::<usize>
        } else {
            Some((index + 1) as usize)
        },
{
    if index + 1 == size {
        None
    } else {
        Some(index + 1)
    }
}

/// Enumerate the in-bounds neighbors of `(origin_row, origin_col)` among the
/// eight compass directions; positions outside `[0, size)` on either axis are
/// excluded, with no wraparound.
pub fn get_valid_indices(origin_row: usize, origin_col: usize, size: usize) -> (r: Vec<Coord>)
    requires
        origin_row < size,
        origin_col < size,
    ensures
        r@.map_values(|p: Coord| (p.0 as int, p.1 as int)) == valid_neighbors(
            origin_row as int,
            origin_col as int,
            size as int,
        ),
        forall|i: int| 0 <= i < r@.len() ==> (#[trigger] r@[i]).0 < size && r@[i].1 < size,
{
    let left = origin_col.checked_sub(1);
    let right = checked_increment(origin_col, size);
    let up = origin_row.checked_sub(1);
    let down = checked_increment(origin_row, size);

    let mut indices: Vec<Coord> = Vec::new();
    if let Some(c) = right {
        indices.push((origin_row, c));
    }
    if let Some(c) = left {
        indices.push((origin_row, c));
    }
    if let Some(r) = up {
        indices.push((r, origin_col));
    }
    if let Some(r) = down {
        indices.push((r, origin_col));
    }
    if let (Some(r), Some(c)) = (up, left) {
        indices.push((r, c));
    }
    if let (Some(r), Some(c)) = (down, left) {
        indices.push((r, c));
    }
    if let (Some(r), Some(c)) = (up, right) {
        indices.push((r, c));
    }
    if let (Some(r), Some(c)) = (down, right) {
        indices.push((r, c));
    }
    proof {
        assert(indices@.map_values(|p: Coord| (p.0 as int, p.1 as int)) =~= valid_neighbors(
            origin_row as int,
            origin_col as int,
            size as int,
        ));
    }
    indices
}

/// How many cells of `g` are alive among `(r - 1, c - 1)` through
/// `(r + 1, c + 1)`, the cell itself excluded; positions outside the grid
/// count as dead.
pub open spec fn neighbor_alive_count(g: Seq<Seq<CellState>>, r: int, c: int) -> int {
    alive_at(g, r, c + 1) + alive_at(g, r, c - 1) + alive_at(g, r - 1, c) + alive_at(g, r + 1, c)
        + alive_at(g, r - 1, c - 1) + alive_at(g, r + 1, c - 1) + alive_at(g, r - 1, c + 1)
        + alive_at(g, r + 1, c + 1)
}

/// How many of the positions in `ps` hold an alive cell of `g`.
pub open spec fn count_alive(g: Seq<Seq<CellState>>, ps: Seq<(int, int)>) -> int
    decreases ps.len(),
{
    if ps.len() == 0 {
        0
    } else {
        count_alive(g, ps.drop_last()) + alive_at(g, ps.last().0, ps.last().1)
    }
}

proof fn lemma_count_alive_concat(g: Seq<Seq<CellState>>, a: Seq<(int, int)>, b: Seq<(int, int)>)
    ensures
        count_alive(g, a + b) == count_alive(g, a) + count_alive(g, b),
    decreases b.len(),
{
    if b.len() == 0 {
        assert(a + b =~= a);
    } else {
        lemma_count_alive_concat(g, a, b.drop_last());
        assert((a + b).drop_last() =~= a + b.drop_last());
    }
}

proof fn lemma_count_alive_cand(g: Seq<Seq<CellState>>, r: int, c: int)
    requires
        is_square(g),
    ensures
        count_alive(g, cand(r, c, g.len() as int)) == alive_at(g, r, c),
{
    let size = g.len() as int;
    if 0 <= r < size && 0 <= c < size {
        assert(g[r].len() == g.len());
        assert(cand(r, c, size).drop_last() =~= Seq::<(int, int)>::empty());
        assert(count_alive(g, Seq::<(int, int)>::empty()) == 0);
        assert(cand(r, c, size).last() == (r, c));
    } else {
        if 0 <= r < size {
            assert(g[r].len() == g.len());
        }
    }
}

/// Counting the alive cells over the enumerated neighbor positions gives the
/// eight-direction alive count.
pub proof fn lemma_count_valid_neighbors(g: Seq<Seq<CellState>>, row: int, col: int)
    requires
        is_square(g),
        0 <= row < g.len(),
        0 <= col < g.len(),
    ensures
        count_alive(g, valid_neighbors(row, col, g.len() as int)) == neighbor_alive_count(
            g,
            row,
            col,
        ),
{
    let size = g.len() as int;
    let s1 = cand(row, col + 1, size);
    let s2 = s1 + cand(row, col - 1, size);
    let s3 = s2 + cand(row - 1, col, size);
    let s4 = s3 + cand(row + 1, col, size);
    let s5 = s4 + cand(row - 1, col - 1, size);
    let s6 = s5 + cand(row + 1, col - 1, size);
    let s7 = s6 + cand(row - 1, col + 1, size);
    let s8 = s7 + cand(row + 1, col + 1, size);
    lemma_count_alive_cand(g, row, col + 1);
    lemma_count_alive_cand(g, row, col - 1);
    lemma_count_alive_cand(g, row - 1, col);
    lemma_count_alive_cand(g, row + 1, col);
    lemma_count_alive_cand(g, row - 1, col - 1);
    lemma_count_alive_cand(g, row + 1, col - 1);
    lemma_count_alive_cand(g, row - 1, col + 1);
    lemma_count_alive_cand(g, row + 1, col + 1);
    lemma_count_alive_concat(g, s1, cand(row, col - 1, size));
    lemma_count_alive_concat(g, s2, cand(row - 1, col, size));
    lemma_count_alive_concat(g, s3, cand(row + 1, col, size));
    lemma_count_alive_concat(g, s4, cand(row - 1, col - 1, size));
    lemma_count_alive_concat(g, s5, cand(row + 1, col - 1, size));
    lemma_count_alive_concat(g, s6, cand(row - 1, col + 1, size));
    lemma_count_alive_concat(g, s7, cand(row + 1, col + 1, size));
    assert(valid_neighbors(row, col, size) == s8);
}

/// Count how many of the valid neighbors of `(origin_row, origin_col)` are
/// alive in the current grid.
pub fn count_neighbours_alive(origin_row: usize, origin_col: usize, cells: &CellMap) -> (n: usize)
    requires
        is_square(grid_view(cells)),
        origin_row < cells@.len(),
        origin_col < cells@.len(),
    ensures
        n == neighbor_alive_count(grid_view(cells), origin_row as int, origin_col as int),
{
    let ghost g = grid_view(cells);
    let size = cells.len();
    let valid_indices = get_valid_indices(origin_row, origin_col, size);
    let ghost vn = valid_neighbors(origin_row as int, origin_col as int, size as int);

    let mut n: usize = 0;
    let mut i: usize = 0;
    while i < valid_indices.len()
        invariant
            is_square(g),
            g == grid_view(cells),
            g.len() == size,
            valid_indices@.map_values(|p: Coord| (p.0 as int, p.1 as int)) == vn,
            forall|k: int|
                0 <= k < valid_indices@.len() ==> (#[trigger] valid_indices@[k]).0 < size
                    && valid_indices@[k].1 < size,
            i <= valid_indices@.len(),
            n <= i,
            n == count_alive(g, vn.take(i as int)),
        decreases valid_indices@.len() - i,
    {
        let (r, c) = valid_indices[i];
        proof {
            assert(vn[i as int] == (r as int, c as int));
            assert(vn.take(i + 1).drop_last() =~= vn.take(i as int));
            assert(g[r as int] == cells@[r as int]@);
            assert(g[r as int].len() == g.len());
        }
        if cells[r][c] == CellState::Alive {
            n = n + 1;
        }
        i = i + 1;
    }
    proof {
        assert(vn.take(valid_indices@.len() as int) =~= vn);
        lemma_count_valid_neighbors(g, origin_row as int, origin_col as int);
    }
    n
}

/// Whether `(nr, nc)` is one of the eight compass-direction positions around
/// `(row, col)`.
pub open spec fn is_adjacent(row: int, col: int, nr: int, nc: int) -> bool {
    &&& (nr == row - 1 || nr == row || nr == row + 1)
    &&& (nc == col - 1 || nc == col || nc == col + 1)
    &&& !(nr == row && nc == col)
}

/// The enumeration holds exactly the adjacent positions that lie inside the
/// grid: nothing is missed and nothing out of bounds is included.
pub proof fn lemma_valid_neighbors_membership(row: int, col: int, size: int)
    requires
        0 <= row < size,
        0 <= col < size,
    ensures
        forall|nr: int, nc: int|
            valid_neighbors(row, col, size).contains((nr, nc)) <==> (is_adjacent(row, col, nr, nc)
                && 0 <= nr < size && 0 <= nc < size),
{
    let vn = valid_neighbors(row, col, size);
    assert forall|nr: int, nc: int|
        is_adjacent(row, col, nr, nc) && 0 <= nr < size && 0 <= nc
            < size implies vn.contains((nr, nc)) by {
        let p = (nr, nc);
        let l1 = cand(row, col + 1, size).len();
        let l2 = cand(row, col - 1, size).len();
        let l3 = cand(row - 1, col, size).len();
        let l4 = cand(row + 1, col, size).len();
        let l5 = cand(row - 1, col - 1, size).len();
        let l6 = cand(row + 1, col - 1, size).len();
        let l7 = cand(row - 1, col + 1, size).len();
        if nr == row && nc == col + 1 {
            assert(vn[0] == p);
        } else if nr == row && nc == col - 1 {
            assert(vn[l1 as int] == p);
        } else if nr == row - 1 && nc == col {
            assert(vn[(l1 + l2) as int] == p);
        } else if nr == row + 1 && nc == col {
            assert(vn[(l1 + l2 + l3) as int] == p);
        } else if nr == row - 1 && nc == col - 1 {
            assert(vn[(l1 + l2 + l3 + l4) as int] == p);
        } else if nr == row + 1 && nc == col - 1 {
            assert(vn[(l1 + l2 + l3 + l4 + l5) as int] == p);
        } else if nr == row - 1 && nc == col + 1 {
            assert(vn[(l1 + l2 + l3 + l4 + l5 + l6) as int] == p);
        } else {
            assert(vn[(l1 + l2 + l3 + l4 + l5 + l6 + l7) as int] == p);
        }
    }
}

/// The enumerated neighbor positions are pairwise distinct, so their number
/// is also the cardinality of the neighbor set.
pub proof fn lemma_valid_neighbors_distinct(row: int, col: int, size: int)
    ensures
        forall|i: int, j: int|
            0 <= i < j < valid_neighbors(row, col, size).len() ==> #[trigger] valid_neighbors(
                row,
                col,
                size,
            )[i] != #[trigger] valid_neighbors(row, col, size)[j],
{
}

/// Boundary classification of the neighbor enumeration: a corner cell of a
/// grid with at least two rows has exactly 3 valid neighbors, a non-corner
/// edge cell has exactly 5, and an interior cell has exactly 8.
pub proof fn lemma_neighbor_classification(row: int, col: int, size: int)
    requires
        0 <= row < size,
        0 <= col < size,
    ensures
        (size >= 2 && (row == 0 || row == size - 1) && (col == 0 || col == size - 1))
            ==> valid_neighbors(row, col, size).len() == 3,
        ((row == 0 || row == size - 1) && 0 < col < size - 1) ==> valid_neighbors(
            row,
            col,
            size,
        ).len() == 5,
        ((col == 0 || col == size - 1) && 0 < row < size - 1) ==> valid_neighbors(
            row,
            col,
            size,
        ).len() == 5,
        (0 < row < size - 1 && 0 < col < size - 1) ==> valid_neighbors(row, col, size).len() == 8,
{
}

} // verus!

