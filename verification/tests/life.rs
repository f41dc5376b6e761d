use game_of_life::game::CreateError;
use game_of_life::game::GameOfLife;
use game_of_life::game::GameSize;
use game_of_life::game::GameState;
use game_of_life::grid::CellState;
use game_of_life::neighbors::get_valid_indices;
use game_of_life::render::u64_to_dec;

fn alive_set(state: &GameState) -> Vec<(usize, usize)> {
    let mut alive = Vec::new();
    for (r, row) in state.cells.iter().enumerate() {
        for (c, cell) in row.iter().enumerate() {
            if *cell == CellState::Alive {
                alive.push((r, c));
            }
        }
    }
    alive
}

#[test]
fn should_return_correct_neighbours() {
    assert_eq!(get_valid_indices(0, 0, 4), vec![(0, 1), (1, 0), (1, 1)]);
    assert_eq!(get_valid_indices(3, 0, 4), vec![(3, 1), (2, 0), (2, 1)]);
    assert_eq!(get_valid_indices(0, 3, 4), vec![(0, 2), (1, 3), (1, 2)]);
    assert_eq!(get_valid_indices(3, 3, 4), vec![(3, 2), (2, 3), (2, 2)]);
    assert_eq!(
        get_valid_indices(2, 2, 5),
        vec![(2, 3), (2, 1), (1, 2), (3, 2), (1, 1), (3, 1), (1, 3), (3, 3)]
    );
}

#[test]
fn neighbour_counts_match_boundary_classification() {
    // Corners have 3 neighbors, non-corner edge cells 5, interior cells 8.
    for size in [2usize, 3, 4, 7] {
        for r in 0..size {
            for c in 0..size {
                let n = get_valid_indices(r, c, size).len();
                let r_edge = r == 0 || r == size - 1;
                let c_edge = c == 0 || c == size - 1;
                let expected = match (r_edge, c_edge) {
                    (true, true) => 3,
                    (false, false) => 8,
                    _ => 5,
                };
                assert_eq!(n, expected, "size {size}, cell ({r}, {c})");
            }
        }
    }
    // Every returned coordinate is in bounds.
    for (r, c) in get_valid_indices(0, 4, 5) {
        assert!(r < 5 && c < 5);
    }
    // A one-cell grid has no neighbors at all.
    assert_eq!(get_valid_indices(0, 0, 1), vec![]);
}

#[test]
fn next_generation_increments_cycle() {
    let state = GameState::new(GameSize(4), vec![(1, 1), (1, 2)], (0, 0)).unwrap();
    assert_eq!(state.cycle, 0);
    let next = GameState::next_from(&state);
    assert_eq!(next.cycle, 1);
    let after = GameState::next_from(&next);
    assert_eq!(after.cycle, 2);
}

#[test]
fn next_generation_is_deterministic() {
    let a = GameState::new(GameSize(6), vec![(1, 1), (2, 2), (2, 3), (3, 1)], (1, 1)).unwrap();
    let b = GameState::new(GameSize(6), vec![(1, 1), (2, 2), (2, 3), (3, 1)], (1, 1)).unwrap();
    let next_a = GameState::next_from(&a);
    let next_b = GameState::next_from(&b);
    assert_eq!(next_a.cycle, next_b.cycle);
    assert_eq!(next_a.cells, next_b.cells);
    // The input is left unmodified.
    assert_eq!(alive_set(&a), vec![(2, 2), (3, 3), (3, 4), (4, 2)]);
}

#[test]
fn block_is_a_still_life() {
    let state =
        GameState::new(GameSize(5), vec![(1, 1), (1, 2), (2, 1), (2, 2)], (0, 0)).unwrap();
    let next = GameState::next_from(&state);
    assert_eq!(next.cells, state.cells);
    assert_eq!(alive_set(&next), vec![(1, 1), (1, 2), (2, 1), (2, 2)]);
}

#[test]
fn blinker_oscillates() {
    let state = GameState::new(GameSize(5), vec![(1, 0), (2, 0), (3, 0)], (0, 1)).unwrap();
    assert_eq!(alive_set(&state), vec![(1, 1), (2, 1), (3, 1)]);
    let one = GameState::next_from(&state);
    assert_eq!(alive_set(&one), vec![(2, 0), (2, 1), (2, 2)]);
    let two = GameState::next_from(&one);
    assert_eq!(alive_set(&two), vec![(1, 1), (2, 1), (3, 1)]);
    assert_eq!(two.cycle, 2);
}

#[test]
fn isolated_cell_dies() {
    for size in [1usize, 2, 5] {
        let state = GameState::new(GameSize(size), vec![(0, 0)], (0, 0)).unwrap();
        assert_eq!(alive_set(&state), vec![(0, 0)]);
        let next = GameState::next_from(&state);
        assert_eq!(alive_set(&next), vec![], "size {size}");
    }
}

#[test]
fn no_birth_at_four_neighbours() {
    // The center of a 3x3 grid is dead and all four corners are alive: four
    // alive neighbors, so no birth.
    let state =
        GameState::new(GameSize(3), vec![(0, 0), (0, 2), (2, 0), (2, 2)], (0, 0)).unwrap();
    let next = GameState::next_from(&state);
    assert_eq!(next.cells[1][1], CellState::Dead);
}

#[test]
fn survival_on_two_or_three_neighbours() {
    // A vertical pair: each cell has one neighbor and dies.
    let pair = GameState::new(GameSize(4), vec![(1, 1), (2, 1)], (0, 0)).unwrap();
    assert_eq!(alive_set(&GameState::next_from(&pair)), vec![]);
    // In a block every cell has three neighbors and survives.
    let block = GameState::new(GameSize(4), vec![(0, 0), (0, 1), (1, 0), (1, 1)], (0, 0)).unwrap();
    assert_eq!(
        alive_set(&GameState::next_from(&block)),
        vec![(0, 0), (0, 1), (1, 0), (1, 1)]
    );
}

#[test]
fn zero_size_is_rejected() {
    let made = GameState::new(GameSize(0), vec![], (0, 0));
    assert_eq!(made.unwrap_err(), CreateError::InvalidSize);
    let game = GameOfLife::new(GameSize(0), vec![], (0, 0));
    assert_eq!(game.unwrap_err(), CreateError::InvalidSize);
}

#[test]
fn out_of_bounds_seed_is_rejected() {
    let direct = GameState::new(GameSize(3), vec![(0, 0), (3, 1)], (0, 0));
    assert_eq!(direct.unwrap_err(), CreateError::OutOfBounds);
    let offset = GameState::new(GameSize(3), vec![(1, 1)], (2, 0));
    assert_eq!(offset.unwrap_err(), CreateError::OutOfBounds);
    let huge = GameState::new(GameSize(3), vec![(usize::MAX, 0)], (1, 0));
    assert_eq!(huge.unwrap_err(), CreateError::OutOfBounds);
    let fits = GameState::new(GameSize(3), vec![(1, 1)], (1, 1));
    assert!(fits.is_ok());
}

#[test]
fn game_of_life_pulls_generations() {
    let mut game = GameOfLife::new(GameSize(5), vec![(1, 0), (2, 0), (3, 0)], (0, 1)).unwrap();
    let one = game.next();
    assert_eq!(one.cycle, 1);
    assert_eq!(alive_set(&one), vec![(2, 0), (2, 1), (2, 2)]);
    let two = game.next();
    assert_eq!(two.cycle, 2);
    assert_eq!(alive_set(&two), vec![(1, 1), (2, 1), (3, 1)]);
    // The handed-out generation is an independent copy.
    assert_eq!(game.game_state.cells, two.cells);
}

#[test]
fn clone_copies_the_generation() {
    let state = GameState::new(GameSize(3), vec![(0, 1), (2, 2)], (0, 0)).unwrap();
    let copy = state.clone();
    assert_eq!(copy.cycle, state.cycle);
    assert_eq!(copy.cells, state.cells);
}

#[test]
fn well_formedness_check() {
    let state = GameState::new(GameSize(4), vec![], (0, 0)).unwrap();
    assert!(state.is_well_formed());
    let ragged = GameState { cycle: 0, cells: vec![vec![CellState::Dead], vec![]] };
    assert!(!ragged.is_well_formed());
}

#[test]
fn renders_header_and_glyphs() {
    let state = GameState::new(GameSize(2), vec![(0, 0)], (0, 0)).unwrap();
    assert_eq!(state.render(), "cycle: 0\no \n  \n");
    let next = GameState::next_from(&state);
    assert_eq!(next.render(), "cycle: 1\n  \n  \n");
}

#[test]
fn renders_multi_digit_cycles() {
    assert_eq!(u64_to_dec(0), "0");
    assert_eq!(u64_to_dec(7), "7");
    assert_eq!(u64_to_dec(10), "10");
    assert_eq!(u64_to_dec(1903), "1903");
    assert_eq!(u64_to_dec(u64::MAX), "18446744073709551615");
    let state = GameState { cycle: 12, cells: vec![vec![CellState::Alive]] };
    assert_eq!(state.render(), "cycle: 12\no\n");
}
