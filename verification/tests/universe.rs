use game_of_life::cell::Cell;
use game_of_life::universe::Universe;

/// One flip per cell, all with the same value.
fn uniform_flips(n: usize, v: bool) -> Vec<bool> {
    vec![v; n]
}

/// A settled universe whose live cells are exactly the listed (row, column)
/// positions: the listed cells start growing, all others dying, and one tick
/// settles the grid.
fn settled(width: u32, height: u32, alive: &[(u32, u32)]) -> Universe {
    let mut flips = vec![false; (width * height) as usize];
    for &(r, c) in alive {
        flips[(r * width + c) as usize] = true;
    }
    let mut u = Universe::new(width, height, &flips);
    u.tick();
    u
}

#[test]
fn cell_values_match_the_renderer_encoding() {
    assert_eq!(Cell::Dead.value(), 0);
    assert_eq!(Cell::Growing.value(), 1);
    assert_eq!(Cell::Dying.value(), 6);
    assert_eq!(Cell::Alive.value(), 7);
}

#[test]
fn new_starts_every_cell_in_transition() {
    let flips = vec![true, false, false, true];
    let u = Universe::new(2, 2, &flips);
    let cells = u.cells();
    assert_eq!(
        cells.as_slice(),
        &[Cell::Growing, Cell::Dying, Cell::Dying, Cell::Growing]
    );
}

#[test]
fn grid_size_invariant_across_all_operations() {
    let flips = uniform_flips(12, true);
    let mut u = Universe::new(4, 3, &flips);
    assert_eq!(u.width(), 4);
    assert_eq!(u.height(), 3);
    assert_eq!(u.cells().len(), 12);
    u.tick();
    assert_eq!((u.width(), u.height(), u.cells().len()), (4, 3, 12));
    u.tock();
    assert_eq!((u.width(), u.height(), u.cells().len()), (4, 3, 12));
    u.reset(&uniform_flips(12, false));
    assert_eq!((u.width(), u.height(), u.cells().len()), (4, 3, 12));
}

#[test]
fn tick_settles_growing_to_alive_and_dying_to_dead() {
    let flips = vec![true, false, true, false];
    let mut u = Universe::new(2, 2, &flips);
    u.tick();
    assert_eq!(
        u.cells().as_slice(),
        &[Cell::Alive, Cell::Dead, Cell::Alive, Cell::Dead]
    );
}

#[test]
fn tick_leaves_a_settled_grid_unchanged() {
    let mut u = settled(4, 4, &[(0, 0), (1, 2), (3, 3)]);
    let before = u.cells().clone();
    u.tick();
    assert_eq!(u.cells(), &before);
}

#[test]
fn neighbor_count_stays_in_range() {
    let u = settled(
        3,
        3,
        &[
            (0, 0),
            (0, 1),
            (0, 2),
            (1, 0),
            (1, 1),
            (1, 2),
            (2, 0),
            (2, 1),
            (2, 2),
        ],
    );
    for row in 0..3 {
        for col in 0..3 {
            let count = u.live_neighbor_count(row, col);
            assert!(count <= 8);
            // on a fully live torus every cell sees the maximum
            assert_eq!(count, 8);
        }
    }
}

#[test]
fn neighbor_count_wraps_diagonally_around_the_torus() {
    let u = settled(4, 4, &[(0, 0), (3, 3)]);
    assert_eq!(u.live_neighbor_count(0, 0), 1);
    assert_eq!(u.live_neighbor_count(3, 3), 1);
}

#[test]
fn lone_center_cell_starts_dying_of_underpopulation() {
    let mut u = settled(3, 3, &[(1, 1)]);
    let changed = u.tock();
    assert_eq!(u.cells()[4], Cell::Dying);
    assert_eq!(u.cells()[4].value(), 6);
    // no cell matched a life-sustaining rule: the flag reports those rules,
    // not whether any value changed
    assert!(!changed);
    for (i, &c) in u.cells().iter().enumerate() {
        if i != 4 {
            assert_eq!(c, Cell::Dead);
        }
    }
}

#[test]
fn dead_cell_with_three_live_neighbors_starts_growing() {
    let mut u = settled(5, 5, &[(1, 1), (1, 2), (1, 3)]);
    let changed = u.tock();
    assert!(changed);
    // the dead cells just above and below the row's middle see all three
    assert_eq!(u.cells()[(0 * 5 + 2) as usize], Cell::Growing);
    assert_eq!(u.cells()[(2 * 5 + 2) as usize], Cell::Growing);
    assert_eq!(u.cells()[(0 * 5 + 2) as usize].value(), 1);
}

#[test]
fn still_life_block_stays_alive_and_reports_sustained() {
    let block = [(1, 1), (1, 2), (2, 1), (2, 2)];
    let mut u = settled(4, 4, &block);
    let changed = u.tock();
    assert!(changed);
    for row in 0..4 {
        for col in 0..4 {
            let expected = if block.contains(&(row, col)) {
                Cell::Alive
            } else {
                Cell::Dead
            };
            assert_eq!(u.cells()[(row * 4 + col) as usize], expected);
        }
    }
}

#[test]
fn blinker_oscillates_one_generation() {
    // a vertical blinker turns horizontal after one full generation
    let mut u = settled(5, 5, &[(1, 2), (2, 2), (3, 2)]);
    let changed = u.tock();
    assert!(changed);
    u.tick();
    for row in 0..5 {
        for col in 0..5 {
            let expected = if row == 2 && (1..=3).contains(&col) {
                Cell::Alive
            } else {
                Cell::Dead
            };
            assert_eq!(u.cells()[(row * 5 + col) as usize], expected);
        }
    }
}

#[test]
fn is_dead_exactly_when_every_cell_is_dead() {
    let mut u = Universe::new(3, 2, &uniform_flips(6, false));
    // all cells are dying: not yet dead
    assert!(!u.is_dead());
    u.tick();
    assert!(u.is_dead());
    let v = settled(3, 2, &[(1, 2)]);
    assert!(!v.is_dead());
}

#[test]
fn overcrowded_grid_goes_extinct_in_one_generation() {
    // every cell starts growing; once settled, each live cell sees eight
    // live neighbors, starts dying, and the next settling kills it
    let mut u = Universe::new(3, 3, &uniform_flips(9, true));
    u.tick();
    let changed = u.tock();
    assert!(!changed);
    u.tick();
    assert!(u.is_dead());
}

#[test]
fn rule_phase_sends_unsettled_cells_to_dead() {
    // run the rule phase on a grid the settling phase has not prepared:
    // the defensive default applies and every transitional cell dies
    let mut u = Universe::new(2, 2, &vec![true, true, false, false]);
    let changed = u.tock();
    assert!(!changed);
    assert!(u.is_dead());
}

#[test]
fn reset_overwrites_cells_without_resizing() {
    let mut u = settled(4, 3, &[(0, 0), (2, 3)]);
    let flips = vec![
        true, false, true, false, true, false, true, false, true, false, true, false,
    ];
    u.reset(&flips);
    assert_eq!(u.width(), 4);
    assert_eq!(u.height(), 3);
    assert_eq!(u.cells().len(), 12);
    for i in 0..12 {
        let expected = if flips[i] { Cell::Growing } else { Cell::Dying };
        assert_eq!(u.cells()[i], expected);
    }
}
