use game_of_life::Cell;
use game_of_life::CycleSource;
use game_of_life::GridError;
use game_of_life::Universe;

/// A grid of the given dimensions with every cell dead: a resize to the
/// same width resets all content.
fn all_dead(width: u32, height: u32) -> Universe {
    let mut u = Universe::new(width, height).unwrap();
    u.set_width(width).unwrap();
    u
}

#[test]
fn construction_len_matches_dimensions() {
    let u = Universe::new(48, 48).unwrap();
    assert_eq!(u.width(), 48);
    assert_eq!(u.height(), 48);
    assert_eq!(u.cells().len(), 48 * 48);

    let v = Universe::new(5, 3).unwrap();
    assert_eq!(v.cells().len(), 15);
}

#[test]
fn construction_parity_seed() {
    let u = Universe::new(4, 2).unwrap();
    let expected = [
        Cell::Alive, // 0: even
        Cell::Dead,  // 1
        Cell::Alive, // 2: even
        Cell::Dead,  // 3
        Cell::Alive, // 4: even
        Cell::Dead,  // 5
        Cell::Alive, // 6: even
        Cell::Alive, // 7: multiple of 7
    ];
    assert_eq!(u.cells(), &expected[..]);
}

#[test]
fn construction_rejects_zero_dimension() {
    assert_eq!(Universe::new(0, 5).unwrap_err(), GridError::InvalidDimensions);
    assert_eq!(Universe::new(5, 0).unwrap_err(), GridError::InvalidDimensions);
    assert_eq!(Universe::new(0, 0).unwrap_err(), GridError::InvalidDimensions);
}

#[test]
fn random_construction_dimensions() {
    let mut rng = CycleSource::new(vec![true, false]);
    let u = Universe::new_random(3, 4, &mut rng).unwrap();
    assert_eq!(u.width(), 3);
    assert_eq!(u.height(), 4);
    assert_eq!(u.cells().len(), 12);
}

#[test]
fn random_construction_all_alive_source() {
    let mut rng = CycleSource::new(vec![true]);
    let u = Universe::new_random(3, 3, &mut rng).unwrap();
    assert!(u.cells().iter().all(|&c| c == Cell::Alive));
}

#[test]
fn corner_cells_are_toroidal_neighbors() {
    // Only the four corners of a 4x4 grid are alive. Through the wrap, the
    // corners are mutually adjacent along both rows and columns, so each
    // corner sees the other three as neighbors.
    let mut u = all_dead(4, 4);
    u.set_cells(&[(0, 0), (0, 3), (3, 0), (3, 3)]).unwrap();
    assert_eq!(u.live_neighbor_count(0, 0), 3);
    assert_eq!(u.live_neighbor_count(0, 3), 3);
    assert_eq!(u.live_neighbor_count(3, 0), 3);
    assert_eq!(u.live_neighbor_count(3, 3), 3);
    // A non-corner edge cell sees exactly the two corners beside it.
    assert_eq!(u.live_neighbor_count(0, 1), 2);
}

#[test]
fn single_cell_grid_counts_itself_through_the_wrap() {
    // On a 1x1 torus every neighbor offset wraps back to the cell itself,
    // so a lone alive cell counts 8 live neighbors.
    let mut u = all_dead(1, 1);
    u.toggle_cell(0, 0).unwrap();
    assert_eq!(u.live_neighbor_count(0, 0), 8);
}

#[test]
fn isolated_cell_dies_in_one_tick() {
    let mut u = all_dead(5, 5);
    u.toggle_cell(2, 2).unwrap();
    u.tick();
    assert!(u.cells().iter().all(|&c| c == Cell::Dead));

    // The same holds for a cell in the first position visited, which an
    // in-place update would corrupt before its neighbors were read.
    let mut v = all_dead(5, 5);
    v.toggle_cell(0, 0).unwrap();
    v.tick();
    assert!(v.cells().iter().all(|&c| c == Cell::Dead));
}

#[test]
fn block_is_a_still_life() {
    let mut u = all_dead(6, 6);
    u.set_cells(&[(2, 2), (2, 3), (3, 2), (3, 3)]).unwrap();
    let before = u.cells().to_vec();
    for _ in 0..5 {
        u.tick();
        assert_eq!(u.cells(), &before[..]);
    }
}

#[test]
fn blinker_oscillates_with_period_two() {
    let mut u = all_dead(5, 5);
    u.set_cells(&[(2, 1), (2, 2), (2, 3)]).unwrap();
    let horizontal = u.cells().to_vec();

    let mut v = all_dead(5, 5);
    v.set_cells(&[(1, 2), (2, 2), (3, 2)]).unwrap();
    let vertical = v.cells().to_vec();

    u.tick();
    assert_eq!(u.cells(), &vertical[..]);
    u.tick();
    assert_eq!(u.cells(), &horizontal[..]);
}

#[test]
fn toggle_cell_is_its_own_inverse() {
    let mut u = Universe::new(4, 4).unwrap();
    let before = u.cells().to_vec();
    u.toggle_cell(1, 2).unwrap();
    assert_ne!(u.cells(), &before[..]);
    u.toggle_cell(1, 2).unwrap();
    assert_eq!(u.cells(), &before[..]);
}

#[test]
fn toggle_cell_out_of_bounds_is_rejected() {
    let mut u = Universe::new(4, 4).unwrap();
    let before = u.cells().to_vec();
    assert_eq!(u.toggle_cell(4, 0).unwrap_err(), GridError::IndexOutOfBounds);
    assert_eq!(u.toggle_cell(0, 4).unwrap_err(), GridError::IndexOutOfBounds);
    assert_eq!(u.cells(), &before[..]);
}

#[test]
fn set_cells_activates_only_listed_cells() {
    let mut u = all_dead(4, 4);
    u.set_cells(&[(0, 1), (2, 3), (0, 1)]).unwrap();
    for row in 0..4 {
        for col in 0..4 {
            let i = u.index_of(row, col).unwrap();
            let expected = (row, col) == (0, 1) || (row, col) == (2, 3);
            assert_eq!(u.cells()[i] == Cell::Alive, expected);
        }
    }
}

#[test]
fn set_cells_out_of_bounds_entry_is_rejected() {
    let mut u = all_dead(4, 4);
    let before = u.cells().to_vec();
    let r = u.set_cells(&[(0, 1), (4, 0)]);
    assert_eq!(r.unwrap_err(), GridError::IndexOutOfBounds);
    assert_eq!(u.cells(), &before[..]);
}

#[test]
fn inject_with_zero_size_is_a_noop() {
    let mut u = Universe::new(5, 5).unwrap();
    let before = u.cells().to_vec();
    let mut rng = CycleSource::new(vec![true, false, true]);
    u.inject_random_cells(2, 2, 0, &mut rng);
    assert_eq!(u.cells(), &before[..]);
    u.inject_random_cells(2, 2, -3, &mut rng);
    assert_eq!(u.cells(), &before[..]);
}

#[test]
fn inject_wraps_negative_offsets() {
    // Center (0, 0) with size 1 covers offsets -1 and 0 in each direction,
    // so the wrapped targets on a 5x5 grid are rows {4, 0} x cols {4, 0}.
    let mut u = all_dead(5, 5);
    let mut rng = CycleSource::new(vec![true]);
    u.inject_random_cells(0, 0, 1, &mut rng);
    for row in 0..5 {
        for col in 0..5 {
            let i = u.index_of(row, col).unwrap();
            let in_patch = (row == 4 || row == 0) && (col == 4 || col == 0);
            assert_eq!(u.cells()[i] == Cell::Alive, in_patch);
        }
    }
}

#[test]
fn resize_resets_content() {
    let mut u = Universe::new(4, 4).unwrap();
    assert!(u.cells().iter().any(|&c| c == Cell::Alive));
    u.set_width(6).unwrap();
    assert_eq!(u.width(), 6);
    assert_eq!(u.height(), 4);
    assert_eq!(u.cells().len(), 24);
    assert!(u.cells().iter().all(|&c| c == Cell::Dead));

    let mut v = Universe::new(4, 4).unwrap();
    v.set_height(2).unwrap();
    assert_eq!(v.width(), 4);
    assert_eq!(v.height(), 2);
    assert_eq!(v.cells().len(), 8);
    assert!(v.cells().iter().all(|&c| c == Cell::Dead));
}

#[test]
fn resize_to_zero_is_rejected() {
    let mut u = Universe::new(4, 4).unwrap();
    let before = u.cells().to_vec();
    assert_eq!(u.set_width(0).unwrap_err(), GridError::InvalidDimensions);
    assert_eq!(u.set_height(0).unwrap_err(), GridError::InvalidDimensions);
    assert_eq!(u.width(), 4);
    assert_eq!(u.height(), 4);
    assert_eq!(u.cells(), &before[..]);
}

#[test]
fn index_of_and_reconstruction_are_consistent() {
    let u = Universe::new(5, 7).unwrap();
    for row in 0..7u32 {
        for col in 0..5u32 {
            let i = u.index_of(row, col).unwrap();
            assert_eq!(i, (row * 5 + col) as usize);
            assert_eq!((i / 5) as u32, row);
            assert_eq!((i % 5) as u32, col);
        }
    }
    assert_eq!(u.index_of(7, 0).unwrap_err(), GridError::IndexOutOfBounds);
    assert_eq!(u.index_of(0, 5).unwrap_err(), GridError::IndexOutOfBounds);
}

#[test]
fn get_cells_matches_cells() {
    let u = Universe::new(3, 3).unwrap();
    assert_eq!(u.cells(), u.get_cells());
}

#[test]
fn render_draws_glyph_rows() {
    let mut u = all_dead(3, 2);
    u.set_cells(&[(0, 0), (1, 2)]).unwrap();
    assert_eq!(u.text_render(), "\u{25fc}\u{25fb}\u{25fb}\n\u{25fb}\u{25fb}\u{25fc}\n");
}

#[test]
fn render_parity_grid() {
    let u = Universe::new(2, 2).unwrap();
    // Flat parity seeding: alive, dead, alive, dead.
    assert_eq!(u.text_render(), "\u{25fc}\u{25fb}\n\u{25fc}\u{25fb}\n");
}
