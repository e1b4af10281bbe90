use game_of_life::Cell;
use game_of_life::OutOfRange;
use game_of_life::Universe;

fn alive_cells(u: &Universe) -> Vec<(u32, u32)> {
    let mut alive = Vec::new();
    for row in 0..u.height() {
        for col in 0..u.width() {
            let i = u.get_index(row, col);
            if u.cells()[i] == Cell::Alive {
                alive.push((row, col));
            }
        }
    }
    alive
}

#[test]
fn a_test() {
    /*
      0 1 2 3
    0 . . . .
    1 . O . .
    2 . O . .
    3 . O . .
    */
    let mut universe = Universe::new(4, 4);
    universe.set(1, 1, Cell::Alive).unwrap();
    universe.set(2, 1, Cell::Alive).unwrap();
    universe.set(3, 1, Cell::Alive).unwrap();
    assert_eq!(2, universe.live_neighbor_count(0, 0));
    assert_eq!(2, universe.live_neighbor_count(0, 1));
    assert_eq!(2, universe.live_neighbor_count(0, 2));
    assert_eq!(0, universe.live_neighbor_count(0, 3));
    assert_eq!(3, universe.live_neighbor_count(2, 2));
    assert_eq!(2, universe.live_neighbor_count(3, 0));

    universe.tick();
    /*
      0 1 2 3
    0 . . . .
    1 . . . .
    2 O O O .
    3 . . . .
    */
    // The vertical triple turns: (2, 0) and (2, 2) each had exactly three
    // live neighbors and are born, (2, 1) survives with two, and (1, 1)
    // and (3, 1) die with one live neighbor each.
    let i22 = universe.get_index(2, 2);
    assert_eq!(Cell::Alive, universe.cells()[i22]);
    let i20 = universe.get_index(2, 0);
    assert_eq!(Cell::Alive, universe.cells()[i20]);
    let i21 = universe.get_index(2, 1);
    assert_eq!(Cell::Alive, universe.cells()[i21]);
    let i11 = universe.get_index(1, 1);
    assert_eq!(Cell::Dead, universe.cells()[i11]);
    let i31 = universe.get_index(3, 1);
    assert_eq!(Cell::Dead, universe.cells()[i31]);
    assert_eq!(vec![(2, 0), (2, 1), (2, 2)], alive_cells(&universe));
}

#[test]
fn corner_count_wraps_around_every_edge() {
    // The eight toroidal neighbors of (0, 0) on a 4x4 grid.
    let neighbors = [
        (3, 3),
        (3, 0),
        (3, 1),
        (0, 3),
        (0, 1),
        (1, 3),
        (1, 0),
        (1, 1),
    ];
    let mut universe = Universe::new(4, 4);
    for &(row, col) in neighbors.iter() {
        universe.set(row, col, Cell::Alive).unwrap();
    }
    assert_eq!(8, universe.live_neighbor_count(0, 0));

    // The diagonally opposite corner alone is still seen from (0, 0).
    let mut lone = Universe::new(4, 4);
    lone.set(3, 3, Cell::Alive).unwrap();
    assert_eq!(1, lone.live_neighbor_count(0, 0));
    assert_eq!(0, lone.live_neighbor_count(1, 1));
}

#[test]
fn tick_reads_only_the_previous_generation() {
    // A horizontal triple. Were the buffer updated in place in row-major
    // order, (2, 1) would already be dead when (2, 2) is counted, and
    // (2, 2) would die with a single live neighbor. Read simultaneously,
    // (2, 2) keeps its two live neighbors and the triple turns vertical.
    let mut universe = Universe::new(5, 5);
    universe.set(2, 1, Cell::Alive).unwrap();
    universe.set(2, 2, Cell::Alive).unwrap();
    universe.set(2, 3, Cell::Alive).unwrap();

    universe.tick();
    assert_eq!(vec![(1, 2), (2, 2), (3, 2)], alive_cells(&universe));

    universe.tick();
    assert_eq!(vec![(2, 1), (2, 2), (2, 3)], alive_cells(&universe));
}

#[test]
fn block_is_a_still_life() {
    let mut universe = Universe::new(4, 4);
    universe.set(1, 1, Cell::Alive).unwrap();
    universe.set(1, 2, Cell::Alive).unwrap();
    universe.set(2, 1, Cell::Alive).unwrap();
    universe.set(2, 2, Cell::Alive).unwrap();
    universe.tick();
    universe.tick();
    assert_eq!(vec![(1, 1), (1, 2), (2, 1), (2, 2)], alive_cells(&universe));
}

#[test]
fn set_rejects_out_of_range_coordinates() {
    let mut universe = Universe::new(4, 4);
    assert_eq!(
        Err(OutOfRange { row: 4, column: 0 }),
        universe.set(4, 0, Cell::Alive)
    );
    assert_eq!(
        Err(OutOfRange { row: 0, column: 4 }),
        universe.set(0, 4, Cell::Alive)
    );
    assert_eq!(
        Err(OutOfRange { row: 9, column: 7 }),
        universe.set(9, 7, Cell::Alive)
    );
    // A failed set leaves the grid unmodified.
    assert!(alive_cells(&universe).is_empty());

    // Every in-range coordinate is written and observable.
    for row in 0..4 {
        for col in 0..4 {
            assert_eq!(Ok(()), universe.set(row, col, Cell::Alive));
            let i = universe.get_index(row, col);
            assert_eq!(Cell::Alive, universe.cells()[i]);
        }
    }
    assert_eq!(16, alive_cells(&universe).len());
}

#[test]
fn reset_gives_an_all_dead_grid_of_unchanged_dimensions() {
    let mut universe = Universe::create();
    universe.tick();
    universe.toggle_cell(5, 5);
    assert!(!alive_cells(&universe).is_empty());

    universe.reset();
    assert_eq!(64, universe.width());
    assert_eq!(64, universe.height());
    assert_eq!(64 * 64, universe.cells().len());
    assert!(alive_cells(&universe).is_empty());
}

#[test]
fn dead_grid_stays_dead() {
    let mut universe = Universe::new(6, 5);
    for _ in 0..10 {
        universe.tick();
        assert!(alive_cells(&universe).is_empty());
        assert_eq!(30, universe.cells().len());
    }
}

#[test]
fn generate_pattern_seeds_from_the_linear_index() {
    let mut universe = Universe::new(8, 8);
    universe.toggle_cell(3, 3);
    universe.generate_pattern();
    for i in 0..64usize {
        let expected = if i % 2 == 0 || i % 7 == 0 {
            Cell::Alive
        } else {
            Cell::Dead
        };
        assert_eq!(expected, universe.cells()[i]);
    }
}

#[test]
fn create_gives_the_seeded_default_grid() {
    let universe = Universe::create();
    assert_eq!(64, universe.width());
    assert_eq!(64, universe.height());
    assert_eq!(64 * 64, universe.cells().len());
    for i in 0..(64 * 64_usize) {
        let expected = if i % 2 == 0 || i % 7 == 0 {
            Cell::Alive
        } else {
            Cell::Dead
        };
        assert_eq!(expected, universe.cells()[i]);
    }
}

#[test]
fn toggle_cell_flips_one_cell() {
    let mut universe = Universe::new(3, 3);
    universe.toggle_cell(1, 2);
    assert_eq!(vec![(1, 2)], alive_cells(&universe));
    universe.toggle_cell(0, 0);
    assert_eq!(vec![(0, 0), (1, 2)], alive_cells(&universe));
    universe.toggle_cell(1, 2);
    assert_eq!(vec![(0, 0)], alive_cells(&universe));
}

#[test]
fn render_draws_one_line_per_row() {
    let mut universe = Universe::new(2, 2);
    assert_eq!("◻◻\n◻◻\n", universe.render());
    universe.set(0, 0, Cell::Alive).unwrap();
    assert_eq!("◼◻\n◻◻\n", universe.render());
    universe.set(1, 1, Cell::Alive).unwrap();
    assert_eq!("◼◻\n◻◼\n", universe.render());

    let mut tall = Universe::new(1, 3);
    tall.set(1, 0, Cell::Alive).unwrap();
    assert_eq!("◻\n◼\n◻\n", tall.render());
}

#[test]
fn dimension_accessors_report_the_construction_size() {
    let universe = Universe::new(7, 3);
    assert_eq!(7, universe.width());
    assert_eq!(3, universe.height());
    assert_eq!(21, universe.cells().len());
}
