use game_of_life::{Cell, GliderDirection, GridError, StartMode, Universe};

fn blank(rows: u32, columns: u32) -> Universe {
    Universe::populate(Universe::new(rows, columns).unwrap(), StartMode::Blank)
}

fn with_alive(rows: u32, columns: u32, alive: &[(u32, u32)]) -> Universe {
    let mut u = blank(rows, columns);
    for &(r, c) in alive {
        assert_eq!(u.toggle_cell(r, c), Ok(Cell::Alive));
    }
    u
}

fn alive_cells(u: &Universe) -> Vec<(u32, u32)> {
    let mut out = Vec::new();
    for r in 0..u.rows() {
        for c in 0..u.columns() {
            if u.cells()[(r * u.columns() + c) as usize] == Cell::Alive {
                out.push((r, c));
            }
        }
    }
    out
}

fn at(u: &Universe, r: u32, c: u32) -> (Cell, u8) {
    let i = (r * u.columns() + c) as usize;
    (u.cells()[i], u.cells_changed()[i])
}

#[test]
fn new_grid_is_dead_and_untagged() {
    let u = Universe::new(3, 4).unwrap();
    assert_eq!(u.rows(), 3);
    assert_eq!(u.columns(), 4);
    assert_eq!(u.cells().len(), 12);
    assert!(u.cells().iter().all(|&c| c == Cell::Dead));
    assert_eq!(u.cells_changed(), &[0u8; 12][..]);
}

#[test]
fn new_refuses_bad_dimensions() {
    assert_eq!(Universe::new(0, 5).err(), Some(GridError::EmptyDimension));
    assert_eq!(Universe::new(5, 0).err(), Some(GridError::EmptyDimension));
    assert_eq!(Universe::new(65536, 65536).err(), Some(GridError::TooManyCells));
    assert!(Universe::new(1, 1).is_ok());
}

#[test]
fn blank_population_tags_every_cell_died() {
    let u = blank(5, 7);
    assert!(u.cells().iter().all(|&c| c == Cell::Dead));
    assert!(u.cells_changed().iter().all(|&t| t == 1));
    assert_eq!(u.cells_changed().len(), 35);
}

#[test]
fn population_from_draws_follows_each_draw() {
    let draws: Vec<u32> = vec![0, 1, 9, 0, 5, 3];
    let u = Universe::populate_from_draws(Universe::new(2, 3).unwrap(), &draws);
    let expected = [Cell::Alive, Cell::Dead, Cell::Dead, Cell::Alive, Cell::Dead, Cell::Dead];
    assert_eq!(u.cells(), &expected[..]);
    assert_eq!(u.cells_changed(), &[2u8, 1, 1, 2, 1, 1][..]);
}

#[test]
fn random_population_is_about_one_in_ten() {
    let u = Universe::populate(Universe::new(100, 100).unwrap(), StartMode::Random);
    let alive = u.cells().iter().filter(|&&c| c == Cell::Alive).count();
    let fraction = alive as f64 / 10000.0;
    assert!(fraction > 0.05 && fraction < 0.15, "fraction {}", fraction);
    for (c, t) in u.cells().iter().zip(u.cells_changed()) {
        match c {
            Cell::Alive => assert_eq!(*t, 2),
            Cell::Dead => assert_eq!(*t, 1),
        }
    }
}

#[test]
fn neighbours_wrap_over_both_edges() {
    // (0, 0) on a 3x3 torus sees (2, 2), (2, 1) and (1, 2) only through the edges.
    let mut u = with_alive(3, 3, &[(2, 2), (2, 1), (1, 2)]);
    u.tick();
    assert_eq!(at(&u, 0, 0), (Cell::Alive, 2));
}

#[test]
fn corner_counts_all_eight_cells_on_three_by_three() {
    // Every other cell alive: the corner has eight live neighbours and stays dead.
    let others = [(0, 1), (0, 2), (1, 0), (1, 1), (1, 2), (2, 0), (2, 1), (2, 2)];
    let mut u = with_alive(3, 3, &others);
    u.tick();
    assert_eq!(at(&u, 0, 0), (Cell::Dead, 0));
    // Each other cell also has eight live neighbours but one: seven, so it dies.
    for &(r, c) in &others {
        assert_eq!(at(&u, r, c), (Cell::Dead, 1));
    }
}

#[test]
fn lonely_cell_dies() {
    let mut u = with_alive(5, 5, &[(2, 2)]);
    u.tick();
    assert_eq!(at(&u, 2, 2), (Cell::Dead, 1));
    assert!(alive_cells(&u).is_empty());
}

#[test]
fn dead_cell_with_three_neighbours_is_born() {
    let mut u = with_alive(6, 6, &[(1, 2), (2, 1), (2, 3)]);
    u.tick();
    assert_eq!(at(&u, 2, 2), (Cell::Alive, 2));
}

#[test]
fn dead_cell_with_two_or_four_neighbours_stays_dead() {
    let mut two = with_alive(6, 6, &[(1, 2), (3, 2)]);
    two.tick();
    assert_eq!(at(&two, 2, 2), (Cell::Dead, 0));

    let mut four = with_alive(7, 7, &[(2, 2), (2, 4), (4, 2), (4, 4)]);
    four.tick();
    assert_eq!(at(&four, 3, 3), (Cell::Dead, 0));
}

#[test]
fn block_is_a_still_life() {
    for &(rows, columns, r, c) in &[(4u32, 4u32, 1u32, 1u32), (6, 8, 2, 5), (4, 4, 3, 3)] {
        let block = [(r, c), (r, (c + 1) % columns), ((r + 1) % rows, c), ((r + 1) % rows, (c + 1) % columns)];
        let mut u = with_alive(rows, columns, &block);
        let before = alive_cells(&u);
        u.tick();
        assert_eq!(alive_cells(&u), before);
        assert!(u.cells_changed().iter().all(|&t| t == 0));
    }
}

#[test]
fn blinker_turns_by_the_rule_table() {
    let mut u = with_alive(5, 5, &[(2, 1), (2, 2), (2, 3)]);
    u.tick();
    assert_eq!(alive_cells(&u), vec![(1, 2), (2, 2), (3, 2)]);
    assert_eq!(at(&u, 2, 1), (Cell::Dead, 1));
    assert_eq!(at(&u, 2, 3), (Cell::Dead, 1));
    assert_eq!(at(&u, 1, 2), (Cell::Alive, 2));
    assert_eq!(at(&u, 3, 2), (Cell::Alive, 2));
    assert_eq!(at(&u, 2, 2), (Cell::Alive, 0));
    assert_eq!(at(&u, 0, 0), (Cell::Dead, 0));
    u.tick();
    assert_eq!(alive_cells(&u), vec![(2, 1), (2, 2), (2, 3)]);
}

#[test]
fn toggle_cell_flips_and_leaves_tags() {
    let mut u = blank(3, 3);
    assert_eq!(u.toggle_cell(1, 2), Ok(Cell::Alive));
    assert_eq!(u.cells()[5], Cell::Alive);
    assert!(u.cells_changed().iter().all(|&t| t == 1));
    assert_eq!(u.toggle_cell(1, 2), Ok(Cell::Dead));
    assert_eq!(u.cells()[5], Cell::Dead);
    assert_eq!(u.toggle_cell(3, 0), Err(GridError::OutOfBounds));
    assert_eq!(u.toggle_cell(0, 3), Err(GridError::OutOfBounds));
}

#[test]
fn nw_glider_stamp_and_step() {
    let mut u = blank(8, 8);
    let g = u.toggle_glider(4, 4, GliderDirection::NW).unwrap();
    assert_eq!(g.indexes(), &[27usize, 28, 29, 35, 36, 37, 43, 44, 45][..]);
    let a = Cell::Alive;
    let o = Cell::Dead;
    assert_eq!(g.cells(), &[a, a, a, a, o, o, o, a, o][..]);
    assert_eq!(alive_cells(&u), vec![(3, 3), (3, 4), (3, 5), (4, 3), (5, 4)]);
    assert!(u.cells_changed().iter().all(|&t| t == 1));
    u.tick();
    assert_eq!(alive_cells(&u), vec![(2, 4), (3, 3), (3, 4), (4, 3), (4, 5)]);
}

#[test]
fn glider_stamp_overwrites_and_wraps() {
    let mut u = blank(5, 5);
    for r in 0..5 {
        for c in 0..5 {
            u.toggle_cell(r, c).unwrap();
        }
    }
    let g = u.toggle_glider(0, 0, GliderDirection::SE).unwrap();
    assert_eq!(g.indexes(), &[24usize, 20, 21, 4, 0, 1, 9, 5, 6][..]);
    let a = Cell::Alive;
    let o = Cell::Dead;
    assert_eq!(g.cells(), &[o, a, o, o, o, a, a, a, a][..]);
    for (i, c) in g.indexes().iter().zip(g.cells()) {
        assert_eq!(u.cells()[*i], *c);
    }
    assert_eq!(u.cells()[12], Cell::Alive);
    assert_eq!(u.toggle_glider(5, 0, GliderDirection::NW).err(), Some(GridError::OutOfBounds));
}

#[test]
fn glider_masks_for_each_direction() {
    let a = Cell::Alive;
    let o = Cell::Dead;
    let cases = [
        (GliderDirection::NE, [a, a, a, o, o, a, o, a, o]),
        (GliderDirection::SW, [o, a, o, a, o, o, a, a, a]),
        (GliderDirection::SE, [o, a, o, o, o, a, a, a, a]),
    ];
    for (d, mask) in cases {
        let mut u = blank(6, 6);
        let g = u.toggle_glider(2, 2, d).unwrap();
        assert_eq!(g.cells(), &mask[..]);
        assert_eq!(g.indexes(), &[7usize, 8, 9, 13, 14, 15, 19, 20, 21][..]);
    }
}

#[test]
fn glider_stamp_on_one_row_grid_keeps_last_write() {
    // With one row, the rows above and below are the row itself: the last
    // writes of the stamp win.
    let mut u = blank(1, 3);
    let g = u.toggle_glider(0, 1, GliderDirection::NW).unwrap();
    assert_eq!(g.indexes(), &[0usize, 1, 2, 0, 1, 2, 0, 1, 2][..]);
    assert_eq!(u.cells(), &[Cell::Dead, Cell::Alive, Cell::Dead][..]);
}
