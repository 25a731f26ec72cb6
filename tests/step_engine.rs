use gameoflife::grid::{count_neighbors, index, step, Grid};

fn alive_cells(g: &Grid) -> Vec<(usize, usize)> {
    let mut out = Vec::new();
    for y in 0..g.height {
        for x in 0..g.width {
            if g.get(x, y) {
                out.push((x, y));
            }
        }
    }
    out
}

fn grid_with(width: usize, height: usize, cells: &[(usize, usize)]) -> Grid {
    let mut g = Grid::new(width, height);
    for &(x, y) in cells {
        g.set(x, y, true);
    }
    g
}

#[test]
fn index_is_row_major() {
    assert_eq!(index(100, 0, 0), 0);
    assert_eq!(index(100, 7, 0), 7);
    assert_eq!(index(100, 3, 2), 203);
    assert_eq!(index(5, 4, 4), 24);
}

#[test]
fn new_grid_is_all_dead() {
    let g = Grid::new(7, 4);
    assert_eq!(g.width, 7);
    assert_eq!(g.height, 4);
    assert_eq!(g.cells.len(), 28);
    assert_eq!(g.next.len(), 28);
    assert!(alive_cells(&g).is_empty());
}

#[test]
fn set_changes_one_cell() {
    let mut g = Grid::new(4, 3);
    g.set(2, 1, true);
    assert!(g.get(2, 1));
    assert!(g.cells[6]);
    assert_eq!(alive_cells(&g), vec![(2, 1)]);
    g.set(2, 1, false);
    assert!(alive_cells(&g).is_empty());
}

#[test]
fn swap_exchanges_buffers() {
    let mut g = Grid::new(3, 3);
    g.set(1, 1, true);
    g.next[0] = true;
    g.swap();
    assert!(g.cells[0]);
    assert!(!g.cells[4]);
    assert!(g.next[4]);
    assert!(!g.next[0]);
}

#[test]
fn count_neighbors_interior() {
    let g = grid_with(10, 10, &[(4, 4), (5, 4), (6, 4), (5, 5), (3, 3), (7, 7)]);
    assert_eq!(count_neighbors(&g, 5, 4), 3);
    assert_eq!(count_neighbors(&g, 4, 4), 3);
    assert_eq!(count_neighbors(&g, 5, 5), 3);
    assert_eq!(count_neighbors(&g, 0, 0), 0);
    assert_eq!(count_neighbors(&g, 6, 6), 2);
}

#[test]
fn count_neighbors_wraps_columns() {
    let mut g = Grid::new(10, 10);
    assert_eq!(count_neighbors(&g, 0, 5), 0);
    g.set(9, 4, true);
    assert_eq!(count_neighbors(&g, 0, 5), 1);
    g.set(9, 5, true);
    assert_eq!(count_neighbors(&g, 0, 5), 2);
    g.set(9, 6, true);
    assert_eq!(count_neighbors(&g, 0, 5), 3);
    assert_eq!(count_neighbors(&g, 9, 5), 2);
    g.set(9, 8, true);
    assert_eq!(count_neighbors(&g, 0, 5), 3);
}

#[test]
fn count_neighbors_wraps_rows() {
    let mut g = Grid::new(10, 10);
    g.set(3, 9, true);
    assert_eq!(count_neighbors(&g, 3, 0), 1);
    assert_eq!(count_neighbors(&g, 2, 0), 1);
    assert_eq!(count_neighbors(&g, 4, 0), 1);
    assert_eq!(count_neighbors(&g, 5, 0), 0);
}

#[test]
fn count_neighbors_wraps_corner() {
    let g = grid_with(6, 6, &[(5, 5)]);
    assert_eq!(count_neighbors(&g, 0, 0), 1);
    let g = grid_with(6, 6, &[(0, 0)]);
    assert_eq!(count_neighbors(&g, 5, 5), 1);
    assert_eq!(count_neighbors(&g, 5, 0), 1);
    assert_eq!(count_neighbors(&g, 0, 5), 1);
}

#[test]
fn count_neighbors_all_alive() {
    let mut g = Grid::new(5, 5);
    for y in 0..5 {
        for x in 0..5 {
            g.set(x, y, true);
        }
    }
    assert_eq!(count_neighbors(&g, 0, 0), 8);
    assert_eq!(count_neighbors(&g, 2, 2), 8);
}

#[test]
fn live_cell_survives_with_two_or_three() {
    // (2,2) alive with two neighbours
    let mut g = grid_with(8, 8, &[(2, 2), (1, 2), (3, 2)]);
    step(&mut g);
    assert!(g.get(2, 2));
    // (2,2) alive with three neighbours
    let mut g = grid_with(8, 8, &[(2, 2), (1, 1), (3, 1), (2, 3)]);
    step(&mut g);
    assert!(g.get(2, 2));
}

#[test]
fn live_cell_dies_otherwise() {
    // one neighbour
    let mut g = grid_with(8, 8, &[(2, 2), (3, 2)]);
    step(&mut g);
    assert!(!g.get(2, 2));
    // no neighbour
    let mut g = grid_with(8, 8, &[(2, 2)]);
    step(&mut g);
    assert!(!g.get(2, 2));
    // four neighbours
    let mut g = grid_with(8, 8, &[(2, 2), (1, 1), (3, 1), (1, 3), (3, 3)]);
    step(&mut g);
    assert!(!g.get(2, 2));
}

#[test]
fn dead_cell_born_with_exactly_three() {
    let mut g = grid_with(8, 8, &[(1, 1), (3, 1), (2, 3)]);
    step(&mut g);
    assert!(g.get(2, 2));
    let mut g = grid_with(8, 8, &[(1, 1), (3, 1)]);
    step(&mut g);
    assert!(!g.get(2, 2));
    let mut g = grid_with(8, 8, &[(1, 1), (3, 1), (1, 3), (3, 3)]);
    step(&mut g);
    assert!(!g.get(2, 2));
}

#[test]
fn birth_across_the_edge() {
    // three cells in the last column make (0, 5) come alive
    let mut g = grid_with(10, 10, &[(9, 4), (9, 5), (9, 6)]);
    step(&mut g);
    assert!(g.get(0, 5));
    assert!(g.get(8, 5));
    assert!(g.get(9, 5));
    assert_eq!(alive_cells(&g), vec![(0, 5), (8, 5), (9, 5)]);
}

#[test]
fn blinker_has_period_two() {
    let start = vec![(4, 5), (5, 5), (6, 5)];
    let mut g = grid_with(11, 11, &start);
    step(&mut g);
    assert_eq!(alive_cells(&g), vec![(5, 4), (5, 5), (5, 6)]);
    step(&mut g);
    assert_eq!(alive_cells(&g), start);
}

#[test]
fn blinker_across_the_edge_has_period_two() {
    let mut g = grid_with(5, 5, &[(4, 0), (0, 0), (1, 0)]);
    step(&mut g);
    assert_eq!(alive_cells(&g), vec![(0, 0), (0, 1), (0, 4)]);
    step(&mut g);
    assert_eq!(alive_cells(&g), vec![(0, 0), (1, 0), (4, 0)]);
}

#[test]
fn block_is_still() {
    let block = vec![(3, 3), (4, 3), (3, 4), (4, 4)];
    let mut g = grid_with(8, 8, &block);
    for _ in 0..10 {
        step(&mut g);
        assert_eq!(alive_cells(&g), block);
    }
}

#[test]
fn empty_grid_stays_empty() {
    let mut g = Grid::new(6, 9);
    for _ in 0..5 {
        step(&mut g);
        assert!(alive_cells(&g).is_empty());
    }
    assert_eq!(g.width, 6);
    assert_eq!(g.height, 9);
}

#[test]
fn glider_moves_diagonally_on_a_torus() {
    let mut g = grid_with(8, 8, &[(1, 0), (2, 1), (0, 2), (1, 2), (2, 2)]);
    for _ in 0..4 {
        step(&mut g);
    }
    assert_eq!(alive_cells(&g), vec![(2, 1), (3, 2), (1, 3), (2, 3), (3, 3)]);
}

#[test]
fn single_cell_grid() {
    let mut g = grid_with(1, 1, &[(0, 0)]);
    // the lone cell is its own neighbour eight times over
    assert_eq!(count_neighbors(&g, 0, 0), 8);
    step(&mut g);
    assert!(!g.get(0, 0));
}
