use gameoflife::frame::initial_grid;
use gameoflife::grid::Grid;
use gameoflife::patterns::{
    spawn_beacon, spawn_blinker, spawn_glider, spawn_hwss, spawn_lwss, spawn_mwss,
    spawn_pentadecathlon, spawn_pulsar, spawn_toad, stamp,
};

fn alive_cells(g: &Grid) -> Vec<(usize, usize)> {
    let mut out = Vec::new();
    for y in 0..g.height {
        for x in 0..g.width {
            if g.get(x, y) {
                out.push((x, y));
            }
        }
    }
    out
}

/// Cells `(x, y)` of `(row, column)` offsets placed at row `oy`, column `ox`, row-major.
fn placed(pts: &[(usize, usize)], oy: usize, ox: usize) -> Vec<(usize, usize)> {
    let mut out: Vec<(usize, usize)> = pts.iter().map(|&(dy, dx)| (ox + dx, oy + dy)).collect();
    out.sort_by_key(|&(x, y)| (y, x));
    out.dedup();
    out
}

#[test]
fn glider_cells() {
    let mut g = Grid::new(20, 20);
    spawn_glider(&mut g, 10, 5);
    assert_eq!(alive_cells(&g), vec![(6, 10), (7, 11), (5, 12), (6, 12), (7, 12)]);
}

#[test]
fn blinker_cells() {
    let mut g = Grid::new(40, 40);
    spawn_blinker(&mut g, 30, 20);
    assert_eq!(alive_cells(&g), vec![(20, 31), (21, 31), (22, 31)]);
}

#[test]
fn beacon_cells() {
    let mut g = Grid::new(60, 60);
    spawn_beacon(&mut g, 50, 50);
    let pts = [(0, 0), (0, 1), (1, 0), (1, 1), (2, 2), (2, 3), (3, 2), (3, 3)];
    assert_eq!(alive_cells(&g), placed(&pts, 50, 50));
}

#[test]
fn toad_cells() {
    let mut g = Grid::new(70, 30);
    spawn_toad(&mut g, 20, 60);
    assert_eq!(alive_cells(&g), vec![(61, 21), (62, 21), (63, 21), (60, 22), (61, 22), (62, 22)]);
}

#[test]
fn pentadecathlon_cells() {
    let mut g = Grid::new(50, 60);
    spawn_pentadecathlon(&mut g, 40, 30);
    let cells = alive_cells(&g);
    assert_eq!(cells.len(), 22);
    assert!(g.get(34, 40));
    assert!(g.get(34, 51));
    assert!(g.get(33, 41) && g.get(35, 41));
    assert!(g.get(33, 50) && g.get(35, 50));
    assert!(!g.get(34, 41));
    assert!(!g.get(33, 40));
}

#[test]
fn lwss_cells() {
    let mut g = Grid::new(40, 90);
    spawn_lwss(&mut g, 80, 20);
    let pts = [(0, 1), (0, 4), (1, 0), (2, 0), (3, 0), (4, 0), (4, 1), (4, 2), (3, 3)];
    assert_eq!(alive_cells(&g), placed(&pts, 80, 20));
    assert_eq!(alive_cells(&g).len(), 9);
}

#[test]
fn mwss_cells() {
    let mut g = Grid::new(60, 90);
    spawn_mwss(&mut g, 80, 50);
    let cells = alive_cells(&g);
    assert_eq!(cells.len(), 13);
    assert!(g.get(51, 80) && g.get(52, 80) && g.get(55, 80));
    assert!(g.get(50, 85));
    assert!(g.get(55, 84));
    assert!(!g.get(50, 86));
}

#[test]
fn hwss_cells() {
    let mut g = Grid::new(90, 90);
    spawn_hwss(&mut g, 80, 80);
    let cells = alive_cells(&g);
    assert_eq!(cells.len(), 14);
    assert!(g.get(82, 80) && g.get(85, 80));
    assert!(g.get(80, 86) && g.get(85, 86));
    assert!(g.get(86, 85));
    assert!(g.get(81, 87) && g.get(84, 87));
    assert!(!g.get(80, 87));
}

#[test]
fn pulsar_cells() {
    let mut g = Grid::new(30, 80);
    spawn_pulsar(&mut g, 60, 10);
    let cells = alive_cells(&g);
    assert_eq!(cells.len(), 71);
    // every cell stays inside the 17 by 17 box
    assert!(cells.iter().all(|&(x, y)| (10..27).contains(&x) && (60..77).contains(&y)));
    // bars and spokes of the ring for offset 2
    assert!(g.get(10, 64) && g.get(10, 65) && g.get(10, 66));
    assert!(g.get(14, 64) && g.get(14, 66));
    assert!(g.get(12, 60) && g.get(12, 65) && g.get(12, 67) && g.get(12, 72));
    assert!(g.get(10, 62) && g.get(15, 62) && g.get(17, 62) && g.get(22, 62));
    // ring for offset 14
    assert!(g.get(26, 64) && g.get(14, 76));
    assert!(!g.get(10, 60));
    assert!(!g.get(11, 61));
}

#[test]
fn seeding_keeps_other_cells() {
    let mut g = Grid::new(10, 10);
    g.set(0, 0, true);
    g.set(9, 9, true);
    g.set(2, 3, true);
    spawn_glider(&mut g, 3, 1);
    // (2, 3) was alive and is also a glider cell; the others keep their state
    assert_eq!(
        alive_cells(&g),
        vec![(0, 0), (2, 3), (3, 4), (1, 5), (2, 5), (3, 5), (9, 9)]
    );
}

#[test]
fn seeding_at_far_corner() {
    let mut g = Grid::new(10, 10);
    spawn_glider(&mut g, 7, 7);
    assert_eq!(alive_cells(&g), vec![(8, 7), (9, 8), (7, 9), (8, 9), (9, 9)]);
}

#[test]
fn stamp_sets_listed_offsets() {
    let mut g = Grid::new(6, 6);
    stamp(&mut g, 1, 2, &[(0, 0), (4, 3), (0, 0)]);
    assert_eq!(alive_cells(&g), vec![(2, 1), (5, 5)]);
    stamp(&mut g, 0, 0, &[]);
    assert_eq!(alive_cells(&g), vec![(2, 1), (5, 5)]);
}

#[test]
fn initial_grid_population() {
    let g = initial_grid();
    assert_eq!(g.width, 100);
    assert_eq!(g.height, 100);
    assert_eq!(alive_cells(&g).len(), 151);
    // a glider cell, a blinker cell, an hwss cell
    assert!(g.get(11, 10));
    assert!(g.get(21, 31));
    assert!(g.get(85, 80));
}
