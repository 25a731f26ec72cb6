//! Pattern seeding: each pattern is a fixed list of `(row, column)` offsets
//! that are set alive relative to an origin.
use crate::grid::Grid;
use vstd::prelude::*;

verus! {

/// The offset list `pts` puts a cell at `(x, y)` when placed at row `oy`,
/// column `ox`.
pub open spec fn covers(pts: Seq<(usize, usize)>, oy: int, ox: int, x: int, y: int) -> bool {
    exists|k: int|
        0 <= k < pts.len() && ox + (#[trigger] pts[k]).1 == x && oy + pts[k].0 == y
}

/// Every offset of `pts`, placed at row `oy`, column `ox`, is inside a grid
/// `width` by `height`.
pub open spec fn fits(pts: Seq<(usize, usize)>, oy: int, ox: int, width: int, height: int) -> bool {
    forall|k: int|
        0 <= k < pts.len() ==> ox + (#[trigger] pts[k]).1 < width && oy + pts[k].0 < height
}

/// What seeding leaves in the grid: every cell that was alive, and every
/// cell that `pattern` puts at its coordinates.
pub open spec fn seeded(old_grid: Grid, new_grid: Grid, pattern: spec_fn(int, int) -> bool) -> bool {
    &&& new_grid.wf()
    &&& new_grid.width == old_grid.width
    &&& new_grid.height == old_grid.height
    &&& forall|x: int, y: int|
        old_grid@.in_bounds(x, y) ==> #[trigger] new_grid@.alive(x, y) == (old_grid@.alive(x, y)
            || pattern(x, y))
}

/// The glider's `(row, column)` offsets.
pub open spec fn glider() -> Seq<(usize, usize)> {
    seq![(0, 1), (1, 2), (2, 0), (2, 1), (2, 2)]
}

/// The blinker's offsets: a row of three.
pub open spec fn blinker() -> Seq<(usize, usize)> {
    seq![(1, 0), (1, 1), (1, 2)]
}

/// The beacon's offsets: two blocks touching at a corner.
pub open spec fn beacon() -> Seq<(usize, usize)> {
    seq![(0, 0), (0, 1), (1, 0), (1, 1), (2, 2), (2, 3), (3, 2), (3, 3)]
}

/// The toad's offsets.
pub open spec fn toad() -> Seq<(usize, usize)> {
    seq![(1, 1), (1, 2), (1, 3), (2, 0), (2, 1), (2, 2)]
}

/// The pentadecathlon's offsets.
pub open spec fn pentadecathlon() -> Seq<(usize, usize)> {
    seq![
        (1, 3), (2, 3), (3, 3), (4, 3), (5, 3), (6, 3), (7, 3), (8, 3), (9, 3), (10, 3),
        (0, 4), (11, 4),
        (1, 5), (2, 5), (3, 5), (4, 5), (5, 5), (6, 5), (7, 5), (8, 5), (9, 5), (10, 5),
    ]
}

/// The lightweight spaceship's offsets.
pub open spec fn lwss() -> Seq<(usize, usize)> {
    seq![(0, 1), (0, 4), (1, 0), (2, 0), (3, 0), (4, 0), (4, 1), (4, 2), (3, 3)]
}

/// The middleweight spaceship's offsets.
pub open spec fn mwss() -> Seq<(usize, usize)> {
    seq![
        (0, 1), (0, 2), (0, 5), (1, 0), (2, 0), (3, 0), (4, 0), (5, 0), (6, 1), (6, 2), (6, 3),
        (5, 4), (4, 5),
    ]
}

/// The heavyweight spaceship's offsets.
pub open spec fn hwss() -> Seq<(usize, usize)> {
    seq![
        (0, 2), (0, 5), (1, 0), (2, 0), (3, 0), (4, 0), (5, 0), (6, 0), (7, 1), (7, 2), (7, 3),
        (7, 4), (6, 5), (5, 6),
    ]
}

/// The pulsar is built from four rings, one for each of these offsets.
pub open spec fn pulsar_offsets() -> Seq<usize> {
    seq![2, 7, 9, 14]
}

/// The cells of the pulsar's ring for offset `i` at relative column `dx`, row
/// `dy`, with its bars drawn for `4 <= j < j_end`.
pub open spec fn pulsar_bars(i: int, j_end: int, dx: int, dy: int) -> bool {
    ||| (dx == i - 2 || dx == i + 2) && 4 <= dy < j_end
    ||| (dy == i - 2 || dy == i + 2) && 4 <= dx < j_end
}

/// The four single cells of the pulsar's ring for offset `i` on each axis.
pub open spec fn pulsar_spokes(i: int, dx: int, dy: int) -> bool {
    ||| dx == i && (dy == 0 || dy == 5 || dy == 7 || dy == 12)
    ||| dy == i && (dx == 0 || dx == 5 || dx == 7 || dx == 12)
}

/// The cells of the pulsar's ring for offset `i`: its bars and its spokes.
pub open spec fn pulsar_ring(i: int, dx: int, dy: int) -> bool {
    pulsar_bars(i, 7, dx, dy) || pulsar_spokes(i, dx, dy)
}

/// The pulsar puts a cell at relative column `dx`, row `dy`.
pub open spec fn pulsar(dx: int, dy: int) -> bool {
    exists|m: int| 0 <= m < 4 && #[trigger] pulsar_ring(pulsar_offsets()[m] as int, dx, dy)
}

/// Sets alive every cell of `pts` placed at row `oy`, column `ox`.
pub fn stamp(grid: &mut Grid, oy: usize, ox: usize, pts: &[(usize, usize)])
    requires
        old(grid).wf(),
        fits(pts@, oy as int, ox as int, old(grid).width as int, old(grid).height as int),
    ensures
        seeded(*old(grid), *final(grid), |x: int, y: int| covers(pts@, oy as int, ox as int, x, y)),
{
    let ghost start = *grid;
    let mut k: usize = 0;
    while k < pts.len()
        invariant
            k <= pts@.len(),
            start.wf(),
            fits(pts@, oy as int, ox as int, start.width as int, start.height as int),
            grid.wf(),
            grid.width == start.width,
            grid.height == start.height,
            forall|x: int, y: int|
                start@.in_bounds(x, y) ==> #[trigger] grid@.alive(x, y) == (start@.alive(x, y)
                    || covers(pts@.take(k as int), oy as int, ox as int, x, y)),
        decreases pts@.len() - k,
    {
        let (dy, dx) = pts[k];
        assert(ox + pts@[k as int].1 < grid.width && oy + pts@[k as int].0 < grid.height);
        grid.set(ox + dx, oy + dy, true);
        proof {
            assert forall|x: int, y: int| start@.in_bounds(x, y) implies #[trigger] grid@.alive(
                x,
                y,
            ) == (start@.alive(x, y) || covers(pts@.take(k + 1), oy as int, ox as int, x, y)) by {
                let prefix = pts@.take(k as int);
                let longer = pts@.take(k + 1);
                if covers(prefix, oy as int, ox as int, x, y) {
                    let m = choose|m: int|
                        0 <= m < prefix.len() && ox + (#[trigger] prefix[m]).1 == x && oy
                            + prefix[m].0 == y;
                    assert(longer[m] == prefix[m]);
                }
                if covers(longer, oy as int, ox as int, x, y) {
                    let m = choose|m: int|
                        0 <= m < longer.len() && ox + (#[trigger] longer[m]).1 == x && oy
                            + longer[m].0 == y;
                    if m < k {
                        assert(prefix[m] == longer[m]);
                    }
                }
                if x == ox + dx && y == oy + dy {
                    assert(longer[k as int] == pts@[k as int]);
                }
            }
        }
        k = k + 1;
    }
    assert(pts@.take(pts@.len() as int) =~= pts@);
}

/// A glider whose 3 by 3 box has its corner at row `oy`, column `ox`.
pub fn spawn_glider(grid: &mut Grid, oy: usize, ox: usize)
    requires
        old(grid).wf(),
        ox + 3 <= old(grid).width,
        oy + 3 <= old(grid).height,
    ensures
        seeded(*old(grid), *final(grid), |x: int, y: int| covers(glider(), oy as int, ox as int, x, y)),
{
    let pts = [(0, 1), (1, 2), (2, 0), (2, 1), (2, 2)];
    assert(pts@ =~= glider());
    stamp(grid, oy, ox, &pts);
}

/// A blinker: a row of three cells one row below row `oy`, from column `ox`.
pub fn spawn_blinker(grid: &mut Grid, oy: usize, ox: usize)
    requires
        old(grid).wf(),
        ox + 3 <= old(grid).width,
        oy + 2 <= old(grid).height,
    ensures
        seeded(*old(grid), *final(grid), |x: int, y: int| covers(blinker(), oy as int, ox as int, x, y)),
{
    let pts = [(1, 0), (1, 1), (1, 2)];
    assert(pts@ =~= blinker());
    stamp(grid, oy, ox, &pts);
}

/// A beacon whose 4 by 4 box has its corner at row `oy`, column `ox`.
pub fn spawn_beacon(grid: &mut Grid, oy: usize, ox: usize)
    requires
        old(grid).wf(),
        ox + 4 <= old(grid).width,
        oy + 4 <= old(grid).height,
    ensures
        seeded(*old(grid), *final(grid), |x: int, y: int| covers(beacon(), oy as int, ox as int, x, y)),
{
    let pts = [(0, 0), (0, 1), (1, 0), (1, 1), (2, 2), (2, 3), (3, 2), (3, 3)];
    assert(pts@ =~= beacon());
    stamp(grid, oy, ox, &pts);
}

/// A toad whose 3 by 4 box has its corner at row `oy`, column `ox`.
pub fn spawn_toad(grid: &mut Grid, oy: usize, ox: usize)
    requires
        old(grid).wf(),
        ox + 4 <= old(grid).width,
        oy + 3 <= old(grid).height,
    ensures
        seeded(*old(grid), *final(grid), |x: int, y: int| covers(toad(), oy as int, ox as int, x, y)),
{
    let pts = [(1, 1), (1, 2), (1, 3), (2, 0), (2, 1), (2, 2)];
    assert(pts@ =~= toad());
    stamp(grid, oy, ox, &pts);
}

/// A pentadecathlon whose 12 by 6 box has its corner at row `oy`, column `ox`.
pub fn spawn_pentadecathlon(grid: &mut Grid, oy: usize, ox: usize)
    requires
        old(grid).wf(),
        ox + 6 <= old(grid).width,
        oy + 12 <= old(grid).height,
    ensures
        seeded(*old(grid), *final(grid), |x: int, y: int| covers(pentadecathlon(), oy as int, ox as int, x, y)),
{
    let pts = [
        (1, 3), (2, 3), (3, 3), (4, 3), (5, 3), (6, 3), (7, 3), (8, 3), (9, 3), (10, 3),
        (0, 4), (11, 4),
        (1, 5), (2, 5), (3, 5), (4, 5), (5, 5), (6, 5), (7, 5), (8, 5), (9, 5), (10, 5),
    ];
    assert(pts@ =~= pentadecathlon());
    stamp(grid, oy, ox, &pts);
}

/// A lightweight spaceship whose 5 by 5 box has its corner at row `oy`, column `ox`.
pub fn spawn_lwss(grid: &mut Grid, oy: usize, ox: usize)
    requires
        old(grid).wf(),
        ox + 5 <= old(grid).width,
        oy + 5 <= old(grid).height,
    ensures
        seeded(*old(grid), *final(grid), |x: int, y: int| covers(lwss(), oy as int, ox as int, x, y)),
{
    let pts = [(0, 1), (0, 4), (1, 0), (2, 0), (3, 0), (4, 0), (4, 1), (4, 2), (3, 3)];
    assert(pts@ =~= lwss());
    stamp(grid, oy, ox, &pts);
}

/// A middleweight spaceship whose 7 by 6 box has its corner at row `oy`, column `ox`.
pub fn spawn_mwss(grid: &mut Grid, oy: usize, ox: usize)
    requires
        old(grid).wf(),
        ox + 6 <= old(grid).width,
        oy + 7 <= old(grid).height,
    ensures
        seeded(*old(grid), *final(grid), |x: int, y: int| covers(mwss(), oy as int, ox as int, x, y)),
{
    let pts = [
        (0, 1), (0, 2), (0, 5), (1, 0), (2, 0), (3, 0), (4, 0), (5, 0), (6, 1), (6, 2), (6, 3),
        (5, 4), (4, 5),
    ];
    assert(pts@ =~= mwss());
    stamp(grid, oy, ox, &pts);
}

/// A heavyweight spaceship whose 8 by 7 box has its corner at row `oy`, column `ox`.
pub fn spawn_hwss(grid: &mut Grid, oy: usize, ox: usize)
    requires
        old(grid).wf(),
        ox + 7 <= old(grid).width,
        oy + 8 <= old(grid).height,
    ensures
        seeded(*old(grid), *final(grid), |x: int, y: int| covers(hwss(), oy as int, ox as int, x, y)),
{
    let pts = [
        (0, 2), (0, 5), (1, 0), (2, 0), (3, 0), (4, 0), (5, 0), (6, 0), (7, 1), (7, 2), (7, 3),
        (7, 4), (6, 5), (5, 6),
    ];
    assert(pts@ =~= hwss());
    stamp(grid, oy, ox, &pts);
}

/// Sets alive the pulsar's ring for offset `i`, the pulsar's 17 by 17 box
/// having its corner at row `oy`, column `ox`.
fn spawn_pulsar_ring(grid: &mut Grid, oy: usize, ox: usize, i: usize)
    requires
        old(grid).wf(),
        2 <= i <= 14,
        ox + 17 <= old(grid).width,
        oy + 17 <= old(grid).height,
    ensures
        seeded(*old(grid), *final(grid), |x: int, y: int| pulsar_ring(i as int, x - ox, y - oy)),
{
    let ghost start = *grid;
    let a = i - 2;
    let b = i + 2;
    let mut j: usize = 4;
    while j < 7
        invariant
            4 <= j <= 7,
            a == i - 2,
            b == i + 2,
            2 <= i <= 14,
            ox + 17 <= start.width,
            oy + 17 <= start.height,
            start.wf(),
            grid.wf(),
            grid.width == start.width,
            grid.height == start.height,
            forall|x: int, y: int|
                start@.in_bounds(x, y) ==> #[trigger] grid@.alive(x, y) == (start@.alive(x, y)
                    || pulsar_bars(i as int, j as int, x - ox, y - oy)),
        decreases 7 - j,
    {
        grid.set(ox + a, oy + j, true);
        grid.set(ox + b, oy + j, true);
        grid.set(ox + j, oy + a, true);
        grid.set(ox + j, oy + b, true);
        j = j + 1;
    }
    grid.set(ox + i, oy + 0, true);
    grid.set(ox + i, oy + 5, true);
    grid.set(ox + i, oy + 7, true);
    grid.set(ox + i, oy + 12, true);
    grid.set(ox + 0, oy + i, true);
    grid.set(ox + 5, oy + i, true);
    grid.set(ox + 7, oy + i, true);
    grid.set(ox + 12, oy + i, true);
}

/// A pulsar whose 17 by 17 box has its corner at row `oy`, column `ox`.
pub fn spawn_pulsar(grid: &mut Grid, oy: usize, ox: usize)
    requires
        old(grid).wf(),
        ox + 17 <= old(grid).width,
        oy + 17 <= old(grid).height,
    ensures
        seeded(*old(grid), *final(grid), |x: int, y: int| pulsar(x - ox, y - oy)),
{
    let ghost start = *grid;
    let offs: [usize; 4] = [2, 7, 9, 14];
    assert(offs@ =~= pulsar_offsets());
    let mut k: usize = 0;
    while k < 4
        invariant
            k <= 4,
            offs@ == pulsar_offsets(),
            ox + 17 <= start.width,
            oy + 17 <= start.height,
            start.wf(),
            grid.wf(),
            grid.width == start.width,
            grid.height == start.height,
            forall|x: int, y: int|
                start@.in_bounds(x, y) ==> #[trigger] grid@.alive(x, y) == (start@.alive(x, y)
                    || exists|m: int|
                    0 <= m < k && #[trigger] pulsar_ring(pulsar_offsets()[m] as int, x - ox, y - oy)),
        decreases 4 - k,
    {
        let i = offs[k];
        spawn_pulsar_ring(grid, oy, ox, i);
        proof {
            assert forall|x: int, y: int| start@.in_bounds(x, y) implies #[trigger] grid@.alive(
                x,
                y,
            ) == (start@.alive(x, y) || exists|m: int|
                0 <= m < k + 1 && #[trigger] pulsar_ring(pulsar_offsets()[m] as int, x - ox, y - oy)) by {
                if pulsar_ring(i as int, x - ox, y - oy) {
                    assert(pulsar_ring(pulsar_offsets()[k as int] as int, x - ox, y - oy));
                }
            }
        }
        k = k + 1;
    }
}

} // verus!
