//! The grid store (two same-sized cell buffers) and the step engine.
use crate::board::{
    board_of, cell_index, empty_board, lemma_board_of, lemma_cell_index, lemma_cell_index_unique,
    lemma_index_cell, lemma_wrap, next_state, tally, Board,
};
use vstd::prelude::*;

verus! {

/// A `width` by `height` grid: `cells` holds the current generation in
/// row-major order, `next` is the buffer that the following generation is
/// written into before the two are swapped.
pub struct Grid {
    pub width: usize,
    pub height: usize,
    pub cells: Vec<bool>,
    pub next: Vec<bool>,
}

impl View for Grid {
    type V = Board;

    open spec fn view(&self) -> Board {
        Board { width: self.width as int, height: self.height as int, cells: self.cells@ }
    }
}

/// Linear position of the cell at column `x`, row `y` of a grid `width` wide.
pub fn index(width: usize, x: usize, y: usize) -> (r: usize)
    requires
        y * width + x <= usize::MAX,
    ensures
        r == cell_index(width as int, x as int, y as int),
{
    y * width + x
}

impl Grid {
    pub open spec fn wf(&self) -> bool {
        &&& self@.wf()
        &&& self.next@.len() == self.cells@.len()
        &&& self.cells@.len() <= usize::MAX
    }

    /// A grid of the given size with every cell dead.
    pub fn new(width: usize, height: usize) -> (g: Grid)
        requires
            width > 0,
            height > 0,
            width * height <= usize::MAX,
        ensures
            g.wf(),
            g.width == width,
            g.height == height,
            g@ == empty_board(width as int, height as int),
            g@.is_empty(),
    {
        let n = width * height;
        let cells: Vec<bool> = vec![false; n];
        let next: Vec<bool> = vec![false; n];
        let g = Grid { width, height, cells, next };
        proof {
            lemma_board_of(width as int, height as int, |x: int, y: int| false);
            assert(g@.cells =~= empty_board(width as int, height as int).cells);
        }
        g
    }

    /// The cell at column `x`, row `y`.
    pub fn get(&self, x: usize, y: usize) -> (r: bool)
        requires
            self.wf(),
            x < self.width,
            y < self.height,
        ensures
            r == self@.alive(x as int, y as int),
    {
        proof {
            lemma_cell_index(self.width as int, self.height as int, x as int, y as int);
        }
        self.cells[index(self.width, x, y)]
    }

    /// Sets the cell at column `x`, row `y` to `alive`; every other cell keeps
    /// its state.
    pub fn set(&mut self, x: usize, y: usize, alive: bool)
        requires
            old(self).wf(),
            x < old(self).width,
            y < old(self).height,
        ensures
            final(self).wf(),
            final(self).width == old(self).width,
            final(self).height == old(self).height,
            final(self).next == old(self).next,
            final(self)@.cells == old(self)@.cells.update(
                cell_index(old(self).width as int, x as int, y as int),
                alive,
            ),
            forall|a: int, b: int|
                old(self)@.in_bounds(a, b) ==> #[trigger] final(self)@.alive(a, b) == if a == x
                    && b == y {
                    alive
                } else {
                    old(self)@.alive(a, b)
                },
    {
        proof {
            lemma_cell_index(self.width as int, self.height as int, x as int, y as int);
        }
        let i = index(self.width, x, y);
        self.cells.set(i, alive);
        proof {
            assert forall|a: int, b: int| old(self)@.in_bounds(a, b) implies #[trigger] self@.alive(
                a,
                b,
            ) == if a == x && b == y {
                alive
            } else {
                old(self)@.alive(a, b)
            } by {
                lemma_cell_index(self.width as int, self.height as int, a, b);
                lemma_cell_index_unique(
                    self.width as int,
                    self.height as int,
                    a,
                    b,
                    x as int,
                    y as int,
                );
            }
        }
    }

    /// Exchanges the current and the next buffer, without copying cells.
    pub fn swap(&mut self)
        requires
            old(self).wf(),
        ensures
            final(self).wf(),
            final(self).width == old(self).width,
            final(self).height == old(self).height,
            final(self).cells == old(self).next,
            final(self).next == old(self).cells,
    {
        std::mem::swap(&mut self.cells, &mut self.next);
    }
}

/// The neighbour one column to the left, wrapping from the first column to the last.
fn wrap_dec(v: usize, n: usize) -> (r: usize)
    requires
        v < n,
    ensures
        r as int == (v - 1) % (n as int),
        r < n,
{
    proof {
        lemma_wrap(v as int, n as int);
    }
    if v == 0 {
        n - 1
    } else {
        v - 1
    }
}

/// The neighbour one column to the right, wrapping from the last column to the first.
fn wrap_inc(v: usize, n: usize) -> (r: usize)
    requires
        v < n,
    ensures
        r as int == (v + 1) % (n as int),
        r < n,
{
    proof {
        lemma_wrap(v as int, n as int);
    }
    if v + 1 == n {
        0
    } else {
        v + 1
    }
}

/// One for a live cell, zero for a dead one.
fn tally_at(grid: &Grid, x: usize, y: usize) -> (r: usize)
    requires
        grid.wf(),
        x < grid.width,
        y < grid.height,
    ensures
        r as int == tally(grid@.alive(x as int, y as int)),
{
    if grid.get(x, y) {
        1
    } else {
        0
    }
}

/// Number of live cells among the eight neighbours of `(x, y)`, the grid's
/// opposite edges being adjacent.
pub fn count_neighbors(grid: &Grid, x: usize, y: usize) -> (r: usize)
    requires
        grid.wf(),
        x < grid.width,
        y < grid.height,
    ensures
        r as int == grid@.live_neighbors(x as int, y as int),
        r <= 8,
{
    let w = grid.width;
    let h = grid.height;
    let left = wrap_dec(x, w);
    let right = wrap_inc(x, w);
    let up = wrap_dec(y, h);
    let down = wrap_inc(y, h);
    proof {
        lemma_wrap(x as int, w as int);
        lemma_wrap(y as int, h as int);
    }
    tally_at(grid, left, up) + tally_at(grid, x, up) + tally_at(grid, right, up)
        + tally_at(grid, left, y) + tally_at(grid, right, y)
        + tally_at(grid, left, down) + tally_at(grid, x, down) + tally_at(grid, right, down)
}

/// Advances the grid by one generation: every cell's next state is computed
/// from the current buffer into the next one, and the buffers are swapped.
pub fn step(grid: &mut Grid)
    requires
        old(grid).wf(),
    ensures
        final(grid).wf(),
        final(grid).width == old(grid).width,
        final(grid).height == old(grid).height,
        final(grid)@ == old(grid)@.next_generation(),
{
    let w = grid.width;
    let h = grid.height;
    let n = grid.cells.len();
    let ghost start = grid@;
    let mut i: usize = 0;
    while i < n
        invariant
            grid.wf(),
            grid.width == w,
            grid.height == h,
            grid@ == start,
            n == start.cells.len(),
            start.wf(),
            w as int == start.width,
            h as int == start.height,
            i <= n,
            forall|j: int|
                0 <= j < i ==> #[trigger] grid.next@[j] == next_state(
                    start.cells[j],
                    start.live_neighbors(j % (w as int), j / (w as int)),
                ),
        decreases n - i,
    {
        proof {
            lemma_index_cell(w as int, h as int, i as int);
        }
        let x = i % w;
        let y = i / w;
        let alive = grid.cells[i];
        let c = count_neighbors(grid, x, y);
        let v = if alive {
            c == 2 || c == 3
        } else {
            c == 3
        };
        grid.next.set(i, v);
        i = i + 1;
    }
    grid.swap();
    proof {
        let f = |x: int, y: int| next_state(start.alive(x, y), start.live_neighbors(x, y));
        assert forall|j: int| 0 <= j < n implies #[trigger] grid.cells@[j] == board_of(
            w as int,
            h as int,
            f,
        ).cells[j] by {
            lemma_index_cell(w as int, h as int, j);
        }
        assert(grid@.cells =~= start.next_generation().cells);
    }
}

} // verus!
