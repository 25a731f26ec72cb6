//! The mathematical model of a Life grid: dimensions, cells in row-major
//! order, the toroidal neighbourhood and the generation rule.
use vstd::arithmetic::div_mod::{lemma_fundamental_div_mod, lemma_fundamental_div_mod_converse, lemma_mod_add_multiples_vanish, lemma_mod_pos_bound, lemma_small_mod, lemma_mod_self_0};
use vstd::prelude::*;

verus! {

/// A grid as a mathematical value: `cells[y * width + x]` is the cell at
/// column `x`, row `y`.
pub struct Board {
    pub width: int,
    pub height: int,
    pub cells: Seq<bool>,
}

/// Row-major position of the cell at column `x`, row `y`.
pub open spec fn cell_index(width: int, x: int, y: int) -> int {
    y * width + x
}

/// The survival / birth rule: a live cell stays alive with two or three live
/// neighbours, a dead cell comes alive with exactly three.
pub open spec fn next_state(alive: bool, neighbors: int) -> bool {
    if alive {
        neighbors == 2 || neighbors == 3
    } else {
        neighbors == 3
    }
}

/// One for a live cell, zero for a dead one.
pub open spec fn tally(alive: bool) -> int {
    if alive {
        1
    } else {
        0
    }
}

/// The board of the given size whose cell at `(x, y)` is `f(x, y)`.
pub open spec fn board_of(width: int, height: int, f: spec_fn(int, int) -> bool) -> Board {
    Board {
        width,
        height,
        cells: Seq::new((width * height) as nat, |i: int| f(i % width, i / width)),
    }
}

/// The board of the given size with every cell dead.
pub open spec fn empty_board(width: int, height: int) -> Board {
    board_of(width, height, |x: int, y: int| false)
}

impl Board {
    pub open spec fn wf(self) -> bool {
        &&& self.width > 0
        &&& self.height > 0
        &&& self.cells.len() == self.width * self.height
    }

    pub open spec fn in_bounds(self, x: int, y: int) -> bool {
        0 <= x < self.width && 0 <= y < self.height
    }

    /// The cell at column `x`, row `y`, for coordinates inside the board.
    pub open spec fn alive(self, x: int, y: int) -> bool {
        self.cells[cell_index(self.width, x, y)]
    }

    /// The cell at any coordinates, taken modulo the board's size: the
    /// board's opposite edges are adjacent.
    pub open spec fn at(self, x: int, y: int) -> bool {
        self.alive(x % self.width, y % self.height)
    }

    /// Number of live cells among the eight toroidal neighbours of `(x, y)`.
    pub open spec fn live_neighbors(self, x: int, y: int) -> int {
        tally(self.at(x - 1, y - 1)) + tally(self.at(x, y - 1)) + tally(self.at(x + 1, y - 1))
            + tally(self.at(x - 1, y)) + tally(self.at(x + 1, y))
            + tally(self.at(x - 1, y + 1)) + tally(self.at(x, y + 1)) + tally(self.at(x + 1, y + 1))
    }

    /// The next generation: every cell updated at once by `next_state`.
    pub open spec fn next_generation(self) -> Board {
        board_of(
            self.width,
            self.height,
            |x: int, y: int| next_state(self.alive(x, y), self.live_neighbors(x, y)),
        )
    }

    /// The board after `n` generations.
    pub open spec fn evolve(self, n: nat) -> Board
        decreases n,
    {
        if n == 0 {
            self
        } else {
            self.evolve((n - 1) as nat).next_generation()
        }
    }

    /// Every cell inside the board is dead.
    pub open spec fn is_empty(self) -> bool {
        forall|x: int, y: int| self.in_bounds(x, y) ==> !#[trigger] self.alive(x, y)
    }
}

/// A cell inside the board has a position inside its cell sequence, and the
/// position gives back the coordinates.
pub proof fn lemma_cell_index(width: int, height: int, x: int, y: int)
    requires
        0 <= x < width,
        0 <= y < height,
    ensures
        0 <= cell_index(width, x, y) < width * height,
        cell_index(width, x, y) % width == x,
        cell_index(width, x, y) / width == y,
{
    assert(0 <= y * width + x < width * height) by (nonlinear_arith)
        requires
            0 <= x < width,
            0 <= y < height,
    ;
    lemma_fundamental_div_mod_converse(y * width + x, width, y, x);
}

/// Two cells inside the board share a position only if they are the same cell.
pub proof fn lemma_cell_index_unique(width: int, height: int, x1: int, y1: int, x2: int, y2: int)
    requires
        0 <= x1 < width,
        0 <= y1 < height,
        0 <= x2 < width,
        0 <= y2 < height,
    ensures
        (cell_index(width, x1, y1) == cell_index(width, x2, y2)) <==> (x1 == x2 && y1 == y2),
{
    lemma_cell_index(width, height, x1, y1);
    lemma_cell_index(width, height, x2, y2);
}

/// Every position inside the cell sequence is the position of a cell of the board.
pub proof fn lemma_index_cell(width: int, height: int, i: int)
    requires
        width > 0,
        height > 0,
        0 <= i < width * height,
    ensures
        0 <= i % width < width,
        0 <= i / width < height,
        cell_index(width, i % width, i / width) == i,
{
    lemma_mod_pos_bound(i, width);
    lemma_fundamental_div_mod(i, width);
    let q = i / width;
    let r = i % width;
    assert(0 <= q < height) by (nonlinear_arith)
        requires
            i == width * q + r,
            0 <= r < width,
            0 <= i < width * height,
            width > 0,
    ;
    assert(cell_index(width, r, q) == i) by (nonlinear_arith)
        requires
            i == width * q + r,
    ;
}

/// A board built from a cell function has that function's cells.
pub proof fn lemma_board_of(width: int, height: int, f: spec_fn(int, int) -> bool)
    requires
        width > 0,
        height > 0,
    ensures
        board_of(width, height, f).wf(),
        forall|x: int, y: int|
            0 <= x < width && 0 <= y < height ==> #[trigger] board_of(width, height, f).alive(x, y)
                == f(x, y),
{
    assert(width * height > 0) by (nonlinear_arith)
        requires
            width > 0,
            height > 0,
    ;
    assert forall|x: int, y: int| 0 <= x < width && 0 <= y < height implies #[trigger] board_of(
        width,
        height,
        f,
    ).alive(x, y) == f(x, y) by {
        lemma_cell_index(width, height, x, y);
    }
}

/// Two well-formed boards of one size with the same cells are the same board.
pub proof fn lemma_board_ext(a: Board, b: Board)
    requires
        a.wf(),
        b.wf(),
        a.width == b.width,
        a.height == b.height,
        forall|x: int, y: int| a.in_bounds(x, y) ==> #[trigger] a.alive(x, y) == b.alive(x, y),
    ensures
        a == b,
{
    assert forall|i: int| 0 <= i < a.cells.len() implies a.cells[i] == b.cells[i] by {
        lemma_index_cell(a.width, a.height, i);
        assert(a.alive(i % a.width, i / a.width) == b.alive(i % a.width, i / a.width));
    }
    assert(a.cells =~= b.cells);
}

/// Toroidal coordinates one step off the board land on the opposite edge.
pub proof fn lemma_wrap(v: int, n: int)
    requires
        0 <= v < n,
    ensures
        v % n == v,
        (v - 1) % n == if v == 0 {
            n - 1
        } else {
            v - 1
        },
        (v + 1) % n == if v + 1 == n {
            0
        } else {
            v + 1
        },
{
    lemma_small_mod(v as nat, n as nat);
    if v == 0 {
        lemma_mod_add_multiples_vanish(-1, n);
        lemma_small_mod((n - 1) as nat, n as nat);
    } else {
        lemma_small_mod((v - 1) as nat, n as nat);
    }
    if v + 1 == n {
        lemma_mod_self_0(n);
    } else {
        lemma_small_mod((v + 1) as nat, n as nat);
    }
}

} // verus!
