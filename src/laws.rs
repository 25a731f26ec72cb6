//! Properties of the generation rule, proved over the board model.
use crate::board::{
    board_of, cell_index, lemma_board_ext, lemma_board_of, lemma_cell_index,
    lemma_cell_index_unique, lemma_wrap, next_state, Board,
};
use vstd::prelude::*;

verus! {

/// The next generation of a well-formed board is a well-formed board of the
/// same size.
pub proof fn lemma_next_generation_wf(b: Board)
    requires
        b.wf(),
    ensures
        b.next_generation().wf(),
        b.next_generation().width == b.width,
        b.next_generation().height == b.height,
{
    lemma_board_of(
        b.width,
        b.height,
        |x: int, y: int| next_state(b.alive(x, y), b.live_neighbors(x, y)),
    );
}

/// A live cell stays alive in the next generation exactly when it has two or
/// three live neighbours, and a dead cell comes alive exactly when it has
/// three.
pub proof fn lemma_survival_and_birth(b: Board, x: int, y: int)
    requires
        b.wf(),
        b.in_bounds(x, y),
    ensures
        b.alive(x, y) ==> (b.next_generation().alive(x, y) <==> (b.live_neighbors(x, y) == 2
            || b.live_neighbors(x, y) == 3)),
        !b.alive(x, y) ==> (b.next_generation().alive(x, y) <==> b.live_neighbors(x, y) == 3),
{
    lemma_board_of(
        b.width,
        b.height,
        |x: int, y: int| next_state(b.alive(x, y), b.live_neighbors(x, y)),
    );
}

/// The board `b` with the cell at `(x, y)` brought to life.
pub open spec fn with_cell(b: Board, x: int, y: int) -> Board {
    Board { cells: b.cells.update(cell_index(b.width, x, y), true), ..b }
}

/// Bringing one cell to life changes that cell alone.
proof fn lemma_with_cell(b: Board, x: int, y: int)
    requires
        b.wf(),
        b.in_bounds(x, y),
    ensures
        with_cell(b, x, y).wf(),
        forall|a: int, c: int|
            b.in_bounds(a, c) ==> #[trigger] with_cell(b, x, y).alive(a, c) == ((a == x && c == y)
                || b.alive(a, c)),
{
    lemma_cell_index(b.width, b.height, x, y);
    assert forall|a: int, c: int| b.in_bounds(a, c) implies #[trigger] with_cell(b, x, y).alive(a, c)
        == ((a == x && c == y) || b.alive(a, c)) by {
        lemma_cell_index(b.width, b.height, a, c);
        lemma_cell_index_unique(b.width, b.height, a, c, x, y);
    }
}

/// The first column is adjacent to the last: a cell of the last column, in
/// the row of `(0, y)` or a row next to it (toroidally), counts among the
/// neighbours of `(0, y)`. Bringing it to life raises that count, by exactly
/// one on a board at least three cells wide and high.
pub proof fn lemma_wraps_horizontally(b: Board, y: int, dy: int)
    requires
        b.wf(),
        0 <= y < b.height,
        -1 <= dy <= 1,
        !b.alive(b.width - 1, (y + dy) % b.height),
    ensures
        with_cell(b, b.width - 1, (y + dy) % b.height).live_neighbors(0, y) > b.live_neighbors(0, y),
        b.width >= 3 && b.height >= 3 ==> with_cell(b, b.width - 1, (y + dy) % b.height).live_neighbors(0, y)
            == b.live_neighbors(0, y) + 1,
{
    lemma_wrap(0, b.width);
    lemma_wrap(y, b.height);
    lemma_with_cell(b, b.width - 1, (y + dy) % b.height);
}

/// The first row is adjacent to the last: a cell of the last row, in the
/// column of `(x, 0)` or a column next to it (toroidally), counts among the
/// neighbours of `(x, 0)`. Bringing it to life raises that count, by exactly
/// one on a board at least three cells wide and high.
pub proof fn lemma_wraps_vertically(b: Board, x: int, dx: int)
    requires
        b.wf(),
        0 <= x < b.width,
        -1 <= dx <= 1,
        !b.alive((x + dx) % b.width, b.height - 1),
    ensures
        with_cell(b, (x + dx) % b.width, b.height - 1).live_neighbors(x, 0) > b.live_neighbors(x, 0),
        b.width >= 3 && b.height >= 3 ==> with_cell(b, (x + dx) % b.width, b.height - 1).live_neighbors(x, 0)
            == b.live_neighbors(x, 0) + 1,
{
    lemma_wrap(x, b.width);
    lemma_wrap(0, b.height);
    lemma_with_cell(b, (x + dx) % b.width, b.height - 1);
}

/// A board that its own next generation leaves unchanged stays unchanged for
/// any number of generations.
pub proof fn lemma_fixed_point_evolve(b: Board, n: nat)
    requires
        b.next_generation() == b,
    ensures
        b.evolve(n) == b,
    decreases n,
{
    if n > 0 {
        lemma_fixed_point_evolve(b, (n - 1) as nat);
    }
}

/// A board with every cell dead stays so for any number of generations.
pub proof fn lemma_empty_stays_empty(b: Board, n: nat)
    requires
        b.wf(),
        b.is_empty(),
    ensures
        b.evolve(n) == b,
{
    let g = b.next_generation();
    lemma_next_generation_wf(b);
    assert forall|x: int, y: int| b.in_bounds(x, y) implies #[trigger] g.alive(x, y) == b.alive(
        x,
        y,
    ) by {
        lemma_survival_and_birth(b, x, y);
        lemma_wrap(x, b.width);
        lemma_wrap(y, b.height);
    }
    lemma_board_ext(g, b);
    lemma_fixed_point_evolve(b, n);
}

/// A horizontal blinker: three live cells in row `cy`, centred on column
/// `cx`, every other cell dead.
pub open spec fn blinker_row(width: int, height: int, cx: int, cy: int) -> Board {
    board_of(
        width,
        height,
        |x: int, y: int| y == cy && (x == (cx - 1) % width || x == cx || x == (cx + 1) % width),
    )
}

/// A vertical blinker: three live cells in column `cx`, centred on row `cy`,
/// every other cell dead.
pub open spec fn blinker_column(width: int, height: int, cx: int, cy: int) -> Board {
    board_of(
        width,
        height,
        |x: int, y: int| x == cx && (y == (cy - 1) % height || y == cy || y == (cy + 1) % height),
    )
}

/// The cells of the two blinker boards.
proof fn lemma_blinker_cells(width: int, height: int, cx: int, cy: int)
    requires
        width > 0,
        height > 0,
    ensures
        blinker_row(width, height, cx, cy).wf(),
        blinker_column(width, height, cx, cy).wf(),
        forall|x: int, y: int|
            0 <= x < width && 0 <= y < height ==> #[trigger] blinker_row(width, height, cx, cy).alive(x, y)
                == (y == cy && (x == (cx - 1) % width || x == cx || x == (cx + 1) % width)),
        forall|x: int, y: int|
            0 <= x < width && 0 <= y < height ==> #[trigger] blinker_column(width, height, cx, cy).alive(x, y)
                == (x == cx && (y == (cy - 1) % height || y == cy || y == (cy + 1) % height)),
{
    assert(width * height > 0) by (nonlinear_arith)
        requires
            width > 0,
            height > 0,
    ;
    assert forall|x: int, y: int| 0 <= x < width && 0 <= y < height implies #[trigger] blinker_row(
        width,
        height,
        cx,
        cy,
    ).alive(x, y) == (y == cy && (x == (cx - 1) % width || x == cx || x == (cx + 1) % width)) by {
        lemma_cell_index(width, height, x, y);
    }
    assert forall|x: int, y: int| 0 <= x < width && 0 <= y < height implies #[trigger] blinker_column(
        width,
        height,
        cx,
        cy,
    ).alive(x, y) == (x == cx && (y == (cy - 1) % height || y == cy || y == (cy + 1) % height)) by {
        lemma_cell_index(width, height, x, y);
    }
}

/// A horizontal blinker turns vertical about its middle cell.
proof fn lemma_blinker_row_step(width: int, height: int, cx: int, cy: int)
    requires
        width >= 5,
        height >= 5,
        0 <= cx < width,
        0 <= cy < height,
    ensures
        blinker_row(width, height, cx, cy).next_generation() == blinker_column(width, height, cx, cy),
{
    let b = blinker_row(width, height, cx, cy);
    let v = blinker_column(width, height, cx, cy);
    lemma_blinker_cells(width, height, cx, cy);
    lemma_next_generation_wf(b);
    lemma_wrap(cx, width);
    lemma_wrap(cy, height);
    assert forall|x: int, y: int| b.in_bounds(x, y) implies #[trigger] b.next_generation().alive(x, y)
        == v.alive(x, y) by {
        lemma_survival_and_birth(b, x, y);
        lemma_wrap(x, width);
        lemma_wrap(y, height);
    }
    lemma_board_ext(b.next_generation(), v);
}

/// A vertical blinker turns horizontal about its middle cell.
proof fn lemma_blinker_column_step(width: int, height: int, cx: int, cy: int)
    requires
        width >= 5,
        height >= 5,
        0 <= cx < width,
        0 <= cy < height,
    ensures
        blinker_column(width, height, cx, cy).next_generation() == blinker_row(width, height, cx, cy),
{
    let b = blinker_column(width, height, cx, cy);
    let r = blinker_row(width, height, cx, cy);
    lemma_blinker_cells(width, height, cx, cy);
    lemma_next_generation_wf(b);
    lemma_wrap(cx, width);
    lemma_wrap(cy, height);
    assert forall|x: int, y: int| b.in_bounds(x, y) implies #[trigger] b.next_generation().alive(x, y)
        == r.alive(x, y) by {
        lemma_survival_and_birth(b, x, y);
        lemma_wrap(x, width);
        lemma_wrap(y, height);
    }
    lemma_board_ext(b.next_generation(), r);
}

/// A lone blinker (two dead cells between it and itself around the torus in
/// every direction) oscillates with period two: after one generation it is
/// the vertical triple about the same middle cell, after two it is back.
pub proof fn lemma_blinker_oscillates(width: int, height: int, cx: int, cy: int)
    requires
        width >= 5,
        height >= 5,
        0 <= cx < width,
        0 <= cy < height,
    ensures
        blinker_row(width, height, cx, cy).evolve(1) == blinker_column(width, height, cx, cy),
        blinker_row(width, height, cx, cy).evolve(2) == blinker_row(width, height, cx, cy),
{
    let b = blinker_row(width, height, cx, cy);
    lemma_blinker_row_step(width, height, cx, cy);
    lemma_blinker_column_step(width, height, cx, cy);
    assert(b.evolve(1) == b.evolve(0).next_generation());
    assert(b.evolve(2) == b.evolve(1).next_generation());
}

/// A block: the two by two square of live cells with its top left corner at
/// `(bx, by)`, every other cell dead.
pub open spec fn block(width: int, height: int, bx: int, by: int) -> Board {
    board_of(
        width,
        height,
        |x: int, y: int| (x == bx || x == (bx + 1) % width) && (y == by || y == (by + 1) % height),
    )
}

/// A lone block (two dead cells between it and itself around the torus in
/// every direction) is the same in every generation.
pub proof fn lemma_block_still(width: int, height: int, bx: int, by: int, n: nat)
    requires
        width >= 4,
        height >= 4,
        0 <= bx < width,
        0 <= by < height,
    ensures
        block(width, height, bx, by).evolve(n) == block(width, height, bx, by),
{
    let b = block(width, height, bx, by);
    lemma_next_generation_wf(b);
    lemma_wrap(bx, width);
    lemma_wrap(by, height);
    assert(width * height > 0) by (nonlinear_arith)
        requires
            width > 0,
            height > 0,
    ;
    assert forall|x: int, y: int| b.in_bounds(x, y) implies #[trigger] b.alive(x, y) == ((x == bx || x == (bx + 1) % width) && (y == by || y == (by + 1) % height)) by {
        lemma_cell_index(width, height, x, y);
    }
    assert forall|x: int, y: int| b.in_bounds(x, y) implies #[trigger] b.next_generation().alive(x, y)
        == b.alive(x, y) by {
        lemma_survival_and_birth(b, x, y);
        lemma_wrap(x, width);
        lemma_wrap(y, height);
    }
    lemma_board_ext(b.next_generation(), b);
    lemma_fixed_point_evolve(b, n);
}

} // verus!
