//! The renderer: each cell becomes a square block of one colour in a
//! row-major pixel buffer.
use crate::board::{cell_index, lemma_cell_index, lemma_cell_index_unique, lemma_index_cell};
use crate::config::{lemma_pixel_dims, Config};
use crate::grid::{index, Grid};
use vstd::arithmetic::div_mod::lemma_fundamental_div_mod_converse;
use vstd::prelude::*;

verus! {

/// Column of pixel `p` in the pixel buffer.
pub open spec fn pixel_x(c: Config, p: int) -> int {
    p % c.pixel_width()
}

/// Row of pixel `p` in the pixel buffer.
pub open spec fn pixel_y(c: Config, p: int) -> int {
    p / c.pixel_width()
}

/// Pixel `p` lies in the block of cell `(x, y)`, whose corner is at pixel
/// column `x * scale`, row `y * scale`.
pub open spec fn in_block(c: Config, x: int, y: int, p: int) -> bool {
    &&& x * c.scale <= pixel_x(c, p) < x * c.scale + c.scale
    &&& y * c.scale <= pixel_y(c, p) < y * c.scale + c.scale
}

/// The colour that shows a cell in the given state.
pub open spec fn cell_color(c: Config, alive: bool) -> u32 {
    if alive {
        c.alive_color
    } else {
        c.dead_color
    }
}

/// Pixel `p` shows cell `(x, y)` exactly when it lies in that cell's block.
proof fn lemma_pixel_cell(c: Config, p: int)
    requires
        c.valid(),
        0 <= p < c.pixel_count(),
    ensures
        0 <= pixel_x(c, p) < c.pixel_width(),
        0 <= pixel_y(c, p) < c.pixel_height(),
        0 <= pixel_x(c, p) / (c.scale as int) < c.width,
        0 <= pixel_y(c, p) / (c.scale as int) < c.height,
        forall|x: int, y: int|
            #[trigger] in_block(c, x, y, p) <==> (x == pixel_x(c, p) / (c.scale as int) && y
                == pixel_y(c, p) / (c.scale as int)),
{
    lemma_pixel_dims(c);
    let s = c.scale as int;
    lemma_index_cell(c.pixel_width(), c.pixel_height(), p);
    let px = pixel_x(c, p);
    let py = pixel_y(c, p);
    assert(0 <= px / s < c.width && 0 <= py / s < c.height) by {
        lemma_pixel_in_cell(c.width as int, s, px);
        lemma_pixel_in_cell(c.height as int, s, py);
    }
    assert forall|x: int, y: int| #[trigger] in_block(c, x, y, p) <==> (x == px / s && y == py / s) by {
        if in_block(c, x, y, p) {
            lemma_fundamental_div_mod_converse(px, s, x, px - x * s);
            lemma_fundamental_div_mod_converse(py, s, y, py - y * s);
        }
        if x == px / s && y == py / s {
            lemma_block_of(s, px);
            lemma_block_of(s, py);
        }
    }
}

/// A pixel coordinate below `n * s` lies in block number `v / s` below `n`.
proof fn lemma_pixel_in_cell(n: int, s: int, v: int)
    requires
        s > 0,
        0 <= v < n * s,
    ensures
        0 <= v / s < n,
{
    lemma_block_of(s, v);
    assert(v / s < n) by (nonlinear_arith)
        requires
            (v / s) * s <= v,
            v < n * s,
            s > 0,
    ;
}

/// A non-negative pixel coordinate `v` lies in the block that starts at `(v / s) * s`.
proof fn lemma_block_of(s: int, v: int)
    requires
        s > 0,
        0 <= v,
    ensures
        0 <= v / s,
        (v / s) * s <= v < (v / s) * s + s,
{
    vstd::arithmetic::div_mod::lemma_fundamental_div_mod(v, s);
    vstd::arithmetic::div_mod::lemma_mod_pos_bound(v, s);
    vstd::arithmetic::div_mod::lemma_div_pos_is_pos(v, s);
    assert((v / s) * s == s * (v / s)) by (nonlinear_arith);
}

/// Fills the `scale` by `scale` block of cell `(x, y)` with `color`; every
/// other pixel keeps its colour.
pub fn point_scaled(buffer: &mut Vec<u32>, c: &Config, x: usize, y: usize, color: u32)
    requires
        c.valid(),
        x < c.width,
        y < c.height,
        old(buffer)@.len() == c.pixel_count(),
    ensures
        final(buffer)@.len() == old(buffer)@.len(),
        forall|p: int|
            0 <= p < old(buffer)@.len() ==> #[trigger] final(buffer)@[p] == if in_block(
                *c,
                x as int,
                y as int,
                p,
            ) {
                color
            } else {
                old(buffer)@[p]
            },
{
    proof {
        lemma_pixel_dims(*c);
    }
    let ghost start = buffer@;
    let s = c.scale;
    let ww = c.window_width();
    let wh = c.window_height();
    assert(x * s + s <= ww && y * s + s <= wh) by (nonlinear_arith)
        requires
            x < c.width,
            y < c.height,
            ww == c.width * s,
            wh == c.height * s,
    ;
    let base_x = x * s;
    let base_y = y * s;
    let mut dy: usize = 0;
    while dy < s
        invariant
            c.valid(),
            s == c.scale,
            ww == c.pixel_width(),
            wh == c.pixel_height(),
            base_x == x * s,
            base_y == y * s,
            base_x + s <= ww,
            base_y + s <= wh,
            dy <= s,
            buffer@.len() == start.len(),
            start.len() == c.pixel_count(),
            forall|p: int|
                0 <= p < start.len() ==> #[trigger] buffer@[p] == if in_block(
                    *c,
                    x as int,
                    y as int,
                    p,
                ) && pixel_y(*c, p) < base_y + dy {
                    color
                } else {
                    start[p]
                },
        decreases s - dy,
    {
        let mut dx: usize = 0;
        while dx < s
            invariant
                c.valid(),
                s == c.scale,
                ww == c.pixel_width(),
                wh == c.pixel_height(),
                base_x == x * s,
                base_y == y * s,
                base_x + s <= ww,
                base_y + s <= wh,
                dy < s,
                dx <= s,
                buffer@.len() == start.len(),
                start.len() == c.pixel_count(),
                forall|p: int|
                    0 <= p < start.len() ==> #[trigger] buffer@[p] == if in_block(
                        *c,
                        x as int,
                        y as int,
                        p,
                    ) && (pixel_y(*c, p) < base_y + dy || (pixel_y(*c, p) == base_y + dy
                        && pixel_x(*c, p) < base_x + dx)) {
                        color
                    } else {
                        start[p]
                    },
            decreases s - dx,
        {
            proof {
                lemma_cell_index(ww as int, wh as int, (base_x + dx) as int, (base_y + dy) as int);
            }
            let q = index(ww, base_x + dx, base_y + dy);
            buffer.set(q, color);
            proof {
                assert forall|p: int| 0 <= p < start.len() implies #[trigger] buffer@[p] == if in_block(
                    *c,
                    x as int,
                    y as int,
                    p,
                ) && (pixel_y(*c, p) < base_y + dy || (pixel_y(*c, p) == base_y + dy && pixel_x(
                    *c,
                    p,
                ) < base_x + dx + 1)) {
                    color
                } else {
                    start[p]
                } by {
                    lemma_index_cell(ww as int, wh as int, p);
                    lemma_cell_index_unique(
                        ww as int,
                        wh as int,
                        pixel_x(*c, p),
                        pixel_y(*c, p),
                        (base_x + dx) as int,
                        (base_y + dy) as int,
                    );
                }
            }
            dx = dx + 1;
        }
        dy = dy + 1;
    }
}

/// Fills the whole pixel buffer from the grid: every pixel takes the colour
/// of the cell whose block it lies in.
pub fn render(grid: &Grid, c: &Config, buffer: &mut Vec<u32>)
    requires
        grid.wf(),
        c.valid(),
        grid.width == c.width,
        grid.height == c.height,
        old(buffer)@.len() == c.pixel_count(),
    ensures
        final(buffer)@.len() == old(buffer)@.len(),
        forall|p: int|
            0 <= p < old(buffer)@.len() ==> #[trigger] final(buffer)@[p] == cell_color(
                *c,
                grid@.alive(pixel_x(*c, p) / (c.scale as int), pixel_y(*c, p) / (c.scale as int)),
            ),
{
    let ghost start = buffer@;
    let w = grid.width;
    let h = grid.height;
    let n = grid.cells.len();
    proof {
        assert forall|p: int| 0 <= p < start.len() implies 0 <= #[trigger] cell_index(
            w as int,
            pixel_x(*c, p) / (c.scale as int),
            pixel_y(*c, p) / (c.scale as int),
        ) by {
            lemma_pixel_cell(*c, p);
            lemma_cell_index(
                w as int,
                h as int,
                pixel_x(*c, p) / (c.scale as int),
                pixel_y(*c, p) / (c.scale as int),
            );
        }
    }
    let mut i: usize = 0;
    while i < n
        invariant
            grid.wf(),
            c.valid(),
            grid.width == c.width,
            grid.height == c.height,
            w == grid.width,
            h == grid.height,
            n == grid.cells@.len(),
            i <= n,
            buffer@.len() == start.len(),
            start.len() == c.pixel_count(),
            forall|p: int|
                0 <= p < start.len() ==> #[trigger] buffer@[p] == if cell_index(
                    w as int,
                    pixel_x(*c, p) / (c.scale as int),
                    pixel_y(*c, p) / (c.scale as int),
                ) < i {
                    cell_color(
                        *c,
                        grid@.alive(
                            pixel_x(*c, p) / (c.scale as int),
                            pixel_y(*c, p) / (c.scale as int),
                        ),
                    )
                } else {
                    start[p]
                },
        decreases n - i,
    {
        proof {
            lemma_index_cell(w as int, h as int, i as int);
        }
        let x = i % w;
        let y = i / w;
        let color = if grid.get(x, y) {
            c.alive_color
        } else {
            c.dead_color
        };
        let ghost before = buffer@;
        point_scaled(buffer, c, x, y, color);
        proof {
            assert forall|p: int| 0 <= p < start.len() implies #[trigger] buffer@[p] == if cell_index(
                w as int,
                pixel_x(*c, p) / (c.scale as int),
                pixel_y(*c, p) / (c.scale as int),
            ) < i + 1 {
                cell_color(
                    *c,
                    grid@.alive(pixel_x(*c, p) / (c.scale as int), pixel_y(*c, p) / (c.scale as int)),
                )
            } else {
                start[p]
            } by {
                lemma_pixel_cell(*c, p);
                lemma_cell_index_unique(
                    w as int,
                    h as int,
                    pixel_x(*c, p) / (c.scale as int),
                    pixel_y(*c, p) / (c.scale as int),
                    x as int,
                    y as int,
                );
                assert(in_block(*c, x as int, y as int, p) == (x == pixel_x(*c, p) / (c.scale as int)
                    && y == pixel_y(*c, p) / (c.scale as int)));
            }
        }
        i = i + 1;
    }
    proof {
        assert forall|p: int| 0 <= p < start.len() implies cell_index(
            w as int,
            pixel_x(*c, p) / (c.scale as int),
            pixel_y(*c, p) / (c.scale as int),
        ) < n by {
            lemma_pixel_cell(*c, p);
            lemma_cell_index(
                w as int,
                h as int,
                pixel_x(*c, p) / (c.scale as int),
                pixel_y(*c, p) / (c.scale as int),
            );
        }
    }
}

} // verus!
