//! The frame loop's decisions: whether to go on, what one tick does, how long
//! to sleep, and the grid the simulation starts from.
use crate::config::{Config, HEIGHT, WIDTH};
use crate::grid::{step, Grid};
use crate::patterns::{
    beacon, blinker, covers, glider, hwss, lwss, mwss, pentadecathlon, pulsar, spawn_beacon,
    spawn_blinker, spawn_glider, spawn_hwss, spawn_lwss, spawn_mwss, spawn_pentadecathlon,
    spawn_pulsar, spawn_toad, toad,
};
use crate::render::{cell_color, pixel_x, pixel_y, render};
use vstd::prelude::*;

verus! {

/// What the frame loop does next.
#[derive(Clone, Copy, Debug, PartialEq, Eq, Structural)]
pub enum FrameAction {
    /// Advance one generation, draw it and present it.
    Advance,
    /// Leave the loop.
    Stop,
}

/// The loop goes on while the display surface is open and the exit key is
/// not held down.
pub fn frame_action(is_open: bool, exit_pressed: bool) -> (a: FrameAction)
    ensures
        a == (if is_open && !exit_pressed {
            FrameAction::Advance
        } else {
            FrameAction::Stop
        }),
{
    if is_open && !exit_pressed {
        FrameAction::Advance
    } else {
        FrameAction::Stop
    }
}

/// How long to sleep after a frame that took `elapsed` of a `target` budget:
/// the rest of the budget, or nothing when the frame ran over.
pub fn sleep_nanos(target: u64, elapsed: u64) -> (r: u64)
    ensures
        r == (if elapsed < target {
            target - elapsed
        } else {
            0
        }),
{
    if elapsed < target {
        target - elapsed
    } else {
        0
    }
}

/// One tick of the loop: the grid advances one generation, then the pixel
/// buffer is redrawn from it.
pub fn advance(grid: &mut Grid, c: &Config, buffer: &mut Vec<u32>)
    requires
        old(grid).wf(),
        c.valid(),
        old(grid).width == c.width,
        old(grid).height == c.height,
        old(buffer)@.len() == c.pixel_count(),
    ensures
        final(grid).wf(),
        final(grid).width == old(grid).width,
        final(grid).height == old(grid).height,
        final(grid)@ == old(grid)@.next_generation(),
        final(buffer)@.len() == old(buffer)@.len(),
        forall|p: int|
            0 <= p < old(buffer)@.len() ==> #[trigger] final(buffer)@[p] == cell_color(
                *c,
                final(grid)@.alive(
                    pixel_x(*c, p) / (c.scale as int),
                    pixel_y(*c, p) / (c.scale as int),
                ),
            ),
{
    step(grid);
    render(grid, c, buffer);
}

/// The starting population: nine patterns at fixed places on the standard grid.
pub open spec fn initial_cell(x: int, y: int) -> bool {
    ||| covers(glider(), 10, 10, x, y)
    ||| covers(blinker(), 30, 20, x, y)
    ||| covers(beacon(), 50, 50, x, y)
    ||| covers(toad(), 20, 60, x, y)
    ||| pulsar(x - 10, y - 60)
    ||| covers(pentadecathlon(), 40, 30, x, y)
    ||| covers(lwss(), 80, 20, x, y)
    ||| covers(mwss(), 80, 50, x, y)
    ||| covers(hwss(), 80, 80, x, y)
}

/// The grid the simulation starts from.
pub fn initial_grid() -> (g: Grid)
    ensures
        g.wf(),
        g.width == WIDTH,
        g.height == HEIGHT,
        forall|x: int, y: int| g@.in_bounds(x, y) ==> #[trigger] g@.alive(x, y) == initial_cell(x, y),
{
    let mut g = Grid::new(WIDTH, HEIGHT);
    spawn_glider(&mut g, 10, 10);
    spawn_blinker(&mut g, 30, 20);
    spawn_beacon(&mut g, 50, 50);
    spawn_toad(&mut g, 20, 60);
    spawn_pulsar(&mut g, 60, 10);
    spawn_pentadecathlon(&mut g, 40, 30);
    spawn_lwss(&mut g, 80, 20);
    spawn_mwss(&mut g, 80, 50);
    spawn_hwss(&mut g, 80, 80);
    g
}

} // verus!
