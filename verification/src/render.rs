//! Drawing a grid into a framebuffer, one pixel for each cell.

use vstd::prelude::*;
use crate::framebuffer::{Framebuffer, FramebufferView};
use crate::grid::{Grid, GridView};
use crate::index::{lemma_index_div_mod, lemma_index_in_range, lemma_index_position, row_major};

verus! {

/// The color of a dead cell.
pub const DEAD_COLOR: u32 = 0x000000;

/// The color of a live cell.
pub const LIVE_COLOR: u32 = 0xFFFFFF;

/// The color in which a cell is drawn.
pub open spec fn cell_color(alive: bool) -> u32 {
    if alive {
        LIVE_COLOR
    } else {
        DEAD_COLOR
    }
}

/// The picture of a grid: the color of each cell, row by row.
pub open spec fn rendered(g: GridView) -> Seq<u32> {
    Seq::new(
        g.width * g.height,
        |i: int| cell_color(g.alive(i % (g.width as int), i / (g.width as int))),
    )
}

/// Draws the grid into a framebuffer of the same size: the background becomes
/// the color of dead cells, the drawing color that of live cells, and the
/// pixel at `(x, y)` shows the cell at `(x, y)`.
pub fn render(framebuffer: &mut Framebuffer, grid: &Grid)
    requires
        old(framebuffer)@.width == grid@.width,
        old(framebuffer)@.height == grid@.height,
    ensures
        final(framebuffer)@ == (FramebufferView {
            width: grid@.width,
            height: grid@.height,
            background_color: DEAD_COLOR,
            current_color: LIVE_COLOR,
            pixels: rendered(grid@),
        }),
{
    framebuffer.set_background_color(DEAD_COLOR);
    framebuffer.clear();
    framebuffer.set_current_color(LIVE_COLOR);
    let width = grid.width();
    let height = grid.height();
    let ghost w = width as int;
    proof {
        assert forall|cx: int, cy: int| 0 <= cx < width && 0 <= cy < height implies (
        #[trigger] framebuffer@.pixels[row_major(w, cx, cy)]) == DEAD_COLOR by {
            lemma_index_in_range(w, height as int, cx, cy);
        }
    }
    let mut y: usize = 0;
    while y < height
        invariant
            y <= height,
            w == width,
            width == grid@.width,
            height == grid@.height,
            framebuffer@.width == width,
            framebuffer@.height == height,
            framebuffer@.background_color == DEAD_COLOR,
            framebuffer@.current_color == LIVE_COLOR,
            framebuffer@.wf(),
            forall|cx: int, cy: int|
                0 <= cx < width && 0 <= cy < height ==> #[trigger] framebuffer@.pixels[row_major(
                    w,
                    cx,
                    cy,
                )] == cell_color(cy < y && grid@.alive(cx, cy)),
        decreases height - y,
    {
        let mut x: usize = 0;
        while x < width
            invariant
                x <= width,
                y < height,
                w == width,
                width == grid@.width,
                height == grid@.height,
                framebuffer@.width == width,
                framebuffer@.height == height,
                framebuffer@.background_color == DEAD_COLOR,
                framebuffer@.current_color == LIVE_COLOR,
                framebuffer@.wf(),
                forall|cx: int, cy: int|
                    0 <= cx < width && 0 <= cy < height
                        ==> #[trigger] framebuffer@.pixels[row_major(w, cx, cy)] == cell_color(
                        (cy < y || (cy == y && cx < x)) && grid@.alive(cx, cy),
                    ),
            decreases width - x,
        {
            let ghost drawn = framebuffer@.pixels;
            if grid.is_alive(x, y) {
                framebuffer.point(x, y);
            }
            proof {
                assert forall|cx: int, cy: int| 0 <= cx < width && 0 <= cy < height implies (
                #[trigger] framebuffer@.pixels[row_major(w, cx, cy)]) == cell_color(
                    (cy < y || (cy == y && cx < x + 1)) && grid@.alive(cx, cy),
                ) by {
                    lemma_index_in_range(w, height as int, cx, cy);
                    lemma_index_in_range(w, height as int, x as int, y as int);
                    lemma_index_div_mod(w, cx, cy);
                    lemma_index_div_mod(w, x as int, y as int);
                    assert(drawn[row_major(w, cx, cy)] == cell_color(
                        (cy < y || (cy == y && cx < x)) && grid@.alive(cx, cy),
                    ));
                }
            }
            x += 1;
        }
        y += 1;
    }
    proof {
        assert forall|i: int| 0 <= i < width * height implies framebuffer@.pixels[i] == rendered(
            grid@,
        )[i] by {
            lemma_index_position(w, height as int, i);
            assert(framebuffer@.pixels[row_major(w, i % w, i / w)] == cell_color(
                grid@.alive(i % w, i / w),
            ));
        }
        assert(framebuffer@.pixels =~= rendered(grid@));
    }
}

} // verus!
