//! Stamping patterns onto a grid: a pattern is a list of offsets, and
//! stamping it at an origin makes each cell alive that an offset reaches
//! inside the grid.

use vstd::prelude::*;
use crate::grid::{Grid, GridView};

verus! {

/// Whether one of `offsets`, applied at the origin `(x, y)`, lands on `p`.
pub open spec fn covers(offsets: Seq<(usize, usize)>, x: int, y: int, p: (int, int)) -> bool {
    exists|k: int|
        0 <= k < offsets.len() && p.0 == x + (#[trigger] offsets[k]).0 && p.1 == y + offsets[k].1
}

/// The grid `g` after `offsets` was stamped at the origin `(x, y)`: the cells
/// that were alive stay alive, and each cell of the grid that the stamp covers
/// is alive. What falls outside the grid is clipped.
pub open spec fn stamped(g: GridView, offsets: Seq<(usize, usize)>, x: int, y: int) -> GridView {
    GridView {
        width: g.width,
        height: g.height,
        live: Set::new(
            |p: (int, int)|
                g.live.contains(p) || (g.in_bounds(p.0, p.1) && covers(offsets, x, y, p)),
        ),
    }
}

/// With one more offset taken into account, the stamp covers what it covered
/// before and the position that this offset reaches.
proof fn lemma_covers_one_more(
    offsets: Seq<(usize, usize)>,
    k: int,
    x: int,
    y: int,
    p: (int, int),
)
    requires
        0 <= k < offsets.len(),
    ensures
        covers(offsets.take(k + 1), x, y, p) <==> covers(offsets.take(k), x, y, p) || p == (
            x + offsets[k].0,
            y + offsets[k].1,
        ),
{
    let done = offsets.take(k);
    let more = offsets.take(k + 1);
    if covers(more, x, y, p) {
        let j = choose|j: int|
            0 <= j < more.len() && p.0 == x + (#[trigger] more[j]).0 && p.1 == y + more[j].1;
        if j < k {
            assert(done[j] == more[j]);
        }
    }
    if covers(done, x, y, p) {
        let j = choose|j: int|
            0 <= j < done.len() && p.0 == x + (#[trigger] done[j]).0 && p.1 == y + done[j].1;
        assert(more[j] == done[j]);
    }
    if p == (x + offsets[k].0, y + offsets[k].1) {
        assert(more[k] == offsets[k]);
    }
}

/// Stamps `offsets` onto the grid at the origin `(x, y)`.
pub fn stamp(grid: &mut Grid, offsets: &[(usize, usize)], x: usize, y: usize)
    ensures
        final(grid)@ == stamped(old(grid)@, offsets@, x as int, y as int),
{
    let ghost before = grid@;
    assert(grid@.live =~= stamped(before, offsets@.take(0), x as int, y as int).live);
    let mut k: usize = 0;
    while k < offsets.len()
        invariant
            k <= offsets.len(),
            grid@ == stamped(before, offsets@.take(k as int), x as int, y as int),
        decreases offsets.len() - k,
    {
        let (dx, dy) = offsets[k];
        match (x.checked_add(dx), y.checked_add(dy)) {
            (Some(nx), Some(ny)) => {
                grid.set_alive(nx, ny);
            },
            _ => {},
        }
        proof {
            grid.lemma_view_wf();
            let more = stamped(before, offsets@.take(k + 1), x as int, y as int);
            assert forall|p: (int, int)| grid@.live.contains(p) == more.live.contains(p) by {
                lemma_covers_one_more(offsets@, k as int, x as int, y as int, p);
            }
            assert(grid@.live =~= more.live);
        }
        k += 1;
    }
    assert(offsets@.take(offsets@.len() as int) =~= offsets@);
}

/// The block: a still life of two by two cells.
pub open spec fn block() -> Seq<(usize, usize)> {
    seq![(0, 0), (1, 0), (0, 1), (1, 1)]
}

/// The beehive: a still life of six cells around a hexagon.
pub open spec fn beehive() -> Seq<(usize, usize)> {
    seq![(1, 0), (2, 0), (0, 1), (3, 1), (1, 2), (2, 2)]
}

/// The pentadecathlon seed: two bars of three cells above and below two
/// columns of three.
pub open spec fn pentadecathlon() -> Seq<(usize, usize)> {
    seq![
        (2, 0), (3, 0), (4, 0),
        (0, 2), (5, 2),
        (0, 3), (5, 3),
        (0, 4), (5, 4),
        (2, 6), (3, 6), (4, 6),
    ]
}

/// The lightweight spaceship, heading towards smaller `x`.
pub open spec fn lwss() -> Seq<(usize, usize)> {
    seq![(1, 0), (4, 0), (0, 1), (0, 2), (4, 2), (0, 3), (1, 3), (2, 3), (3, 3)]
}

/// The pulsar: an oscillator of forty-eight cells in four symmetric quarters.
pub open spec fn pulsar() -> Seq<(usize, usize)> {
    seq![
        (2, 0), (3, 0), (4, 0), (8, 0), (9, 0), (10, 0),
        (0, 2), (5, 2), (7, 2), (12, 2),
        (0, 3), (5, 3), (7, 3), (12, 3),
        (0, 4), (5, 4), (7, 4), (12, 4),
        (2, 5), (3, 5), (4, 5), (8, 5), (9, 5), (10, 5),
        (2, 7), (3, 7), (4, 7), (8, 7), (9, 7), (10, 7),
        (0, 8), (5, 8), (7, 8), (12, 8),
        (0, 9), (5, 9), (7, 9), (12, 9),
        (0, 10), (5, 10), (7, 10), (12, 10),
        (2, 12), (3, 12), (4, 12), (8, 12), (9, 12), (10, 12),
    ]
}

/// Stamps the pulsar with the top left corner of its box at `(x, y)`.
pub fn initialize_pulsar(grid: &mut Grid, x: usize, y: usize)
    ensures
        final(grid)@ == stamped(old(grid)@, pulsar(), x as int, y as int),
{
    let offsets: [(usize, usize); 48] = [
        (2, 0), (3, 0), (4, 0), (8, 0), (9, 0), (10, 0),
        (0, 2), (5, 2), (7, 2), (12, 2),
        (0, 3), (5, 3), (7, 3), (12, 3),
        (0, 4), (5, 4), (7, 4), (12, 4),
        (2, 5), (3, 5), (4, 5), (8, 5), (9, 5), (10, 5),
        (2, 7), (3, 7), (4, 7), (8, 7), (9, 7), (10, 7),
        (0, 8), (5, 8), (7, 8), (12, 8),
        (0, 9), (5, 9), (7, 9), (12, 9),
        (0, 10), (5, 10), (7, 10), (12, 10),
        (2, 12), (3, 12), (4, 12), (8, 12), (9, 12), (10, 12),
    ];
    assert(offsets@ =~= pulsar());
    stamp(grid, &offsets, x, y);
}

/// Stamps the lightweight spaceship with the top left corner of its box at
/// `(x, y)`.
pub fn initialize_lwss(grid: &mut Grid, x: usize, y: usize)
    ensures
        final(grid)@ == stamped(old(grid)@, lwss(), x as int, y as int),
{
    let offsets: [(usize, usize); 9] = [
        (1, 0), (4, 0),
        (0, 1), (0, 2), (4, 2),
        (0, 3), (1, 3), (2, 3), (3, 3),
    ];
    assert(offsets@ =~= lwss());
    stamp(grid, &offsets, x, y);
}

/// Stamps the block with its top left corner at `(x, y)`.
pub fn initialize_block(grid: &mut Grid, x: usize, y: usize)
    ensures
        final(grid)@ == stamped(old(grid)@, block(), x as int, y as int),
{
    let offsets: [(usize, usize); 4] = [(0, 0), (1, 0), (0, 1), (1, 1)];
    assert(offsets@ =~= block());
    stamp(grid, &offsets, x, y);
}

/// Stamps the beehive with the top left corner of its box at `(x, y)`.
pub fn initialize_beehive(grid: &mut Grid, x: usize, y: usize)
    ensures
        final(grid)@ == stamped(old(grid)@, beehive(), x as int, y as int),
{
    let offsets: [(usize, usize); 6] = [(1, 0), (2, 0), (0, 1), (3, 1), (1, 2), (2, 2)];
    assert(offsets@ =~= beehive());
    stamp(grid, &offsets, x, y);
}

/// Stamps the pentadecathlon seed with the top left corner of its box at
/// `(x, y)`.
pub fn initialize_pentadecathlon(grid: &mut Grid, x: usize, y: usize)
    ensures
        final(grid)@ == stamped(old(grid)@, pentadecathlon(), x as int, y as int),
{
    let offsets: [(usize, usize); 12] = [
        (2, 0), (3, 0), (4, 0),
        (0, 2), (5, 2),
        (0, 3), (5, 3),
        (0, 4), (5, 4),
        (2, 6), (3, 6), (4, 6),
    ];
    assert(offsets@ =~= pentadecathlon());
    stamp(grid, &offsets, x, y);
}

} // verus!
