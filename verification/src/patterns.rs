//! What the named patterns do when they run alone on a grid that is large
//! enough for them: the still lifes stay, the pulsar returns, the spaceship
//! travels.

use vstd::prelude::*;
use crate::grid::{step, GridView};
use crate::seeder::{beehive, block, covers, lwss, pulsar, stamped};

verus! {

/// The grid of the given size on which nothing lives but the pattern
/// `offsets`, stamped at the origin `(x, y)`.
pub open spec fn placed(
    width: nat,
    height: nat,
    offsets: Seq<(usize, usize)>,
    x: int,
    y: int,
) -> GridView {
    stamped(GridView::empty(width, height), offsets, x, y)
}

/// The cells of the beehive, relative to its origin.
spec fn beehive_cell(rx: int, ry: int) -> bool {
    ||| (ry == 0 || ry == 2) && (1 <= rx <= 2)
    ||| ry == 1 && (rx == 0 || rx == 3)
}

/// The cells of the spaceship in each of the four generations of its cycle,
/// relative to the origin of the first.
spec fn lwss_cell(phase: int, rx: int, ry: int) -> bool {
    if phase == 0 {
        ||| ry == 0 && (rx == 1 || rx == 4)
        ||| ry == 1 && rx == 0
        ||| ry == 2 && (rx == 0 || rx == 4)
        ||| ry == 3 && (0 <= rx <= 3)
    } else if phase == 1 {
        ||| ry == 1 && (0 <= rx <= 1)
        ||| ry == 2 && (-1 <= rx <= 0 || 2 <= rx <= 3)
        ||| ry == 3 && (0 <= rx <= 3)
        ||| ry == 4 && (1 <= rx <= 2)
    } else if phase == 2 {
        ||| ry == 1 && (-1 <= rx <= 2)
        ||| ry == 2 && (rx == -1 || rx == 3)
        ||| ry == 3 && rx == -1
        ||| ry == 4 && (rx == 0 || rx == 3)
    } else {
        ||| ry == 0 && (0 <= rx <= 1)
        ||| ry == 1 && (-1 <= rx <= 2)
        ||| ry == 2 && (-2 <= rx <= -1 || 1 <= rx <= 2)
        ||| ry == 3 && (-1 <= rx <= 0)
    }
}

/// The cells of the pulsar in each of the three generations of its cycle,
/// relative to its origin.
spec fn pulsar_cell(phase: int, rx: int, ry: int) -> bool {
    if phase == 0 {
        ||| (ry == 0 || ry == 5 || ry == 7 || ry == 12) && (2 <= rx <= 4 || 8 <= rx <= 10)
        ||| (2 <= ry <= 4 || 8 <= ry <= 10) && (rx == 0 || rx == 5 || rx == 7 || rx == 12)
    } else if phase == 1 {
        ||| (-1 <= ry <= 0 || 12 <= ry <= 13) && (rx == 3 || rx == 9)
        ||| (ry == 1 || ry == 5 || ry == 7 || ry == 11) && (3 <= rx <= 4 || 8 <= rx <= 9)
        ||| (ry == 3 || ry == 9) && (-1 <= rx <= 1 || 4 <= rx <= 5 || 7 <= rx <= 8 || 11 <= rx
            <= 13)
        ||| (ry == 4 || ry == 8) && (rx == 1 || rx == 3 || rx == 5 || rx == 7 || rx == 9 || rx
            == 11)
    } else {
        ||| (ry == 0 || ry == 12) && (2 <= rx <= 3 || 9 <= rx <= 10)
        ||| (ry == 1 || ry == 11) && (3 <= rx <= 4 || 8 <= rx <= 9)
        ||| (ry == 2 || ry == 10) && (rx == 0 || rx == 3 || rx == 5 || rx == 7 || rx == 9 || rx
            == 12)
        ||| (ry == 3 || ry == 9) && (0 <= rx <= 2 || 4 <= rx <= 5 || 7 <= rx <= 8 || 10 <= rx
            <= 12)
        ||| (ry == 4 || ry == 8) && (rx == 1 || rx == 3 || rx == 5 || rx == 7 || rx == 9 || rx
            == 11)
        ||| (ry == 5 || ry == 7) && (2 <= rx <= 4 || 8 <= rx <= 10)
    }
}

/// The grid on which exactly the spaceship's cells of one phase live.
spec fn lwss_grid(phase: int, width: nat, height: nat, x: int, y: int) -> GridView {
    GridView { width, height, live: Set::new(|p: (int, int)| lwss_cell(phase, p.0 - x, p.1 - y)) }
}

/// The grid on which exactly the pulsar's cells of one phase live.
spec fn pulsar_grid(phase: int, width: nat, height: nat, x: int, y: int) -> GridView {
    GridView {
        width,
        height,
        live: Set::new(|p: (int, int)| pulsar_cell(phase, p.0 - x, p.1 - y)),
    }
}

/// The offsets of the spaceship name the cells of its first phase.
proof fn lemma_lwss_placed(width: nat, height: nat, x: int, y: int)
    requires
        0 <= x,
        0 <= y,
        x + 4 < width,
        y + 3 < height,
    ensures
        placed(width, height, lwss(), x, y) == lwss_grid(0, width, height, x, y),
{
    let s = lwss();
    assert forall|k: int| 0 <= k < s.len() implies lwss_cell(
        0,
        (#[trigger] s[k]).0 as int,
        s[k].1 as int,
    ) by {}
    assert forall|rx: int, ry: int| lwss_cell(0, rx, ry) implies exists|k: int|
        0 <= k < s.len() && (#[trigger] s[k]) == (rx as usize, ry as usize) by {}
    assert forall|p: (int, int)| covers(s, x, y, p) <==> lwss_cell(0, p.0 - x, p.1 - y) by {}
    assert(placed(width, height, s, x, y).live =~= lwss_grid(0, width, height, x, y).live);
}

/// The offsets of the pulsar name the cells of its first phase.
proof fn lemma_pulsar_placed(width: nat, height: nat, x: int, y: int)
    requires
        0 <= x,
        0 <= y,
        x + 12 < width,
        y + 12 < height,
    ensures
        placed(width, height, pulsar(), x, y) == pulsar_grid(0, width, height, x, y),
{
    let s = pulsar();
    assert forall|k: int| 0 <= k < s.len() implies pulsar_cell(
        0,
        (#[trigger] s[k]).0 as int,
        s[k].1 as int,
    ) by {}
    assert forall|rx: int, ry: int| pulsar_cell(0, rx, ry) implies exists|k: int|
        0 <= k < s.len() && (#[trigger] s[k]) == (rx as usize, ry as usize) by {}
    assert forall|p: (int, int)| covers(s, x, y, p) <==> pulsar_cell(0, p.0 - x, p.1 - y) by {}
    assert(placed(width, height, s, x, y).live =~= pulsar_grid(0, width, height, x, y).live);
}

/// One generation takes the spaceship from each phase to the next, and from
/// the last back to the first, two columns further on.
proof fn lemma_lwss_turn(phase: int, width: nat, height: nat, x: int, y: int)
    requires
        0 <= phase < 4,
        2 <= x,
        0 <= y,
        x + 4 < width,
        y + 4 < height,
    ensures
        step(lwss_grid(phase, width, height, x, y)) == if phase < 3 {
            lwss_grid(phase + 1, width, height, x, y)
        } else {
            lwss_grid(0, width, height, x - 2, y)
        },
{
    let next = if phase < 3 {
        lwss_grid(phase + 1, width, height, x, y)
    } else {
        lwss_grid(0, width, height, x - 2, y)
    };
    assert(step(lwss_grid(phase, width, height, x, y)).live =~= next.live);
}

/// One generation takes the pulsar from each phase to the next, and from the
/// last back to the first.
proof fn lemma_pulsar_turn(phase: int, width: nat, height: nat, x: int, y: int)
    requires
        0 <= phase < 3,
        1 <= x,
        1 <= y,
        x + 13 < width,
        y + 13 < height,
    ensures
        step(pulsar_grid(phase, width, height, x, y)) == pulsar_grid(
            (phase + 1) % 3,
            width,
            height,
            x,
            y,
        ),
{
    assert(step(pulsar_grid(phase, width, height, x, y)).live =~= pulsar_grid(
        (phase + 1) % 3,
        width,
        height,
        x,
        y,
    ).live);
}

/// A block that lies inside the grid is a still life: the next generation is
/// the same grid.
pub proof fn lemma_block_is_still_life(width: nat, height: nat, x: int, y: int)
    requires
        0 <= x,
        0 <= y,
        x + 1 < width,
        y + 1 < height,
    ensures
        step(placed(width, height, block(), x, y)) == placed(width, height, block(), x, y),
{
    let s = block();
    let g = placed(width, height, s, x, y);
    assert(s[0] == (0usize, 0usize) && s[1] == (1usize, 0usize) && s[2] == (0usize, 1usize)
        && s[3] == (1usize, 1usize));
    assert forall|p: (int, int)|
        covers(s, x, y, p) <==> (x <= p.0 <= x + 1 && y <= p.1 <= y + 1) by {}
    assert(step(g).live =~= g.live);
}

/// A beehive that lies inside the grid is a still life: the next generation
/// is the same grid.
pub proof fn lemma_beehive_is_still_life(width: nat, height: nat, x: int, y: int)
    requires
        0 <= x,
        0 <= y,
        x + 3 < width,
        y + 2 < height,
    ensures
        step(placed(width, height, beehive(), x, y)) == placed(width, height, beehive(), x, y),
{
    let s = beehive();
    let g = placed(width, height, s, x, y);
    assert(s[0] == (1usize, 0usize) && s[1] == (2usize, 0usize) && s[2] == (0usize, 1usize)
        && s[3] == (3usize, 1usize) && s[4] == (1usize, 2usize) && s[5] == (2usize, 2usize));
    assert forall|p: (int, int)| covers(s, x, y, p) <==> beehive_cell(p.0 - x, p.1 - y) by {}
    assert(step(g).live =~= g.live);
}

/// A pulsar whose three phases all lie inside the grid has period three:
/// after three generations the grid is what it was, and after one or two it
/// is not.
pub proof fn lemma_pulsar_has_period_three(width: nat, height: nat, x: int, y: int)
    requires
        1 <= x,
        1 <= y,
        x + 13 < width,
        y + 13 < height,
    ensures
        step(step(step(placed(width, height, pulsar(), x, y)))) == placed(
            width,
            height,
            pulsar(),
            x,
            y,
        ),
        step(placed(width, height, pulsar(), x, y)) != placed(width, height, pulsar(), x, y),
        step(step(placed(width, height, pulsar(), x, y))) != placed(
            width,
            height,
            pulsar(),
            x,
            y,
        ),
{
    lemma_pulsar_placed(width, height, x, y);
    lemma_pulsar_turn(0, width, height, x, y);
    lemma_pulsar_turn(1, width, height, x, y);
    lemma_pulsar_turn(2, width, height, x, y);
    assert(pulsar_grid(0, width, height, x, y).live.contains((x + 4, y)));
    assert(!pulsar_grid(1, width, height, x, y).live.contains((x + 4, y)));
    assert(!pulsar_grid(2, width, height, x, y).live.contains((x + 4, y)));
}

/// A lightweight spaceship whose four phases all lie inside the grid travels:
/// after four generations the grid holds the same ship two columns to the
/// left, and nothing else.
pub proof fn lemma_lwss_travels(width: nat, height: nat, x: int, y: int)
    requires
        2 <= x,
        0 <= y,
        x + 4 < width,
        y + 4 < height,
    ensures
        step(step(step(step(placed(width, height, lwss(), x, y))))) == placed(
            width,
            height,
            lwss(),
            x - 2,
            y,
        ),
{
    lemma_lwss_placed(width, height, x, y);
    lemma_lwss_turn(0, width, height, x, y);
    lemma_lwss_turn(1, width, height, x, y);
    lemma_lwss_turn(2, width, height, x, y);
    lemma_lwss_turn(3, width, height, x, y);
    lemma_lwss_placed(width, height, x - 2, y);
}

} // verus!
