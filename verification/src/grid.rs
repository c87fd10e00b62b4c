//! The grid of cells: a rectangle of fixed size in which each cell is alive
//! or dead.

use vstd::prelude::*;
use crate::index::{lemma_index_div_mod, lemma_index_in_range, row_major};

verus! {

/// One generation of the automaton: the dimensions of the grid and the set of
/// its live cells, each named by column and row.
pub struct GridView {
    pub width: nat,
    pub height: nat,
    pub live: Set<(int, int)>,
}

impl GridView {
    /// Whether `(x, y)` is a cell of the grid.
    pub open spec fn in_bounds(self, x: int, y: int) -> bool {
        0 <= x < self.width && 0 <= y < self.height
    }

    /// Whether `(x, y)` is a live cell of the grid. A position outside the
    /// grid is no cell, so it is never alive.
    pub open spec fn alive(self, x: int, y: int) -> bool {
        self.in_bounds(x, y) && self.live.contains((x, y))
    }

    /// Every live cell is a cell of the grid.
    pub open spec fn wf(self) -> bool {
        forall|x: int, y: int| #[trigger] self.live.contains((x, y)) ==> self.in_bounds(x, y)
    }

    /// The grid of the given size in which every cell is dead.
    pub open spec fn empty(width: nat, height: nat) -> GridView {
        GridView { width, height, live: Set::empty() }
    }
}

/// A dense grid of cells, stored row by row. Beside the current generation
/// it owns a second buffer of the same size, into which the next generation
/// is assembled before the two are swapped.
pub struct Grid {
    width: usize,
    height: usize,
    cells: Vec<bool>,
    scratch: Vec<bool>,
}

impl View for Grid {
    type V = GridView;

    closed spec fn view(&self) -> GridView {
        GridView {
            width: self.width as nat,
            height: self.height as nat,
            live: Set::new(
                |p: (int, int)|
                    0 <= p.0 < self.width && 0 <= p.1 < self.height && self.cells@[row_major(
                        self.width as int,
                        p.0,
                        p.1,
                    )],
            ),
        }
    }
}

impl Grid {
    #[verifier::type_invariant]
    spec fn inv(&self) -> bool {
        &&& self.cells.len() == self.width * self.height
        &&& self.scratch.len() == self.width * self.height
    }

    /// The live cells of a grid all lie inside it, and its dimensions are
    /// machine integers.
    pub proof fn lemma_view_wf(&self)
        ensures
            self@.wf(),
            self@.width <= usize::MAX,
            self@.height <= usize::MAX,
    {
    }

    /// A grid of `width * height` cells, all dead.
    pub fn new(width: usize, height: usize) -> (grid: Self)
        requires
            width * height <= usize::MAX,
        ensures
            grid@ == GridView::empty(width as nat, height as nat),
    {
        let cells: Vec<bool> = vec![false; width * height];
        let scratch: Vec<bool> = vec![false; width * height];
        let grid = Self { width, height, cells, scratch };
        assert forall|p: (int, int)| !grid@.live.contains(p) by {
            if 0 <= p.0 < width && 0 <= p.1 < height {
                lemma_index_in_range(width as int, height as int, p.0, p.1);
            }
        }
        assert(grid@.live =~= Set::empty());
        grid
    }

    /// The number of columns.
    pub fn width(&self) -> (width: usize)
        ensures
            width == self@.width,
    {
        self.width
    }

    /// The number of rows.
    pub fn height(&self) -> (height: usize)
        ensures
            height == self@.height,
    {
        self.height
    }

    /// Whether the cell `(x, y)` is alive; `false` for a position outside the
    /// grid.
    pub fn is_alive(&self, x: usize, y: usize) -> (alive: bool)
        ensures
            alive == self@.alive(x as int, y as int),
    {
        proof {
            use_type_invariant(self);
        }
        if x < self.width && y < self.height {
            proof {
                lemma_index_in_range(self.width as int, self.height as int, x as int, y as int);
            }
            self.cells[y * self.width + x]
        } else {
            false
        }
    }

    /// Makes the cell `(x, y)` alive; a position outside the grid is clipped
    /// and nothing changes.
    pub fn set_alive(&mut self, x: usize, y: usize)
        ensures
            final(self)@.width == old(self)@.width,
            final(self)@.height == old(self)@.height,
            final(self)@.live == if old(self)@.in_bounds(x as int, y as int) {
                old(self)@.live.insert((x as int, y as int))
            } else {
                old(self)@.live
            },
    {
        proof {
            use_type_invariant(&*self);
        }
        if x < self.width && y < self.height {
            let ghost w = self.width as int;
            proof {
                lemma_index_in_range(w, self.height as int, x as int, y as int);
            }
            self.cells[y * self.width + x] = true;
            proof {
                assert forall|p: (int, int)|
                    self@.live.contains(p) == old(self)@.live.insert(
                        (x as int, y as int),
                    ).contains(p) by {
                    if 0 <= p.0 < w && 0 <= p.1 < self.height {
                        lemma_index_in_range(w, self.height as int, p.0, p.1);
                        lemma_index_div_mod(w, p.0, p.1);
                        lemma_index_div_mod(w, x as int, y as int);
                        assert(p == (x as int, y as int) <==> row_major(w, p.0, p.1)
                            == row_major(w, x as int, y as int));
                    }
                }
                assert(self@.live =~= old(self)@.live.insert((x as int, y as int)));
            }
        }
    }
}

/// 1 for a live cell, 0 for a dead one.
pub open spec fn population(alive: bool) -> nat {
    if alive {
        1
    } else {
        0
    }
}

/// The number of live cells among the eight positions around `(x, y)`. The
/// grid is bounded: a position outside it is not alive, and nothing wraps
/// around.
pub open spec fn live_neighbors(g: GridView, x: int, y: int) -> nat {
    population(g.alive(x - 1, y - 1)) + population(g.alive(x, y - 1)) + population(
        g.alive(x + 1, y - 1),
    ) + population(g.alive(x - 1, y)) + population(g.alive(x + 1, y)) + population(
        g.alive(x - 1, y + 1),
    ) + population(g.alive(x, y + 1)) + population(g.alive(x + 1, y + 1))
}

/// The transition rule: a live cell stays alive with two or three live
/// neighbors, a dead cell becomes alive with exactly three.
pub open spec fn next_state(alive: bool, neighbors: nat) -> bool {
    if alive {
        neighbors == 2 || neighbors == 3
    } else {
        neighbors == 3
    }
}

/// The generation that follows `g`: every cell of the grid takes the state
/// that the rule gives it from its own state and its live neighbors in `g`.
pub open spec fn step(g: GridView) -> GridView {
    GridView {
        width: g.width,
        height: g.height,
        live: Set::new(
            |p: (int, int)|
                g.in_bounds(p.0, p.1) && next_state(
                    g.alive(p.0, p.1),
                    live_neighbors(g, p.0, p.1),
                ),
        ),
    }
}

/// What the rule makes of one cell: its next state is the rule applied to its
/// own state and the number of its live neighbors in `g`. A position outside
/// the grid stays no cell.
pub proof fn lemma_step_cell(g: GridView, x: int, y: int)
    ensures
        step(g).alive(x, y) == (g.in_bounds(x, y) && next_state(
            g.alive(x, y),
            live_neighbors(g, x, y),
        )),
{
}

/// The next state of a cell depends on nothing but its own state and the
/// number of its live neighbors: two grids of one size that agree in both at
/// `(x, y)` agree at `(x, y)` in the next generation.
pub proof fn lemma_step_depends_on_neighbor_count(a: GridView, b: GridView, x: int, y: int)
    requires
        a.width == b.width,
        a.height == b.height,
        a.alive(x, y) == b.alive(x, y),
        live_neighbors(a, x, y) == live_neighbors(b, x, y),
    ensures
        step(a).alive(x, y) == step(b).alive(x, y),
{
}

/// A generation keeps the size of the grid, and every cell that lives in it
/// is a cell of the grid.
pub proof fn lemma_step_wf(g: GridView)
    ensures
        step(g).width == g.width,
        step(g).height == g.height,
        step(g).wf(),
{
}

/// 1 if the cell at `(x + dx, y + dy)` is alive, else 0.
fn neighbor(grid: &Grid, x: usize, y: usize, dx: isize, dy: isize) -> (n: u32)
    ensures
        n == population(grid@.alive(x + dx, y + dy)),
{
    match (x.checked_add_signed(dx), y.checked_add_signed(dy)) {
        (Some(nx), Some(ny)) => if grid.is_alive(nx, ny) {
            1
        } else {
            0
        },
        _ => 0,
    }
}

/// Counts the live cells among the eight neighbors of `(x, y)`.
pub fn count_neighbors(grid: &Grid, x: usize, y: usize) -> (count: u32)
    ensures
        count == live_neighbors(grid@, x as int, y as int),
{
    let above: u32 = neighbor(grid, x, y, -1, -1) + neighbor(grid, x, y, 0, -1) + neighbor(
        grid,
        x,
        y,
        1,
        -1,
    );
    let beside: u32 = neighbor(grid, x, y, -1, 0) + neighbor(grid, x, y, 1, 0);
    let below: u32 = neighbor(grid, x, y, -1, 1) + neighbor(grid, x, y, 0, 1) + neighbor(
        grid,
        x,
        y,
        1,
        1,
    );
    above + beside + below
}

/// Replaces the grid by its next generation. Every neighbor count is taken
/// from the generation before the call; the new one is assembled in the second
/// buffer and swapped in when it is complete.
pub fn next_generation(grid: &mut Grid)
    ensures
        final(grid)@ == step(old(grid)@),
{
    proof {
        use_type_invariant(&*grid);
    }
    let width = grid.width;
    let height = grid.height;
    let ghost before = grid@;
    let mut y: usize = 0;
    while y < height
        invariant
            y <= height,
            grid.width == width,
            grid.height == height,
            grid@ == before,
            grid.cells.len() == width * height,
            grid.scratch.len() == width * height,
            forall|cx: int, cy: int|
                0 <= cx < width && 0 <= cy < y ==> #[trigger] grid.scratch@[row_major(
                    width as int,
                    cx,
                    cy,
                )] == step(before).live.contains((cx, cy)),
        decreases height - y,
    {
        let mut x: usize = 0;
        while x < width
            invariant
                x <= width,
                y < height,
                grid.width == width,
                grid.height == height,
                grid@ == before,
                grid.cells.len() == width * height,
                grid.scratch.len() == width * height,
                forall|cx: int, cy: int|
                    0 <= cx < width && (0 <= cy < y || (cy == y && cx < x))
                        ==> #[trigger] grid.scratch@[row_major(width as int, cx, cy)] == step(
                        before,
                    ).live.contains((cx, cy)),
            decreases width - x,
        {
            let neighbors = count_neighbors(grid, x, y);
            let alive = grid.is_alive(x, y);
            let next = if alive {
                neighbors == 2 || neighbors == 3
            } else {
                neighbors == 3
            };
            proof {
                lemma_index_in_range(width as int, height as int, x as int, y as int);
            }
            let ghost filled = grid.scratch@;
            grid.scratch[y * width + x] = next;
            proof {
                assert forall|cx: int, cy: int|
                    0 <= cx < width && (0 <= cy < y || (cy == y && cx < x + 1)) implies (
                    #[trigger] grid.scratch@[row_major(width as int, cx, cy)]) == step(
                    before,
                ).live.contains((cx, cy)) by {
                    lemma_index_in_range(width as int, height as int, cx, cy);
                    lemma_index_div_mod(width as int, cx, cy);
                    lemma_index_div_mod(width as int, x as int, y as int);
                    if cx != x || cy != y {
                        assert(row_major(width as int, cx, cy) != row_major(
                            width as int,
                            x as int,
                            y as int,
                        ));
                        assert(grid.scratch@[row_major(width as int, cx, cy)]
                            == filled[row_major(width as int, cx, cy)]);
                    }
                }
            }
            x += 1;
        }
        y += 1;
    }
    std::mem::swap(&mut grid.cells, &mut grid.scratch);
    proof {
        assert forall|p: (int, int)| grid@.live.contains(p) == step(before).live.contains(p) by {
            if 0 <= p.0 < width && 0 <= p.1 < height {
                lemma_index_in_range(width as int, height as int, p.0, p.1);
            }
        }
        assert(grid@.live =~= step(before).live);
    }
}

} // verus!
