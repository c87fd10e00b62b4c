use game_of_life::grid::{next_generation, Grid};
use game_of_life::seeder::{
    initialize_beehive, initialize_block, initialize_lwss, initialize_pentadecathlon,
    initialize_pulsar, stamp,
};

fn cells_of(grid: &Grid) -> Vec<(usize, usize)> {
    let mut cells = Vec::new();
    for y in 0..grid.height() {
        for x in 0..grid.width() {
            if grid.is_alive(x, y) {
                cells.push((x, y));
            }
        }
    }
    cells
}

fn moved(offsets: &[(usize, usize)], x: usize, y: usize) -> Vec<(usize, usize)> {
    let mut cells: Vec<(usize, usize)> = offsets.iter().map(|&(dx, dy)| (x + dx, y + dy)).collect();
    cells.sort_by_key(|&(cx, cy)| (cy, cx));
    cells
}

const PULSAR: [(usize, usize); 48] = [
    (2, 0), (3, 0), (4, 0), (8, 0), (9, 0), (10, 0),
    (0, 2), (5, 2), (7, 2), (12, 2),
    (0, 3), (5, 3), (7, 3), (12, 3),
    (0, 4), (5, 4), (7, 4), (12, 4),
    (2, 5), (3, 5), (4, 5), (8, 5), (9, 5), (10, 5),
    (2, 7), (3, 7), (4, 7), (8, 7), (9, 7), (10, 7),
    (0, 8), (5, 8), (7, 8), (12, 8),
    (0, 9), (5, 9), (7, 9), (12, 9),
    (0, 10), (5, 10), (7, 10), (12, 10),
    (2, 12), (3, 12), (4, 12), (8, 12), (9, 12), (10, 12),
];

const LWSS: [(usize, usize); 9] =
    [(1, 0), (4, 0), (0, 1), (0, 2), (4, 2), (0, 3), (1, 3), (2, 3), (3, 3)];

#[test]
fn block_on_ten_by_ten_is_a_still_life() {
    let mut grid = Grid::new(10, 10);
    initialize_block(&mut grid, 4, 4);
    for y in 0..10 {
        for x in 0..10 {
            let expected = (x == 4 || x == 5) && (y == 4 || y == 5);
            assert_eq!(grid.is_alive(x, y), expected, "cell ({x}, {y}) before");
        }
    }
    assert_eq!(cells_of(&grid).len(), 4);
    next_generation(&mut grid);
    for y in 0..10 {
        for x in 0..10 {
            let expected = (x == 4 || x == 5) && (y == 4 || y == 5);
            assert_eq!(grid.is_alive(x, y), expected, "cell ({x}, {y}) after");
        }
    }
    assert_eq!(cells_of(&grid), vec![(4, 4), (5, 4), (4, 5), (5, 5)]);
}

#[test]
fn block_in_the_corner_is_a_still_life() {
    let mut grid = Grid::new(2, 2);
    initialize_block(&mut grid, 0, 0);
    next_generation(&mut grid);
    assert_eq!(cells_of(&grid), vec![(0, 0), (1, 0), (0, 1), (1, 1)]);
}

#[test]
fn block_with_a_margin_of_one_is_a_still_life() {
    let mut grid = Grid::new(4, 4);
    initialize_block(&mut grid, 1, 1);
    next_generation(&mut grid);
    assert_eq!(cells_of(&grid), vec![(1, 1), (2, 1), (1, 2), (2, 2)]);
}

#[test]
fn beehive_is_a_still_life() {
    let mut grid = Grid::new(8, 7);
    initialize_beehive(&mut grid, 2, 2);
    let stamped = vec![(3, 2), (4, 2), (2, 3), (5, 3), (3, 4), (4, 4)];
    assert_eq!(cells_of(&grid), stamped);
    next_generation(&mut grid);
    assert_eq!(cells_of(&grid), stamped);
}

#[test]
fn beehive_filling_the_grid_is_a_still_life() {
    let mut grid = Grid::new(4, 3);
    initialize_beehive(&mut grid, 0, 0);
    next_generation(&mut grid);
    assert_eq!(cells_of(&grid), vec![(1, 0), (2, 0), (0, 1), (3, 1), (1, 2), (2, 2)]);
}

#[test]
fn pulsar_returns_after_three_generations() {
    let mut grid = Grid::new(20, 20);
    initialize_pulsar(&mut grid, 2, 3);
    let start = moved(&PULSAR, 2, 3);
    assert_eq!(cells_of(&grid), start);
    next_generation(&mut grid);
    assert_eq!(
        cells_of(&grid),
        vec![
            (5, 2), (11, 2), (5, 3), (11, 3), (5, 4), (6, 4), (10, 4), (11, 4), (1, 6), (2, 6),
            (3, 6), (6, 6), (7, 6), (9, 6), (10, 6), (13, 6), (14, 6), (15, 6), (3, 7), (5, 7),
            (7, 7), (9, 7), (11, 7), (13, 7), (5, 8), (6, 8), (10, 8), (11, 8), (5, 10), (6, 10),
            (10, 10), (11, 10), (3, 11), (5, 11), (7, 11), (9, 11), (11, 11), (13, 11), (1, 12),
            (2, 12), (3, 12), (6, 12), (7, 12), (9, 12), (10, 12), (13, 12), (14, 12), (15, 12),
            (5, 14), (6, 14), (10, 14), (11, 14), (5, 15), (11, 15), (5, 16), (11, 16),
        ]
    );
    next_generation(&mut grid);
    assert_eq!(
        cells_of(&grid),
        vec![
            (4, 3), (5, 3), (11, 3), (12, 3), (5, 4), (6, 4), (10, 4), (11, 4), (2, 5), (5, 5),
            (7, 5), (9, 5), (11, 5), (14, 5), (2, 6), (3, 6), (4, 6), (6, 6), (7, 6), (9, 6),
            (10, 6), (12, 6), (13, 6), (14, 6), (3, 7), (5, 7), (7, 7), (9, 7), (11, 7), (13, 7),
            (4, 8), (5, 8), (6, 8), (10, 8), (11, 8), (12, 8), (4, 10), (5, 10), (6, 10),
            (10, 10), (11, 10), (12, 10), (3, 11), (5, 11), (7, 11), (9, 11), (11, 11), (13, 11),
            (2, 12), (3, 12), (4, 12), (6, 12), (7, 12), (9, 12), (10, 12), (12, 12), (13, 12),
            (14, 12), (2, 13), (5, 13), (7, 13), (9, 13), (11, 13), (14, 13), (5, 14), (6, 14),
            (10, 14), (11, 14), (4, 15), (5, 15), (11, 15), (12, 15),
        ]
    );
    next_generation(&mut grid);
    assert_eq!(cells_of(&grid), start);
}

#[test]
fn pulsar_in_the_smallest_grid_that_holds_it() {
    let mut grid = Grid::new(15, 15);
    initialize_pulsar(&mut grid, 1, 1);
    let start = moved(&PULSAR, 1, 1);
    next_generation(&mut grid);
    assert_ne!(cells_of(&grid), start);
    next_generation(&mut grid);
    assert_ne!(cells_of(&grid), start);
    next_generation(&mut grid);
    assert_eq!(cells_of(&grid), start);
}

#[test]
fn lwss_moves_two_columns_left_in_four_generations() {
    let mut grid = Grid::new(12, 8);
    initialize_lwss(&mut grid, 5, 1);
    assert_eq!(cells_of(&grid), moved(&LWSS, 5, 1));
    next_generation(&mut grid);
    assert_eq!(
        cells_of(&grid),
        vec![
            (5, 2), (6, 2), (4, 3), (5, 3), (7, 3), (8, 3), (5, 4), (6, 4), (7, 4), (8, 4),
            (6, 5), (7, 5),
        ]
    );
    next_generation(&mut grid);
    assert_eq!(
        cells_of(&grid),
        vec![(4, 2), (5, 2), (6, 2), (7, 2), (4, 3), (8, 3), (4, 4), (5, 5), (8, 5)]
    );
    next_generation(&mut grid);
    assert_eq!(
        cells_of(&grid),
        vec![
            (5, 1), (6, 1), (4, 2), (5, 2), (6, 2), (7, 2), (3, 3), (4, 3), (6, 3), (7, 3),
            (4, 4), (5, 4),
        ]
    );
    next_generation(&mut grid);
    assert_eq!(cells_of(&grid), moved(&LWSS, 3, 1));
}

#[test]
fn lwss_in_the_smallest_grid_that_holds_its_cycle() {
    let mut grid = Grid::new(7, 5);
    initialize_lwss(&mut grid, 2, 0);
    for _ in 0..4 {
        next_generation(&mut grid);
    }
    assert_eq!(cells_of(&grid), moved(&LWSS, 0, 0));
}

#[test]
fn lwss_at_the_edge_breaks_up() {
    let mut grid = Grid::new(12, 8);
    initialize_lwss(&mut grid, 0, 1);
    for _ in 0..4 {
        next_generation(&mut grid);
    }
    assert_eq!(cells_of(&grid), vec![(1, 1), (2, 1), (0, 2), (2, 2), (2, 3)]);
}

#[test]
fn pentadecathlon_seed_is_stamped_as_listed() {
    let mut grid = Grid::new(10, 10);
    initialize_pentadecathlon(&mut grid, 3, 2);
    assert_eq!(
        cells_of(&grid),
        vec![
            (5, 2), (6, 2), (7, 2), (3, 4), (8, 4), (3, 5), (8, 5), (3, 6), (8, 6), (5, 8),
            (6, 8), (7, 8),
        ]
    );
}

#[test]
fn stamp_keeps_what_was_alive() {
    let mut grid = Grid::new(6, 6);
    grid.set_alive(0, 0);
    grid.set_alive(4, 4);
    initialize_block(&mut grid, 4, 4);
    assert_eq!(cells_of(&grid), vec![(0, 0), (4, 4), (5, 4), (4, 5), (5, 5)]);
}

#[test]
fn stamp_clips_at_the_right_and_bottom_edges() {
    let mut grid = Grid::new(20, 20);
    initialize_pulsar(&mut grid, 15, 15);
    assert_eq!(
        cells_of(&grid),
        vec![(17, 15), (18, 15), (19, 15), (15, 17), (15, 18), (15, 19)]
    );
}

#[test]
fn stamp_clips_a_block_half_outside() {
    let mut grid = Grid::new(5, 5);
    initialize_block(&mut grid, 4, 2);
    assert_eq!(cells_of(&grid), vec![(4, 2), (4, 3)]);
    initialize_block(&mut grid, 1, 4);
    assert_eq!(cells_of(&grid), vec![(4, 2), (4, 3), (1, 4), (2, 4)]);
}

#[test]
fn stamp_outside_the_grid_changes_nothing() {
    let mut grid = Grid::new(5, 5);
    initialize_block(&mut grid, 5, 0);
    initialize_beehive(&mut grid, 0, 5);
    initialize_lwss(&mut grid, 100, 100);
    assert_eq!(cells_of(&grid), vec![]);
}

#[test]
fn stamp_at_the_largest_origin_does_not_overflow() {
    let mut grid = Grid::new(5, 5);
    initialize_block(&mut grid, usize::MAX, usize::MAX);
    initialize_pulsar(&mut grid, usize::MAX, 0);
    initialize_pulsar(&mut grid, 0, usize::MAX);
    stamp(&mut grid, &[(usize::MAX, usize::MAX), (1, 1)], 1, 1);
    assert_eq!(cells_of(&grid), vec![(2, 2)]);
}

#[test]
fn stamp_of_any_offsets() {
    let mut grid = Grid::new(4, 4);
    stamp(&mut grid, &[(0, 0), (3, 3), (3, 3), (4, 0), (1, 2)], 0, 0);
    assert_eq!(cells_of(&grid), vec![(0, 0), (1, 2), (3, 3)]);
    stamp(&mut grid, &[], 1, 1);
    assert_eq!(cells_of(&grid), vec![(0, 0), (1, 2), (3, 3)]);
    stamp(&mut grid, &[(0, 0), (1, 2)], 2, 1);
    assert_eq!(cells_of(&grid), vec![(0, 0), (2, 1), (1, 2), (3, 3)]);
}
