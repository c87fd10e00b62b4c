use game_of_life::framebuffer::Framebuffer;
use game_of_life::grid::{next_generation, Grid};
use game_of_life::render::{render, DEAD_COLOR, LIVE_COLOR};
use game_of_life::seeder::initialize_block;

#[test]
fn colors_of_cells() {
    assert_eq!(DEAD_COLOR, 0x000000);
    assert_eq!(LIVE_COLOR, 0xFFFFFF);
}

#[test]
fn render_draws_one_pixel_for_each_cell() {
    let mut grid = Grid::new(3, 2);
    grid.set_alive(2, 0);
    grid.set_alive(0, 1);
    let mut fb = Framebuffer::new(3, 2);
    render(&mut fb, &grid);
    assert_eq!(fb.buffer(), &vec![0, 0, 0xFFFFFF, 0xFFFFFF, 0, 0]);
}

#[test]
fn render_overwrites_what_was_drawn_before() {
    let mut grid = Grid::new(2, 2);
    grid.set_alive(1, 1);
    let mut fb = Framebuffer::new(2, 2);
    fb.set_background_color(0x123456);
    fb.clear();
    fb.set_current_color(0x00FF00);
    fb.point(0, 0);
    render(&mut fb, &grid);
    assert_eq!(fb.buffer(), &vec![0, 0, 0, 0xFFFFFF]);
}

#[test]
fn render_leaves_its_colors_set() {
    let grid = Grid::new(2, 1);
    let mut fb = Framebuffer::new(2, 1);
    fb.set_background_color(0x111111);
    fb.set_current_color(0x222222);
    render(&mut fb, &grid);
    fb.point(0, 0);
    assert_eq!(fb.buffer(), &vec![0xFFFFFF, 0x000000]);
    fb.clear();
    assert_eq!(fb.buffer(), &vec![0x000000, 0x000000]);
}

#[test]
fn render_follows_the_generations() {
    let mut grid = Grid::new(5, 5);
    grid.set_alive(1, 2);
    grid.set_alive(2, 2);
    grid.set_alive(3, 2);
    let mut fb = Framebuffer::new(5, 5);
    render(&mut fb, &grid);
    let mut expected = vec![0u32; 25];
    expected[11] = 0xFFFFFF;
    expected[12] = 0xFFFFFF;
    expected[13] = 0xFFFFFF;
    assert_eq!(fb.buffer(), &expected);
    next_generation(&mut grid);
    render(&mut fb, &grid);
    let mut expected = vec![0u32; 25];
    expected[7] = 0xFFFFFF;
    expected[12] = 0xFFFFFF;
    expected[17] = 0xFFFFFF;
    assert_eq!(fb.buffer(), &expected);
}

#[test]
fn render_of_a_block() {
    let mut grid = Grid::new(10, 10);
    initialize_block(&mut grid, 4, 4);
    let mut fb = Framebuffer::new(10, 10);
    render(&mut fb, &grid);
    for y in 0..10 {
        for x in 0..10 {
            let alive = (x == 4 || x == 5) && (y == 4 || y == 5);
            let expected = if alive { 0xFFFFFF } else { 0x000000 };
            assert_eq!(fb.buffer()[y * 10 + x], expected, "pixel ({x}, {y})");
        }
    }
}

#[test]
fn render_of_an_empty_grid() {
    let grid = Grid::new(0, 0);
    let mut fb = Framebuffer::new(0, 0);
    render(&mut fb, &grid);
    assert_eq!(fb.buffer().len(), 0);
}
