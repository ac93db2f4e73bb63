use koan::tui::visualizer::{BrailleGrid, Colour};

#[test]
fn braille_grid_basic() {
    let mut grid = BrailleGrid::new(10, 5);
    assert_eq!(grid.px_width(), 20);
    assert_eq!(grid.px_height(), 20);

    // Set a dot and verify it sticks.
    assert!(grid.set_dot(0, 0, Colour::White));
    assert_eq!(grid.dots[0], 1 << 0); // top-left dot of cell (0,0).

    // Out of bounds returns false.
    assert!(!grid.set_dot(20, 0, Colour::White));
    assert!(!grid.set_dot(0, 20, Colour::White));
}
