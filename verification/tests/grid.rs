use game_of_life::grid::Grid;

fn grid_from(rows: &[&str]) -> Grid {
    let mut grid = Grid::new(rows.len());
    for (r, line) in rows.iter().enumerate() {
        for (c, ch) in line.chars().enumerate() {
            grid.set(r, c, ch == 'O');
        }
    }
    grid
}

fn live_cells(grid: &Grid) -> usize {
    let n = grid.size();
    let mut live = 0;
    for r in 0..n {
        for c in 0..n {
            if grid.get(r, c) {
                live += 1;
            }
        }
    }
    live
}

#[test]
fn new_grid_is_all_dead() {
    for n in 1..=12 {
        let grid = Grid::new(n);
        assert_eq!(grid.size(), n);
        assert_eq!(live_cells(&grid), 0);
        assert_eq!(grid.render().chars().filter(|&c| c == '.').count(), n * n);
    }
}

#[test]
fn set_changes_one_cell_only() {
    let mut grid = Grid::new(4);
    grid.set(2, 3, true);
    for r in 0..4 {
        for c in 0..4 {
            assert_eq!(grid.get(r, c), r == 2 && c == 3);
        }
    }
    grid.set(2, 3, false);
    assert_eq!(live_cells(&grid), 0);
}

#[test]
fn cells_are_stored_row_by_row() {
    let mut grid = Grid::new(3);
    grid.set(0, 2, true);
    grid.set(1, 0, true);
    assert_eq!(grid.render(), "..O\nO..\n...\n");
}

#[test]
fn clone_is_independent() {
    let mut grid = Grid::new(2);
    grid.set(0, 0, true);
    let copy = grid.clone();
    grid.set(1, 1, true);
    assert_eq!(copy.render(), "O.\n..\n");
    assert_eq!(grid.render(), "O.\n.O\n");
}

#[test]
fn neighbors_of_a_full_grid() {
    let grid = grid_from(&["OOO", "OOO", "OOO"]);
    let expected = [[3u8, 5, 3], [5, 8, 5], [3, 5, 3]];
    for r in 0..3 {
        for c in 0..3 {
            assert_eq!(grid.count_live_neighbors(r, c), expected[r][c]);
        }
    }
}

#[test]
fn neighbors_never_exceed_eight() {
    let grid = grid_from(&["OOOOO", "OOOOO", "OOOOO", "OOOOO", "OOOOO"]);
    for r in 0..5 {
        for c in 0..5 {
            assert!(grid.count_live_neighbors(r, c) <= 8);
        }
    }
    assert_eq!(grid.count_live_neighbors(2, 2), 8);
}

#[test]
fn neighbors_do_not_wrap_around() {
    let grid = grid_from(&["O..O", "....", "....", "O..O"]);
    assert_eq!(grid.count_live_neighbors(0, 0), 0);
    assert_eq!(grid.count_live_neighbors(0, 3), 0);
    assert_eq!(grid.count_live_neighbors(3, 0), 0);
    assert_eq!(grid.count_live_neighbors(3, 3), 0);
    assert_eq!(grid.count_live_neighbors(0, 1), 1);
    assert_eq!(grid.count_live_neighbors(1, 0), 1);
}

#[test]
fn neighbors_skip_the_cell_itself() {
    let grid = grid_from(&["...", ".O.", "..."]);
    assert_eq!(grid.count_live_neighbors(1, 1), 0);
    assert_eq!(grid.count_live_neighbors(0, 0), 1);
    assert_eq!(grid.count_live_neighbors(2, 1), 1);
}

#[test]
fn neighbors_on_a_grid_of_one_cell() {
    let mut grid = Grid::new(1);
    assert_eq!(grid.count_live_neighbors(0, 0), 0);
    grid.set(0, 0, true);
    assert_eq!(grid.count_live_neighbors(0, 0), 0);
    assert_eq!(grid.next_generation().render(), ".\n");
}

#[test]
fn lone_cell_dies() {
    for n in 3..=9 {
        for r in 1..n - 1 {
            for c in 1..n - 1 {
                let mut grid = Grid::new(n);
                grid.set(r, c, true);
                let next = grid.next_generation();
                assert_eq!(next.size(), n);
                assert_eq!(live_cells(&next), 0);
            }
        }
    }
}

#[test]
fn block_is_stable() {
    let grid = grid_from(&["....", ".OO.", ".OO.", "...."]);
    let next = grid.next_generation();
    assert_eq!(next.render(), grid.render());
    assert_eq!(next.render(), "....\n.OO.\n.OO.\n....\n");
}

#[test]
fn block_in_a_corner_is_stable() {
    let grid = grid_from(&["OO.", "OO.", "..."]);
    assert_eq!(grid.next_generation().render(), "OO.\nOO.\n...\n");
}

#[test]
fn blinker_has_period_two() {
    let grid = grid_from(&[".....", ".....", ".OOO.", ".....", "....."]);
    let once = grid.next_generation();
    assert_eq!(once.render(), ".....\n..O..\n..O..\n..O..\n.....\n");
    let twice = once.next_generation();
    assert_eq!(twice.render(), grid.render());
}

#[test]
fn blinker_on_the_edge_is_cut() {
    let grid = grid_from(&["OOO", "...", "..."]);
    let once = grid.next_generation();
    assert_eq!(once.render(), ".O.\n.O.\n...\n");
    assert_eq!(once.next_generation().render(), "...\n...\n...\n");
}

#[test]
fn rule_table() {
    // The center of a 3x3 grid with k live neighbors, alive and dead.
    let ring = [(0, 0), (0, 1), (0, 2), (1, 0), (1, 2), (2, 0), (2, 1), (2, 2)];
    for k in 0..=8usize {
        for alive in [false, true] {
            let mut grid = Grid::new(3);
            grid.set(1, 1, alive);
            for &(r, c) in ring.iter().take(k) {
                grid.set(r, c, true);
            }
            assert_eq!(grid.count_live_neighbors(1, 1) as usize, k);
            let expected = if alive { k == 2 || k == 3 } else { k == 3 };
            assert_eq!(grid.next_generation().get(1, 1), expected);
        }
    }
}

#[test]
fn next_generation_leaves_the_source_alone() {
    let grid = grid_from(&[".O.", ".O.", ".O."]);
    let before = grid.render();
    let next = grid.next_generation();
    assert_eq!(grid.render(), before);
    assert_eq!(next.render(), "...\nOOO\n...\n");
}

#[test]
fn glider_moves_diagonally() {
    let grid = grid_from(&[".O....", "..O...", "OOO...", "......", "......", "......"]);
    let mut current = grid;
    for _ in 0..4 {
        current = current.next_generation();
    }
    assert_eq!(current.render(), "......\n..O...\n...O..\n.OOO..\n......\n......\n");
}

#[test]
fn render_matches_cells() {
    let grid = grid_from(&["O..O", ".OO.", "....", "O.O."]);
    let text: Vec<char> = grid.render().chars().collect();
    let n = grid.size();
    assert_eq!(text.len(), n * (n + 1));
    for r in 0..n {
        for c in 0..n {
            assert_eq!(text[r * (n + 1) + c] == 'O', grid.get(r, c));
            assert_eq!(text[r * (n + 1) + c] == '.', !grid.get(r, c));
        }
        assert_eq!(text[r * (n + 1) + n], '\n');
    }
}
