use game_of_life::grid::Grid;
use game_of_life::pattern::parse_line;
use game_of_life::pattern::Pattern;

fn lines(text: &[&str]) -> Vec<String> {
    text.iter().map(|s| s.to_string()).collect()
}

#[test]
fn parse_line_reads_cells() {
    assert_eq!(parse_line("O.O"), Some(vec![true, false, true]));
    assert_eq!(parse_line("oO0 "), Some(vec![false, true, false, false]));
    assert_eq!(parse_line(""), Some(vec![]));
}

#[test]
fn parse_line_skips_comments() {
    assert_eq!(parse_line("!Name: Blinker"), None);
    assert_eq!(parse_line("!"), None);
    assert_eq!(parse_line("O!"), Some(vec![true, false]));
    assert_eq!(parse_line(" !"), Some(vec![false, false]));
}

#[test]
fn pattern_counts_rows_and_width() {
    let pattern = Pattern::parse(&lines(&["!comment", "O", "OOO", "!another", "OO", ""]));
    assert_eq!(pattern.height(), 4);
    assert_eq!(pattern.width(), 3);
    assert!(pattern.fits(4));
    assert!(!pattern.fits(3));
}

#[test]
fn empty_pattern() {
    let pattern = Pattern::parse(&lines(&[]));
    assert_eq!(pattern.height(), 0);
    assert_eq!(pattern.width(), 0);
    assert!(pattern.fits(1));
    let mut grid = Grid::new(2);
    grid.set(0, 1, true);
    grid.load_pattern(&pattern);
    assert_eq!(grid.render(), ".O\n..\n");
}

#[test]
fn comments_only_pattern() {
    let pattern = Pattern::parse(&lines(&["!a", "!b"]));
    assert_eq!(pattern.height(), 0);
    assert_eq!(pattern.width(), 0);
}

#[test]
fn wide_pattern_does_not_fit() {
    let pattern = Pattern::parse(&lines(&["OOOOOO"]));
    assert!(!pattern.fits(5));
    assert!(pattern.fits(6));
    let tall = Pattern::parse(&lines(&["O", "O", "O"]));
    assert!(!tall.fits(2));
    assert!(tall.fits(3));
}

#[test]
fn pattern_is_centered() {
    let pattern = Pattern::parse(&lines(&["OOO"]));
    let mut grid = Grid::new(5);
    grid.load_pattern(&pattern);
    assert_eq!(grid.render(), ".....\n.....\n.OOO.\n.....\n.....\n");
}

#[test]
fn centering_rounds_down() {
    // 3 rows and 2 columns on a side of 6: corner at ((6 - 3) / 2, (6 - 2) / 2) = (1, 2).
    let pattern = Pattern::parse(&lines(&["OO", "OO", "OO"]));
    let mut grid = Grid::new(6);
    grid.load_pattern(&pattern);
    assert_eq!(grid.render(), "......\n..OO..\n..OO..\n..OO..\n......\n......\n");
}

#[test]
fn centering_formula_holds_for_every_size() {
    for n in 1..=9usize {
        for h in 1..=n {
            for w in 1..=n {
                let row = "O".repeat(w);
                let text: Vec<String> = (0..h).map(|_| row.clone()).collect();
                let pattern = Pattern::parse(&text);
                assert!(pattern.fits(n));
                let mut grid = Grid::new(n);
                grid.load_pattern(&pattern);
                let top = (n - h) / 2;
                let left = (n - w) / 2;
                for r in 0..n {
                    for c in 0..n {
                        let inside = top <= r && r < top + h && left <= c && c < left + w;
                        assert_eq!(grid.get(r, c), inside);
                    }
                }
            }
        }
    }
}

#[test]
fn pattern_filling_the_grid() {
    let pattern = Pattern::parse(&lines(&["O.", ".O"]));
    let mut grid = Grid::new(2);
    grid.load_pattern(&pattern);
    assert_eq!(grid.render(), "O.\n.O\n");
}

#[test]
fn short_rows_are_dead_up_to_the_width() {
    let pattern = Pattern::parse(&lines(&["O", "OOO", ""]));
    let mut grid = Grid::new(5);
    for r in 0..5 {
        for c in 0..5 {
            grid.set(r, c, true);
        }
    }
    grid.load_pattern(&pattern);
    // The box is rows 1 to 3, columns 1 to 3; outside it nothing changes.
    assert_eq!(grid.render(), "OOOOO\nOO..O\nOOOOO\nO...O\nOOOOO\n");
    let holes = Pattern::parse(&lines(&[".", "...", ""]));
    grid.load_pattern(&holes);
    assert_eq!(grid.render(), "OOOOO\nO...O\nO...O\nO...O\nOOOOO\n");
}

#[test]
fn short_row_clears_a_live_cell_in_the_box() {
    let pattern = Pattern::parse(&lines(&["O", "OOO"]));
    assert_eq!(pattern.height(), 2);
    assert_eq!(pattern.width(), 3);
    let mut grid = Grid::new(5);
    grid.set(1, 2, true);
    grid.load_pattern(&pattern);
    assert!(!grid.get(1, 2));
    for r in 0..5 {
        for c in 0..5 {
            let live = (r, c) == (1, 1) || (r == 2 && 1 <= c && c <= 3);
            assert_eq!(grid.get(r, c), live);
        }
    }
}

#[test]
fn cells_outside_the_box_keep_their_value() {
    let pattern = Pattern::parse(&lines(&[".", ".."]));
    let mut grid = Grid::new(4);
    for r in 0..4 {
        for c in 0..4 {
            grid.set(r, c, true);
        }
    }
    grid.load_pattern(&pattern);
    assert_eq!(grid.render(), "OOOO\nO..O\nO..O\nOOOO\n");
}

#[test]
fn other_characters_are_dead() {
    let pattern = Pattern::parse(&lines(&["oO*"]));
    let mut grid = Grid::new(3);
    grid.load_pattern(&pattern);
    assert_eq!(grid.render(), "...\n.O.\n...\n");
}

#[test]
fn comment_lines_take_no_row() {
    let pattern = Pattern::parse(&lines(&["!Name: block", "OO", "!middle", "OO"]));
    let mut grid = Grid::new(4);
    grid.load_pattern(&pattern);
    assert_eq!(grid.render(), "....\n.OO.\n.OO.\n....\n");
}
