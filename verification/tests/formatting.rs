use totalgrid::format::{grid_to_strings, puzzle_line, render, render_row, solution_line, usize_to_string};

#[test]
fn decimal_rendering_exact() {
    assert_eq!(usize_to_string(0), "0");
    assert_eq!(usize_to_string(7), "7");
    assert_eq!(usize_to_string(12), "12");
    assert_eq!(usize_to_string(35), "35");
    assert_eq!(usize_to_string(387420489), "387420489");
}

#[test]
fn row_rendering_exact() {
    let row = vec!["0".to_string(), "12".to_string(), "21".to_string()];
    assert_eq!(render_row(&row), "[0, 12, 21]");
    let single = vec!["5".to_string()];
    assert_eq!(render_row(&single), "[5]");
}

#[test]
fn grid_rendering_exact() {
    let grid = vec![
        vec!["0".to_string(), "12".to_string()],
        vec!["10".to_string(), "_".to_string()],
    ];
    assert_eq!(render(&grid), "[[0, 12], [10, _]]");
}

#[test]
fn grid_to_strings_exact() {
    let grid = vec![vec![0usize, 12], vec![10, 7]];
    let strings = grid_to_strings(&grid);
    assert_eq!(
        strings,
        vec![
            vec!["0".to_string(), "12".to_string()],
            vec!["10".to_string(), "7".to_string()],
        ]
    );
}

#[test]
fn output_lines_exact() {
    let masked = vec![
        vec!["0".to_string(), "12".to_string(), "21".to_string()],
        vec!["10".to_string(), "_".to_string(), "_".to_string()],
        vec!["35".to_string(), "_".to_string(), "_".to_string()],
    ];
    assert_eq!(
        puzzle_line(&masked),
        "Puzzle = [[0, 12, 21], [10, _, _], [35, _, _]], puzzle_solution(Puzzle)."
    );
    let grid = vec![vec![0usize, 12, 21], vec![10, 7, 3], vec![35, 5, 7]];
    assert_eq!(solution_line(&grid), "Puzzle = [[0, 12, 21], [10, 7, 3], [35, 5, 7]]");
}
