use totalgrid::format::{puzzle_line, solution_line};
use totalgrid::gen::{assemble, build_row, dimension_ok, gen_row, gen_test, generate, line_total, random_total};
use totalgrid::grid::{transpose, valid_test};
use totalgrid::mask::mask;

fn sum_and_product(cells: &[usize]) -> (usize, usize) {
    (cells.iter().sum(), cells.iter().product())
}

#[test]
fn transpose_exact() {
    let m = vec![vec![1usize, 2, 3], vec![4, 5, 6]];
    assert_eq!(transpose(&m), vec![vec![1, 4], vec![2, 5], vec![3, 6]]);
}

#[test]
fn line_total_exact() {
    let line = vec![7usize, 5];
    assert_eq!(line_total(&line, false), 12);
    assert_eq!(line_total(&line, true), 35);
    let empty: Vec<usize> = vec![];
    assert_eq!(line_total(&empty, false), 0);
    assert_eq!(line_total(&empty, true), 1);
    let nine = vec![9usize; 9];
    assert_eq!(line_total(&nine, false), 81);
    assert_eq!(line_total(&nine, true), 387420489);
}

#[test]
fn random_total_is_sum_or_product() {
    let line = vec![3usize, 4, 5];
    for _ in 0..20 {
        let t = random_total(&line);
        assert!(t == 12 || t == 60);
    }
}

#[test]
fn build_row_exact() {
    // Drawn values [3, 5], diagonal 7 overwriting position 0, sum chosen.
    let row = build_row(0, 7, &vec![3, 5], false);
    assert_eq!(row, vec![12, 7, 5]);
    // Same drawn values, diagonal overwriting position 1, product chosen.
    let row = build_row(1, 7, &vec![3, 5], true);
    assert_eq!(row, vec![21, 3, 7]);
}

#[test]
fn validator_accepts_distinct_lines() {
    let grid = vec![vec![0usize, 12, 21], vec![10, 7, 3], vec![35, 5, 7]];
    assert!(valid_test(&grid));
}

#[test]
fn validator_rejects_duplicate_in_row() {
    // Row 2 holds the value 5 twice.
    let grid = vec![vec![0usize, 12, 21], vec![10, 7, 3], vec![5, 5, 7]];
    assert!(!valid_test(&grid));
}

#[test]
fn validator_rejects_duplicate_in_column() {
    // Every row is distinct, but column 2 holds the value 3 twice.
    let grid = vec![vec![0usize, 12, 3], vec![10, 7, 3], vec![35, 5, 7]];
    assert!(!valid_test(&grid));
}

#[test]
fn validator_rejects_total_equal_to_cell() {
    // Row 1 repeats its own total among the cells.
    let grid = vec![vec![0usize, 12, 21], vec![7, 7, 3], vec![35, 5, 6]];
    assert!(!valid_test(&grid));
}

#[test]
fn assemble_exact() {
    let rows = vec![vec![12usize, 7, 5], vec![21, 3, 7]];
    let grid = assemble(&rows, &vec![false, true]);
    assert_eq!(grid, vec![vec![0, 12, 21], vec![10, 7, 3], vec![35, 5, 7]]);
}

// Deterministic end-to-end scenario at the lower supported dimension: fixed
// diagonal value 7, fixed drawn cells, fixed operator choices.
#[test]
fn scenario_dimension_two() {
    let diagonal = 7;
    let row0 = build_row(0, diagonal, &vec![3, 5], false);
    let row1 = build_row(1, diagonal, &vec![3, 5], true);
    assert_eq!(row0, vec![12, 7, 5]);
    assert_eq!(row1, vec![21, 3, 7]);
    let grid = assemble(&vec![row0, row1], &vec![false, true]);
    assert_eq!(grid, vec![vec![0, 12, 21], vec![10, 7, 3], vec![35, 5, 7]]);
    assert_eq!(grid[1][1], diagonal);
    assert_eq!(grid[2][2], diagonal);
    assert!(valid_test(&grid));
    let masked = mask(&grid);
    assert_eq!(
        puzzle_line(&masked),
        "Puzzle = [[0, 12, 21], [10, _, _], [35, _, _]], puzzle_solution(Puzzle)."
    );
    assert_eq!(solution_line(&grid), "Puzzle = [[0, 12, 21], [10, 7, 3], [35, 5, 7]]");
}

// Deterministic end-to-end scenario at the upper supported dimension: drawing
// 4 distinct values from the 9-element population leaves the population far
// from exhausted.
#[test]
fn scenario_dimension_four() {
    let diagonal = 9;
    let draws = [
        vec![1usize, 2, 3, 4],
        vec![5, 6, 7, 8],
        vec![2, 4, 6, 8],
        vec![1, 3, 5, 7],
    ];
    let mut rows = Vec::new();
    for (i, draw) in draws.iter().enumerate() {
        assert!(draw.len() == 4 && draw.iter().all(|v| (1..=9).contains(v)));
        rows.push(build_row(i, diagonal, draw, i % 2 == 1));
    }
    assert_eq!(rows[0], vec![9 + 2 + 3 + 4, 9, 2, 3, 4]);
    assert_eq!(rows[1], vec![5 * 9 * 7 * 8, 5, 9, 7, 8]);
    assert_eq!(rows[2], vec![2 + 4 + 9 + 8, 2, 4, 9, 8]);
    assert_eq!(rows[3], vec![1 * 3 * 5 * 9, 1, 3, 5, 9]);
    let grid = assemble(&rows, &vec![false, true, false, true]);
    assert_eq!(grid[0], vec![0, 18, 2520, 23, 135]);
    assert_eq!(grid[1], vec![9 + 5 + 2 + 1, 9, 5, 2, 1]);
    assert_eq!(grid[2], vec![2 * 9 * 4 * 3, 2, 9, 4, 3]);
    assert_eq!(grid[3], vec![3 + 7 + 9 + 5, 3, 7, 9, 5]);
    assert_eq!(grid[4], vec![4 * 8 * 8 * 9, 4, 8, 8, 9]);
    for i in 1..=4 {
        assert_eq!(grid[i][i], diagonal);
    }
    // Row 4 holds the value 8 twice, so the validator must reject this grid.
    assert!(!valid_test(&grid));
    let masked = mask(&grid);
    assert_eq!(
        puzzle_line(&masked),
        "Puzzle = [[0, 18, 2520, 23, 135], [17, _, _, _, _], [216, _, _, _, _], \
         [24, _, _, _, _], [2304, _, _, _, _]], puzzle_solution(Puzzle)."
    );
}

#[test]
fn gen_row_respects_its_contract() {
    for _ in 0..50 {
        for dimension in 2..=4usize {
            for index in 0..dimension {
                let diagonal = 5;
                let row = gen_row(index, diagonal, dimension);
                assert_eq!(row.len(), dimension + 1);
                let cells = &row[1..];
                assert!(cells.iter().all(|v| (1..=9).contains(v)));
                assert_eq!(cells[index], diagonal);
                for a in 0..dimension {
                    for b in (a + 1)..dimension {
                        if a != index && b != index {
                            assert_ne!(cells[a], cells[b]);
                        }
                    }
                }
                let (sum, product) = sum_and_product(cells);
                assert!(row[0] == sum || row[0] == product);
            }
        }
    }
}

#[test]
fn gen_test_produces_well_formed_grids() {
    for dimension in 2..=4usize {
        for _ in 0..20 {
            let (masked, grid) = gen_test(dimension);
            assert_eq!(grid.len(), dimension + 1);
            assert!(grid.iter().all(|row| row.len() == dimension + 1));
            assert_eq!(grid[0][0], 0);
            let diagonal = grid[1][1];
            assert!((1..=9).contains(&diagonal));
            for i in 1..=dimension {
                assert_eq!(grid[i][i], diagonal);
                for j in 1..=dimension {
                    assert!((1..=9).contains(&grid[i][j]));
                }
            }
            for r in 1..=dimension {
                let cells: Vec<usize> = (1..=dimension).map(|c| grid[r][c]).collect();
                let (sum, product) = sum_and_product(&cells);
                assert!(grid[r][0] == sum || grid[r][0] == product);
            }
            for c in 1..=dimension {
                let cells: Vec<usize> = (1..=dimension).map(|r| grid[r][c]).collect();
                let (sum, product) = sum_and_product(&cells);
                assert!(grid[0][c] == sum || grid[0][c] == product);
            }
            assert_eq!(masked.len(), grid.len());
            for i in 0..masked.len() {
                for j in 0..masked[i].len() {
                    if i == 0 || j == 0 {
                        assert_eq!(masked[i][j], grid[i][j].to_string());
                    } else {
                        assert_eq!(masked[i][j], "_");
                    }
                }
            }
        }
    }
}

// The retry property: whatever grid the full pipeline returns passes the
// uniqueness validator.
#[test]
fn generate_never_returns_an_invalid_grid() {
    for dimension in 2..=4usize {
        match generate(dimension, 10000) {
            Some((masked, grid)) => {
                assert!(valid_test(&grid));
                assert_eq!(mask(&grid), masked);
                assert_eq!(grid[0][0], 0);
                for r in 1..=dimension {
                    for a in 1..=dimension {
                        for b in (a + 1)..=dimension {
                            assert_ne!(grid[r][a], grid[r][b]);
                            assert_ne!(grid[a][r], grid[b][r]);
                        }
                    }
                }
            }
            None => panic!("no valid grid in 10000 attempts"),
        }
    }
}

#[test]
fn dimension_boundary() {
    assert!(!dimension_ok(0));
    assert!(!dimension_ok(1));
    assert!(dimension_ok(2));
    assert!(dimension_ok(3));
    assert!(dimension_ok(4));
    assert!(!dimension_ok(5));
}
