use totalgrid::mask::{mask, mask_strings};

#[test]
fn mask_keeps_borders_and_hides_inner_cells() {
    let grid = vec![vec![0usize, 12, 21], vec![10, 7, 3], vec![35, 5, 7]];
    let masked = mask(&grid);
    assert_eq!(masked.len(), 3);
    for (i, row) in masked.iter().enumerate() {
        assert_eq!(row.len(), 3);
        for (j, cell) in row.iter().enumerate() {
            if i == 0 || j == 0 {
                assert_eq!(cell, &grid[i][j].to_string());
            } else {
                assert_eq!(cell, "_");
                assert!(!cell.chars().any(|c| c.is_ascii_digit()));
            }
        }
    }
}

#[test]
fn mask_is_idempotent() {
    let grid = vec![vec![0usize, 12, 21], vec![10, 7, 3], vec![35, 5, 7]];
    let once = mask(&grid);
    let twice = mask_strings(&once);
    assert_eq!(once, twice);
}

#[test]
fn mask_strings_on_already_masked_grid() {
    let masked = vec![
        vec!["0".to_string(), "9".to_string()],
        vec!["4".to_string(), "_".to_string()],
    ];
    assert_eq!(mask_strings(&masked), masked);
}
