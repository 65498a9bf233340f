//! The mathematical model of a puzzle grid, the transposition used to derive
//! column lines, and the uniqueness validator.

use vstd::prelude::*;

verus! {

/// The sum of a sequence of cell values.
pub open spec fn sum_of(s: Seq<usize>) -> int
    decreases s.len(),
{
    if s.len() == 0 {
        0
    } else {
        sum_of(s.drop_last()) + s.last()
    }
}

/// The product of a sequence of cell values.
pub open spec fn prod_of(s: Seq<usize>) -> int
    decreases s.len(),
{
    if s.len() == 0 {
        1
    } else {
        prod_of(s.drop_last()) * s.last()
    }
}

/// `t` is a valid revealed total for `cells`: their sum or their product.
pub open spec fn is_total(t: usize, cells: Seq<usize>) -> bool {
    t == sum_of(cells) || t == prod_of(cells)
}

/// Every row has the same length as the first one.
pub open spec fn rectangular(g: Seq<Seq<usize>>) -> bool {
    forall|i: int| 0 <= i < g.len() ==> (#[trigger] g[i]).len() == g[0].len()
}

/// Every row has as many entries as there are rows.
pub open spec fn square(g: Seq<Seq<usize>>) -> bool {
    forall|i: int| 0 <= i < g.len() ==> (#[trigger] g[i]).len() == g.len()
}

/// The cell values of a total-prefixed line: everything after entry 0.
pub open spec fn cells_of(line: Seq<usize>) -> Seq<usize> {
    line.subrange(1, line.len() as int)
}

/// Column `c` of the grid, read top to bottom.
pub open spec fn column(g: Seq<Seq<usize>>, c: int) -> Seq<usize> {
    Seq::new(g.len(), |i: int| g[i][c])
}

/// The uniqueness constraint: every full row and every full column of the
/// grid holds pairwise-distinct entries.
pub open spec fn valid_grid(g: Seq<Seq<usize>>) -> bool {
    &&& forall|r: int| 0 <= r < g.len() ==> (#[trigger] g[r]).no_duplicates()
    &&& forall|c: int| 0 <= c < g.len() ==> (#[trigger] column(g, c)).no_duplicates()
}

/// Every inner cell (row and column index at least 1) lies in [1, 9].
pub open spec fn cells_in_range(g: Seq<Seq<usize>>) -> bool {
    forall|r: int, c: int|
        1 <= r < g.len() && 1 <= c < g[r].len() ==> 1 <= #[trigger] g[r][c] <= 9
}

/// Every inner diagonal cell holds the shared value `d`.
pub open spec fn shared_diagonal(g: Seq<Seq<usize>>, d: usize) -> bool {
    forall|i: int| 1 <= i < g.len() ==> (#[trigger] g[i])[i] == d
}

/// Any two cells of one column that both lie off the shared diagonal are
/// distinct: each column's cells were drawn without replacement, and only
/// the diagonal overwrite can reintroduce a duplicate.
pub open spec fn off_diagonal_distinct(g: Seq<Seq<usize>>) -> bool {
    forall|c: int, k: int, l: int|
        1 <= c < g.len() && 1 <= k < l < g.len() && k != c && l != c ==> g[k][c] != g[l][c]
}

/// Column 0 holds a correct total for every row's cells, and row 0 holds a
/// correct total for every column's cells.
pub open spec fn totals_consistent(g: Seq<Seq<usize>>) -> bool {
    &&& forall|r: int| 1 <= r < g.len() ==> is_total((#[trigger] g[r])[0], cells_of(g[r]))
    &&& forall|c: int| 1 <= c < g.len() ==> is_total(g[0][c], cells_of(#[trigger] column(g, c)))
}

/// A solution grid for dimension `n`: an (n+1) x (n+1) matrix whose corner is
/// 0, whose inner cells lie in [1, 9], whose borders hold correct totals, and
/// whose inner diagonal carries one shared value in [1, 9].
pub open spec fn well_formed(g: Seq<Seq<usize>>, n: nat) -> bool {
    &&& g.len() == n + 1
    &&& square(g)
    &&& g[0][0] == 0
    &&& cells_in_range(g)
    &&& totals_consistent(g)
    &&& exists|d: usize| 1 <= d <= 9 && shared_diagonal(g, d)
}

/// Transpose of a rectangular matrix: entry (j, i) of the result holds entry
/// (i, j) of the input.
pub fn transpose(matrix: &Vec<Vec<usize>>) -> (t: Vec<Vec<usize>>)
    requires
        matrix@.len() >= 1,
        rectangular(matrix.deep_view()),
    ensures
        t@.len() == matrix@[0]@.len(),
        forall|j: int| 0 <= j < t@.len() ==> (#[trigger] t@[j])@.len() == matrix@.len(),
        forall|j: int, i: int|
            0 <= j < t@.len() && 0 <= i < matrix@.len() ==> (#[trigger] t@[j]@[i]) == matrix@[i]@[j],
{
    let rows = matrix.len();
    let cols = matrix[0].len();
    let mut t: Vec<Vec<usize>> = Vec::new();
    let mut j: usize = 0;
    while j < cols
        invariant
            rows == matrix@.len(),
            rows >= 1,
            cols == matrix@[0]@.len(),
            rectangular(matrix.deep_view()),
            j <= cols,
            t@.len() == j,
            forall|jj: int| 0 <= jj < j ==> (#[trigger] t@[jj])@.len() == rows,
            forall|jj: int, i: int|
                0 <= jj < j && 0 <= i < rows ==> (#[trigger] t@[jj]@[i]) == matrix@[i]@[jj],
        decreases cols - j,
    {
        let mut line: Vec<usize> = Vec::new();
        let mut i: usize = 0;
        while i < rows
            invariant
                rows == matrix@.len(),
                cols == matrix@[0]@.len(),
                rectangular(matrix.deep_view()),
                j < cols,
                i <= rows,
                line@.len() == i,
                forall|ii: int| 0 <= ii < i ==> (#[trigger] line@[ii]) == matrix@[ii]@[j as int],
            decreases rows - i,
        {
            assert(matrix.deep_view()[i as int].len() == matrix@[0]@.len());
            assert(matrix@[i as int]@.len() == cols);
            line.push(matrix[i][j]);
            i += 1;
        }
        t.push(line);
        j += 1;
    }
    t
}

/// Whether a line holds pairwise-distinct values.
pub fn distinct_vals(line: &Vec<usize>) -> (r: bool)
    ensures
        r == line@.no_duplicates(),
{
    let n = line.len();
    let mut i: usize = 0;
    while i < n
        invariant
            n == line@.len(),
            i <= n,
            forall|a: int, b: int| 0 <= a < b < i ==> line@[a] != line@[b],
        decreases n - i,
    {
        let mut k: usize = 0;
        while k < i
            invariant
                n == line@.len(),
                i < n,
                k <= i,
                forall|b: int| 0 <= b < k ==> line@[b] != line@[i as int],
            decreases i - k,
        {
            if line[k] == line[i] {
                assert(!line@.no_duplicates());
                return false;
            }
            k += 1;
        }
        i += 1;
    }
    true
}

/// The uniqueness validator: accepts the grid exactly when every full row and
/// every full column holds pairwise-distinct entries. Duplicates can arise
/// within a generated row (the diagonal overwrite) or within a derived column
/// (never de-duplicated by construction), so both orientations are checked.
pub fn valid_test(transposed: &Vec<Vec<usize>>) -> (r: bool)
    requires
        transposed@.len() >= 1,
        square(transposed.deep_view()),
    ensures
        r == valid_grid(transposed.deep_view()),
{
    let n = transposed.len();
    let ghost g = transposed.deep_view();
    let mut r: usize = 0;
    while r < n
        invariant
            n == transposed@.len(),
            g == transposed.deep_view(),
            r <= n,
            forall|rr: int| 0 <= rr < r ==> (#[trigger] g[rr]).no_duplicates(),
        decreases n - r,
    {
        if !distinct_vals(&transposed[r]) {
            assert(g[r as int] =~= transposed@[r as int]@);
            return false;
        }
        assert(g[r as int] =~= transposed@[r as int]@);
        r += 1;
    }
    proof {
        assert(g[0].len() == transposed@[0]@.len());
        assert(rectangular(g));
    }
    let t = transpose(transposed);
    let mut c: usize = 0;
    while c < n
        invariant
            n == transposed@.len(),
            g == transposed.deep_view(),
            square(g),
            c <= n,
            t@.len() == n,
            forall|j: int| 0 <= j < n ==> (#[trigger] t@[j])@.len() == n,
            forall|j: int, i: int|
                0 <= j < n && 0 <= i < n ==> (#[trigger] t@[j]@[i]) == transposed@[i]@[j],
            forall|cc: int| 0 <= cc < c ==> (#[trigger] column(g, cc)).no_duplicates(),
        decreases n - c,
    {
        assert(t@[c as int]@ =~= column(g, c as int));
        if !distinct_vals(&t[c]) {
            return false;
        }
        c += 1;
    }
    true
}

/// In a grid accepted by the uniqueness validator, the inner cell block is
/// pairwise distinct along every row and along every column.
pub proof fn lemma_valid_grid_cells_distinct(g: Seq<Seq<usize>>)
    requires
        g.len() >= 1,
        square(g),
        valid_grid(g),
    ensures
        forall|r: int| 1 <= r < g.len() ==> cells_of(#[trigger] g[r]).no_duplicates(),
        forall|c: int| 1 <= c < g.len() ==> cells_of(#[trigger] column(g, c)).no_duplicates(),
{
    assert forall|r: int| 1 <= r < g.len() implies cells_of(#[trigger] g[r]).no_duplicates() by {
        let row = g[r];
        assert forall|a: int, b: int|
            0 <= a < cells_of(row).len() && 0 <= b < cells_of(row).len() && a != b implies cells_of(
            row,
        )[a] != cells_of(row)[b] by {
            assert(cells_of(row)[a] == row[a + 1]);
            assert(cells_of(row)[b] == row[b + 1]);
        }
    }
    assert forall|c: int| 1 <= c < g.len() implies cells_of(#[trigger] column(g, c)).no_duplicates() by {
        let col = column(g, c);
        assert forall|a: int, b: int|
            0 <= a < cells_of(col).len() && 0 <= b < cells_of(col).len() && a != b implies cells_of(
            col,
        )[a] != cells_of(col)[b] by {
            assert(cells_of(col)[a] == col[a + 1]);
            assert(cells_of(col)[b] == col[b + 1]);
        }
    }
}

} // verus!
