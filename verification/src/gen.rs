//! The generation pipeline: rows of distinct random cells, grid assembly with
//! derived column totals, and the bounded retry controller.

use vstd::prelude::*;

use crate::grid::{
    cells_in_range, cells_of, column, is_total, off_diagonal_distinct, prod_of, rectangular,
    shared_diagonal, square, sum_of, totals_consistent, transpose, valid_grid, valid_test,
    well_formed,
};
use crate::mask::{mask, mask_cells};
use crate::format::grid_strings;
use crate::source::{coin_flip, draw_diagonal, shuffle};

verus! {

/// 9 to the power `k`: an upper bound for the product of `k` cell values.
spec fn pow9(k: nat) -> nat
    decreases k,
{
    if k == 0 {
        1
    } else {
        9 * pow9((k - 1) as nat)
    }
}

proof fn lemma_pow9_le(a: nat, b: nat)
    requires
        a <= b,
    ensures
        pow9(a) <= pow9(b),
    decreases b,
{
    if a < b {
        lemma_pow9_le(a, (b - 1) as nat);
        assert(pow9(b) == 9 * pow9((b - 1) as nat));
    }
}

proof fn lemma_pow9_8()
    ensures
        pow9(8) == 43046721,
{
    assert(pow9(0) == 1);
    assert(pow9(1) == 9);
    assert(pow9(2) == 81);
    assert(pow9(3) == 729);
    assert(pow9(4) == 6561);
    assert(pow9(5) == 59049);
    assert(pow9(6) == 531441);
    assert(pow9(7) == 4782969);
    assert(pow9(8) == 43046721);
}

proof fn lemma_take_succ(s: Seq<usize>, i: int)
    requires
        0 <= i < s.len(),
    ensures
        sum_of(s.take(i + 1)) == sum_of(s.take(i)) + s[i],
        prod_of(s.take(i + 1)) == prod_of(s.take(i)) * s[i],
{
    assert(s.take(i + 1).drop_last() =~= s.take(i));
    assert(s.take(i + 1).last() == s[i]);
}

/// The total of a line of cell values under the given operator choice: their
/// product when `use_product` holds, else their sum. A line draws at most the
/// 9 values of the population [1, 9], which bounds both totals.
pub fn line_total(line: &Vec<usize>, use_product: bool) -> (t: usize)
    requires
        line@.len() <= 9,
        forall|i: int| 0 <= i < line@.len() ==> #[trigger] line@[i] <= 9,
    ensures
        t == if use_product {
            prod_of(line@)
        } else {
            sum_of(line@)
        },
{
    let n = line.len();
    if use_product {
        let mut acc: usize = 1;
        let mut i: usize = 0;
        while i < n
            invariant
                n == line@.len(),
                n <= 9,
                forall|k: int| 0 <= k < line@.len() ==> #[trigger] line@[k] <= 9,
                i <= n,
                acc == prod_of(line@.take(i as int)),
                acc <= pow9(i as nat),
            decreases n - i,
        {
            proof {
                lemma_pow9_le(i as nat, 8);
                lemma_pow9_8();
                assert(acc * line@[i as int] <= pow9(i as nat) * 9) by (nonlinear_arith)
                    requires
                        0 <= acc <= pow9(i as nat),
                        0 <= line@[i as int] <= 9,
                ;
                assert(pow9((i + 1) as nat) == 9 * pow9(i as nat));
                lemma_take_succ(line@, i as int);
            }
            acc = acc * line[i];
            i += 1;
        }
        proof {
            assert(line@.take(n as int) =~= line@);
        }
        acc
    } else {
        let mut acc: usize = 0;
        let mut i: usize = 0;
        while i < n
            invariant
                n == line@.len(),
                n <= 9,
                forall|k: int| 0 <= k < line@.len() ==> #[trigger] line@[k] <= 9,
                i <= n,
                acc == sum_of(line@.take(i as int)),
                acc <= 9 * i,
            decreases n - i,
        {
            proof {
                lemma_take_succ(line@, i as int);
            }
            acc = acc + line[i];
            i += 1;
        }
        proof {
            assert(line@.take(n as int) =~= line@);
        }
        acc
    }
}

/// The total of a line under an operator chosen uniformly at random: the
/// result is the line's sum or its product, the caller does not know which.
pub fn random_total(line: &Vec<usize>) -> (t: usize)
    requires
        line@.len() <= 9,
        forall|i: int| 0 <= i < line@.len() ==> #[trigger] line@[i] <= 9,
    ensures
        is_total(t, line@),
{
    let use_product = coin_flip();
    line_total(line, use_product)
}

/// One total-prefixed row built from drawn cell values: the cell at `index`
/// is overwritten with the shared diagonal value (the only step that can
/// reintroduce a duplicate), and the chosen total is prepended.
pub fn build_row(index: usize, diagonal: usize, digits: &Vec<usize>, use_product: bool) -> (row:
    Vec<usize>)
    requires
        digits@.len() <= 9,
        index < digits@.len(),
        1 <= diagonal <= 9,
        forall|i: int| 0 <= i < digits@.len() ==> 1 <= #[trigger] digits@[i] <= 9,
    ensures
        row@.len() == digits@.len() + 1,
        cells_of(row@) == digits@.update(index as int, diagonal),
        row@[0] == if use_product {
            prod_of(cells_of(row@))
        } else {
            sum_of(cells_of(row@))
        },
{
    let n = digits.len();
    let mut cells: Vec<usize> = Vec::new();
    let mut k: usize = 0;
    while k < n
        invariant
            n == digits@.len(),
            n <= 9,
            index < n,
            1 <= diagonal <= 9,
            forall|i: int| 0 <= i < digits@.len() ==> 1 <= #[trigger] digits@[i] <= 9,
            k <= n,
            cells@.len() == k,
            forall|kk: int|
                0 <= kk < k ==> (#[trigger] cells@[kk]) == if kk == index {
                    diagonal
                } else {
                    digits@[kk]
                },
        decreases n - k,
    {
        if k == index {
            cells.push(diagonal);
        } else {
            cells.push(digits[k]);
        }
        k += 1;
    }
    proof {
        assert(cells@ =~= digits@.update(index as int, diagonal));
    }
    let tot = line_total(&cells, use_product);
    let ghost cell_values = cells@;
    let mut row = cells;
    row.insert(0, tot);
    proof {
        assert(row@ == cell_values.insert(0, tot));
        assert(cells_of(row@) =~= cell_values);
    }
    row
}

/// One generated row for row index `index`: `dimension` distinct values drawn
/// from the population [1, 9] without replacement, the diagonal overwrite
/// applied, and a randomly chosen total prepended. Every cell lies in [1, 9],
/// the cell at the diagonal position holds the shared value, and all other
/// cells are pairwise distinct.
pub fn gen_row(index: usize, diagonal: usize, dimension: usize) -> (row: Vec<usize>)
    requires
        index < dimension,
        dimension <= 9,
        1 <= diagonal <= 9,
    ensures
        row@.len() == dimension + 1,
        forall|k: int| 1 <= k < row@.len() ==> 1 <= #[trigger] row@[k] <= 9,
        row@[index as int + 1] == diagonal,
        forall|k: int, l: int|
            1 <= k < l < row@.len() && k != index + 1 && l != index + 1 ==> row@[k] != row@[l],
        is_total(row@[0], cells_of(row@)),
{
    let mut digits: Vec<usize> = Vec::new();
    let mut d: usize = 1;
    while d <= 9
        invariant
            1 <= d <= 10,
            digits@.len() == d - 1,
            forall|i: int| 0 <= i < digits@.len() ==> (#[trigger] digits@[i]) == i + 1,
        decreases 10 - d,
    {
        digits.push(d);
        d += 1;
    }
    let ghost pre = digits@;
    shuffle(&mut digits);
    proof {
        broadcast use vstd::seq_lib::group_to_multiset_ensures;

        pre.lemma_multiset_has_no_duplicates();
        assert forall|i: int| 0 <= i < digits@.len() implies 1 <= #[trigger] digits@[i] <= 9 by {
            let x = digits@[i];
            assert(digits@.contains(x));
            assert(digits@.to_multiset().count(x) > 0);
            assert(pre.to_multiset().count(x) > 0);
            assert(pre.contains(x));
            let idx = choose|idx: int| 0 <= idx < pre.len() && pre[idx] == x;
            assert(pre[idx] == idx + 1);
        }
        assert forall|x: usize|
            digits@.to_multiset().contains(x) implies digits@.to_multiset().count(x) == 1 by {
            assert(pre.to_multiset().count(x) > 0);
        }
        digits@.lemma_multiset_has_no_duplicates_conv();
        assert(digits@.len() == digits@.to_multiset().len());
        assert(pre.len() == pre.to_multiset().len());
        assert(digits@.len() == 9);
    }
    let mut prefix: Vec<usize> = Vec::new();
    let mut k: usize = 0;
    while k < dimension
        invariant
            dimension <= 9,
            digits@.len() == 9,
            digits@.no_duplicates(),
            forall|i: int| 0 <= i < digits@.len() ==> 1 <= #[trigger] digits@[i] <= 9,
            k <= dimension,
            prefix@.len() == k,
            forall|kk: int| 0 <= kk < k ==> (#[trigger] prefix@[kk]) == digits@[kk],
        decreases dimension - k,
    {
        prefix.push(digits[k]);
        k += 1;
    }
    let use_product = coin_flip();
    let row = build_row(index, diagonal, &prefix, use_product);
    proof {
        let cells = prefix@.update(index as int, diagonal);
        assert(cells_of(row@) == cells);
        assert forall|k2: int| 1 <= k2 < row@.len() implies 1 <= #[trigger] row@[k2] <= 9 by {
            assert(row@[k2] == cells[k2 - 1]);
        }
        assert(row@[index as int + 1] == cells[index as int]);
        assert forall|k2: int, l: int|
            1 <= k2 < l < row@.len() && k2 != index + 1 && l != index + 1 implies row@[k2]
            != row@[l] by {
            assert(row@[k2] == cells[k2 - 1]);
            assert(row@[l] == cells[l - 1]);
            assert(cells[k2 - 1] == digits@[k2 - 1]);
            assert(cells[l - 1] == digits@[l - 1]);
        }
    }
    row
}

/// The assembled solution grid for the given generated rows and per-column
/// operator choices: rows become columns 1 onward, row 0 holds each row's
/// total, column 0 holds each derived column's freshly computed total, and
/// the unused corner is fixed to 0.
pub fn assemble(rows: &Vec<Vec<usize>>, coins: &Vec<bool>) -> (g: Vec<Vec<usize>>)
    requires
        1 <= rows@.len() <= 9,
        coins@.len() == rows@.len(),
        forall|i: int| 0 <= i < rows@.len() ==> (#[trigger] rows@[i])@.len() == rows@.len() + 1,
        forall|i: int, j: int|
            0 <= i < rows@.len() && 1 <= j < rows@[i]@.len() ==> (#[trigger] rows@[i]@[j]) <= 9,
    ensures
        g@.len() == rows@.len() + 1,
        forall|r: int| 0 <= r < g@.len() ==> (#[trigger] g@[r])@.len() == rows@.len() + 1,
        g@[0]@[0] == 0,
        forall|r: int, c: int|
            0 <= r < g@.len() && 1 <= c < g@.len() ==> (#[trigger] g@[r]@[c]) == rows@[c - 1]@[r],
        forall|r: int|
            1 <= r < g@.len() ==> (#[trigger] g@[r])@[0] == (if coins@[r - 1] {
                prod_of(cells_of(g@[r]@))
            } else {
                sum_of(cells_of(g@[r]@))
            }),
{
    let n = rows.len();
    proof {
        assert(rectangular(rows.deep_view()));
        assert(rows.deep_view()[0].len() == n + 1);
        assert(rows@[0]@.len() == n + 1);
    }
    let t = transpose(rows);
    let mut g: Vec<Vec<usize>> = Vec::new();
    let mut j: usize = 0;
    while j < n + 1
        invariant
            n == rows@.len(),
            1 <= n <= 9,
            coins@.len() == n,
            forall|i: int| 0 <= i < rows@.len() ==> (#[trigger] rows@[i])@.len() == n + 1,
            forall|i: int, jj: int|
                0 <= i < rows@.len() && 1 <= jj < rows@[i]@.len() ==> (#[trigger] rows@[i]@[jj])
                    <= 9,
            t@.len() == n + 1,
            forall|jj: int| 0 <= jj < t@.len() ==> (#[trigger] t@[jj])@.len() == n,
            forall|jj: int, i: int|
                0 <= jj < t@.len() && 0 <= i < n ==> (#[trigger] t@[jj]@[i]) == rows@[i]@[jj],
            j <= n + 1,
            g@.len() == j,
            forall|r: int| 0 <= r < j ==> (#[trigger] g@[r])@.len() == n + 1,
            forall|r: int, c: int|
                0 <= r < j && 1 <= c < n + 1 ==> (#[trigger] g@[r]@[c]) == rows@[c - 1]@[r],
            forall|r: int|
                0 <= r < j ==> (#[trigger] g@[r])@[0] == (if r == 0 {
                    0
                } else if coins@[r - 1] {
                    prod_of(cells_of(g@[r]@))
                } else {
                    sum_of(cells_of(g@[r]@))
                }),
        decreases n + 1 - j,
    {
        let mut line: Vec<usize> = Vec::new();
        let mut i: usize = 0;
        while i < n
            invariant
                n == rows@.len(),
                j < n + 1,
                t@.len() == n + 1,
                forall|jj: int| 0 <= jj < t@.len() ==> (#[trigger] t@[jj])@.len() == n,
                forall|jj: int, ii: int|
                    0 <= jj < t@.len() && 0 <= ii < n ==> (#[trigger] t@[jj]@[ii])
                        == rows@[ii]@[jj],
                i <= n,
                line@.len() == i,
                forall|ii: int| 0 <= ii < i ==> (#[trigger] line@[ii]) == rows@[ii]@[j as int],
            decreases n - i,
        {
            let v = t[j][i];
            line.push(v);
            i += 1;
        }
        let tot: usize = if j == 0 {
            0
        } else {
            line_total(&line, coins[j - 1])
        };
        let ghost line_cells = line@;
        line.insert(0, tot);
        proof {
            assert(cells_of(line@) =~= line_cells);
        }
        g.push(line);
        j += 1;
    }
    g
}

/// One full generation attempt for the given dimension: a fresh diagonal
/// value, `dimension` generated rows, the assembled solution grid, and its
/// masked puzzle grid. The result is well formed but not yet validated.
pub fn gen_test(dimension: usize) -> (r: (Vec<Vec<String>>, Vec<Vec<usize>>))
    requires
        2 <= dimension <= 4,
    ensures
        well_formed(r.1.deep_view(), dimension as nat),
        off_diagonal_distinct(r.1.deep_view()),
        r.0.deep_view() == mask_cells(grid_strings(r.1.deep_view())),
{
    let diagonal = draw_diagonal();
    let mut rows: Vec<Vec<usize>> = Vec::new();
    let mut i: usize = 0;
    while i < dimension
        invariant
            2 <= dimension <= 4,
            1 <= diagonal <= 9,
            i <= dimension,
            rows@.len() == i,
            forall|ii: int| 0 <= ii < i ==> (#[trigger] rows@[ii])@.len() == dimension + 1,
            forall|ii: int, k: int|
                0 <= ii < i && 1 <= k < rows@[ii]@.len() ==> 1 <= (#[trigger] rows@[ii]@[k]) <= 9,
            forall|ii: int| 0 <= ii < i ==> (#[trigger] rows@[ii])@[ii + 1] == diagonal,
            forall|ii: int|
                0 <= ii < i ==> is_total((#[trigger] rows@[ii])@[0], cells_of(rows@[ii]@)),
            forall|ii: int, k: int, l: int|
                #![trigger rows@[ii]@[k], rows@[ii]@[l]]
                0 <= ii < i && 1 <= k < l < rows@[ii]@.len() && k != ii + 1 && l != ii + 1
                    ==> rows@[ii]@[k] != rows@[ii]@[l],
        decreases dimension - i,
    {
        let row = gen_row(i, diagonal, dimension);
        rows.push(row);
        i += 1;
    }
    let mut coins: Vec<bool> = Vec::new();
    let mut j: usize = 0;
    while j < dimension
        invariant
            j <= dimension,
            coins@.len() == j,
        decreases dimension - j,
    {
        coins.push(coin_flip());
        j += 1;
    }
    let grid = assemble(&rows, &coins);
    proof {
        let gd = grid.deep_view();
        let n = dimension as int;
        assert forall|r: int| 0 <= r < gd.len() implies (#[trigger] gd[r]) =~= grid@[r]@ by {}
        assert(square(gd));
        assert(gd[0][0] == 0);
        assert(cells_in_range(gd)) by {
            assert forall|r: int, c: int|
                1 <= r < gd.len() && 1 <= c < gd[r].len() implies 1 <= (#[trigger] gd[r][c])
                <= 9 by {
                assert(gd[r][c] == grid@[r]@[c]);
                assert(grid@[r]@[c] == rows@[c - 1]@[r]);
            }
        }
        assert forall|r: int| 1 <= r < gd.len() implies is_total((#[trigger] gd[r])[0], cells_of(
            gd[r],
        )) by {
            assert(gd[r] == grid@[r]@);
        }
        assert forall|c: int| 1 <= c < gd.len() implies is_total(
            gd[0][c],
            cells_of(#[trigger] column(gd, c)),
        ) by {
            assert(gd[0][c] == grid@[0]@[c]);
            assert(grid@[0]@[c] == rows@[c - 1]@[0]);
            assert(cells_of(column(gd, c)) =~= cells_of(rows@[c - 1]@)) by {
                assert(column(gd, c).len() == n + 1);
                assert forall|k: int| 0 <= k < n implies cells_of(column(gd, c))[k] == cells_of(
                    rows@[c - 1]@,
                )[k] by {
                    assert(cells_of(column(gd, c))[k] == column(gd, c)[k + 1]);
                    assert(column(gd, c)[k + 1] == gd[k + 1][c]);
                    assert(gd[k + 1][c] == grid@[k + 1]@[c]);
                    assert(grid@[k + 1]@[c] == rows@[c - 1]@[k + 1]);
                }
            }
            assert(is_total(rows@[c - 1]@[0], cells_of(rows@[c - 1]@)));
        }
        assert(shared_diagonal(gd, diagonal)) by {
            assert forall|k: int| 1 <= k < gd.len() implies (#[trigger] gd[k])[k] == diagonal by {
                assert(gd[k][k] == grid@[k]@[k]);
                assert(grid@[k]@[k] == rows@[k - 1]@[k]);
                assert(rows@[k - 1]@[(k - 1) + 1] == diagonal);
            }
        }
        assert(well_formed(gd, dimension as nat));
        assert(off_diagonal_distinct(gd)) by {
            assert forall|c: int, k: int, l: int|
                1 <= c < gd.len() && 1 <= k < l < gd.len() && k != c && l != c implies gd[k][c]
                != gd[l][c] by {
                assert(gd[k][c] == grid@[k]@[c]);
                assert(grid@[k]@[c] == rows@[c - 1]@[k]);
                assert(gd[l][c] == grid@[l]@[c]);
                assert(grid@[l]@[c] == rows@[c - 1]@[l]);
                assert(rows@[c - 1]@[k] != rows@[c - 1]@[l]);
            }
        }
    }
    let masked = mask(&grid);
    (masked, grid)
}

/// Whether a requested dimension lies in the supported range [2, 4].
pub fn dimension_ok(dimension: usize) -> (ok: bool)
    ensures
        ok == (2 <= dimension <= 4),
{
    2 <= dimension && dimension <= 4
}

/// The retry controller: repeats generation until the uniqueness validator
/// accepts a grid, giving up after `max_attempts` attempts. A returned grid
/// is always well formed, accepted by the validator, and paired with exactly
/// its own masked puzzle grid; `None` comes only when every attempt produced
/// a grid the validator rejected.
pub fn generate(dimension: usize, max_attempts: usize) -> (r: Option<
    (Vec<Vec<String>>, Vec<Vec<usize>>),
>)
    requires
        2 <= dimension <= 4,
    ensures
        r matches Some(p) ==> {
            &&& well_formed(p.1.deep_view(), dimension as nat)
            &&& off_diagonal_distinct(p.1.deep_view())
            &&& valid_grid(p.1.deep_view())
            &&& p.0.deep_view() == mask_cells(grid_strings(p.1.deep_view()))
        },
{
    let mut attempt: usize = 0;
    while attempt < max_attempts
        invariant
            2 <= dimension <= 4,
        decreases max_attempts - attempt,
    {
        let (masked, grid) = gen_test(dimension);
        proof {
            assert(grid.deep_view().len() == dimension + 1);
            assert(grid@.len() == dimension + 1);
        }
        if valid_test(&grid) {
            return Some((masked, grid));
        }
        attempt += 1;
    }
    None
}

} // verus!
