//! The masker: projects a solution grid into a puzzle grid in which only the
//! totals of row 0 and column 0 stay visible.

use vstd::prelude::*;

use crate::format::{dec_str, grid_strings, usize_to_string};
use crate::grid::rectangular;

verus! {

/// The text that hides an inner cell of the puzzle grid.
pub open spec fn placeholder() -> Seq<char> {
    seq!['_']
}

/// The masking projection on a grid of cell texts: row 0 and column 0 are
/// kept, every other cell is replaced by the placeholder.
pub open spec fn mask_cells(m: Seq<Seq<Seq<char>>>) -> Seq<Seq<Seq<char>>> {
    Seq::new(
        m.len(),
        |i: int|
            Seq::new(
                m[i].len(),
                |j: int|
                    if i == 0 || j == 0 {
                        m[i][j]
                    } else {
                        placeholder()
                    },
            ),
    )
}

/// The masker is idempotent: applying the masking projection twice gives
/// exactly what applying it once gives.
pub proof fn lemma_mask_idempotent(m: Seq<Seq<Seq<char>>>)
    ensures
        mask_cells(mask_cells(m)) == mask_cells(m),
{
    assert(mask_cells(mask_cells(m)) =~~= mask_cells(m));
}

/// The puzzle grid of a solution grid: totals in row 0 and column 0 rendered
/// as decimal text, every inner cell replaced by the placeholder.
pub fn mask(matrix: &Vec<Vec<usize>>) -> (r: Vec<Vec<String>>)
    requires
        matrix@.len() >= 1,
        rectangular(matrix.deep_view()),
    ensures
        r.deep_view() == mask_cells(grid_strings(matrix.deep_view())),
{
    proof {
        reveal_strlit("_");
        assert("_"@ =~= seq!['_']);
    }
    let rows = matrix.len();
    let cols = matrix[0].len();
    let mut r: Vec<Vec<String>> = Vec::new();
    let mut i: usize = 0;
    while i < rows
        invariant
            rows == matrix@.len(),
            rows >= 1,
            cols == matrix@[0]@.len(),
            rectangular(matrix.deep_view()),
            i <= rows,
            r@.len() == i,
            forall|ii: int| 0 <= ii < i ==> (#[trigger] r@[ii])@.len() == cols,
            forall|ii: int, jj: int|
                0 <= ii < i && 0 <= jj < cols ==> (#[trigger] r@[ii]@[jj])@ == (if ii == 0 || jj
                    == 0 {
                    dec_str(matrix@[ii]@[jj] as nat)
                } else {
                    placeholder()
                }),
            "_"@ == seq!['_'],
        decreases rows - i,
    {
        proof {
            assert(matrix.deep_view()[i as int].len() == matrix.deep_view()[0].len());
        }
        let mut line: Vec<String> = Vec::new();
        let mut j: usize = 0;
        while j < cols
            invariant
                rows == matrix@.len(),
                cols == matrix@[0]@.len(),
                i < rows,
                matrix@[i as int]@.len() == cols,
                j <= cols,
                line@.len() == j,
                forall|jj: int|
                    0 <= jj < j ==> (#[trigger] line@[jj])@ == (if i == 0 || jj == 0 {
                        dec_str(matrix@[i as int]@[jj] as nat)
                    } else {
                        placeholder()
                    }),
                "_"@ == seq!['_'],
            decreases cols - j,
        {
            if i == 0 || j == 0 {
                line.push(usize_to_string(matrix[i][j]));
            } else {
                line.push("_".to_owned());
            }
            j += 1;
        }
        r.push(line);
        i += 1;
    }
    proof {
        assert(r.deep_view() =~~= mask_cells(grid_strings(matrix.deep_view())));
    }
    r
}

/// The masking projection on an already rendered grid of cell texts.
pub fn mask_strings(m: &Vec<Vec<String>>) -> (r: Vec<Vec<String>>)
    ensures
        r.deep_view() == mask_cells(m.deep_view()),
{
    proof {
        reveal_strlit("_");
        assert("_"@ =~= seq!['_']);
    }
    let rows = m.len();
    let mut r: Vec<Vec<String>> = Vec::new();
    let mut i: usize = 0;
    while i < rows
        invariant
            rows == m@.len(),
            i <= rows,
            r@.len() == i,
            forall|ii: int| 0 <= ii < i ==> (#[trigger] r@[ii])@.len() == m@[ii]@.len(),
            forall|ii: int, jj: int|
                0 <= ii < i && 0 <= jj < m@[ii]@.len() ==> (#[trigger] r@[ii]@[jj])@ == (if ii == 0
                    || jj == 0 {
                    m@[ii]@[jj]@
                } else {
                    placeholder()
                }),
            "_"@ == seq!['_'],
        decreases rows - i,
    {
        let mut line: Vec<String> = Vec::new();
        let cols = m[i].len();
        let mut j: usize = 0;
        while j < cols
            invariant
                rows == m@.len(),
                i < rows,
                cols == m@[i as int]@.len(),
                j <= cols,
                line@.len() == j,
                forall|jj: int|
                    0 <= jj < j ==> (#[trigger] line@[jj])@ == (if i == 0 || jj == 0 {
                        m@[i as int]@[jj]@
                    } else {
                        placeholder()
                    }),
                "_"@ == seq!['_'],
            decreases cols - j,
        {
            if i == 0 || j == 0 {
                line.push(m[i][j].clone());
            } else {
                line.push("_".to_owned());
            }
            j += 1;
        }
        r.push(line);
        i += 1;
    }
    proof {
        assert(r.deep_view() =~~= mask_cells(m.deep_view()));
    }
    r
}

} // verus!
