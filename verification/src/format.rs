//! Rendering of grids as nested, comma-and-bracket-delimited text, the exact
//! syntax the downstream solver consumes.

use vstd::prelude::*;
use vstd::string::StringExecFns;

verus! {

/// The decimal digit character for `d` in [0, 9].
pub open spec fn digit_char(d: nat) -> char {
    if d == 0 {
        '0'
    } else if d == 1 {
        '1'
    } else if d == 2 {
        '2'
    } else if d == 3 {
        '3'
    } else if d == 4 {
        '4'
    } else if d == 5 {
        '5'
    } else if d == 6 {
        '6'
    } else if d == 7 {
        '7'
    } else if d == 8 {
        '8'
    } else {
        '9'
    }
}

/// The decimal rendering of `n`, most significant digit first.
pub open spec fn dec_str(n: nat) -> Seq<char>
    decreases n,
{
    if n < 10 {
        seq![digit_char(n)]
    } else {
        dec_str(n / 10).push(digit_char(n % 10))
    }
}

/// One-character string slice for a decimal digit.
fn digit_str(d: usize) -> (r: &'static str)
    requires
        d < 10,
    ensures
        r@ == seq![digit_char(d as nat)],
{
    proof {
        reveal_strlit("0");
        reveal_strlit("1");
        reveal_strlit("2");
        reveal_strlit("3");
        reveal_strlit("4");
        reveal_strlit("5");
        reveal_strlit("6");
        reveal_strlit("7");
        reveal_strlit("8");
        reveal_strlit("9");
        assert("0"@ =~= seq!['0']);
        assert("1"@ =~= seq!['1']);
        assert("2"@ =~= seq!['2']);
        assert("3"@ =~= seq!['3']);
        assert("4"@ =~= seq!['4']);
        assert("5"@ =~= seq!['5']);
        assert("6"@ =~= seq!['6']);
        assert("7"@ =~= seq!['7']);
        assert("8"@ =~= seq!['8']);
        assert("9"@ =~= seq!['9']);
    }
    match d {
        0 => "0",
        1 => "1",
        2 => "2",
        3 => "3",
        4 => "4",
        5 => "5",
        6 => "6",
        7 => "7",
        8 => "8",
        _ => "9",
    }
}

/// The decimal text of `n`.
pub fn usize_to_string(n: usize) -> (r: String)
    ensures
        r@ == dec_str(n as nat),
    decreases n,
{
    if n < 10 {
        digit_str(n).to_owned()
    } else {
        let mut s = usize_to_string(n / 10);
        s.append(digit_str(n % 10));
        proof {
            assert(dec_str((n as nat) / 10).push(digit_char((n as nat) % 10)) =~= dec_str(
                (n as nat) / 10,
            ) + seq![digit_char((n as nat) % 10)]);
        }
        s
    }
}

/// Items joined with ", " between neighbours.
pub open spec fn comma_join(items: Seq<Seq<char>>) -> Seq<char>
    decreases items.len(),
{
    if items.len() == 0 {
        Seq::empty()
    } else if items.len() == 1 {
        items[0]
    } else {
        comma_join(items.drop_last()) + seq![',', ' '] + items.last()
    }
}

/// `s` wrapped in square brackets.
pub open spec fn bracketed(s: Seq<char>) -> Seq<char> {
    seq!['['] + s + seq![']']
}

/// The rendering of one row: its cell texts joined with ", ", in brackets.
pub open spec fn render_row_spec(row: Seq<Seq<char>>) -> Seq<char> {
    bracketed(comma_join(row))
}

/// The rendering of a grid of cell texts: each row rendered, the renderings
/// joined with ", ", in brackets.
pub open spec fn render_spec(m: Seq<Seq<Seq<char>>>) -> Seq<char> {
    bracketed(comma_join(Seq::new(m.len(), |i: int| render_row_spec(m[i]))))
}

/// The decimal texts of all entries of a numeric grid.
pub open spec fn grid_strings(g: Seq<Seq<usize>>) -> Seq<Seq<Seq<char>>> {
    Seq::new(g.len(), |i: int| Seq::new(g[i].len(), |j: int| dec_str(g[i][j] as nat)))
}

proof fn lemma_comma_join_push(items: Seq<Seq<char>>, x: Seq<char>)
    ensures
        comma_join(items.push(x)) == if items.len() == 0 {
            x
        } else {
            comma_join(items) + seq![',', ' '] + x
        },
{
    let t = items.push(x);
    if items.len() == 0 {
        assert(comma_join(t) == t[0]);
    } else {
        assert(t.drop_last() =~= items);
        assert(t.last() == x);
    }
}

/// One row rendered as text.
pub fn render_row(row: &Vec<String>) -> (r: String)
    ensures
        r@ == render_row_spec(row.deep_view()),
{
    proof {
        reveal_strlit("[");
        reveal_strlit("]");
        reveal_strlit(", ");
        assert("["@ =~= seq!['[']);
        assert("]"@ =~= seq![']']);
        assert(", "@ =~= seq![',', ' ']);
    }
    let mut out = "[".to_owned();
    let n = row.len();
    let mut j: usize = 0;
    while j < n
        invariant
            n == row@.len(),
            j <= n,
            out@ == seq!['['] + comma_join(row.deep_view().take(j as int)),
            "["@ == seq!['['],
            "]"@ == seq![']'],
            ", "@ == seq![',', ' '],
        decreases n - j,
    {
        if j != 0 {
            out.append(", ");
        }
        out.append(row[j].as_str());
        proof {
            let cells = row.deep_view();
            lemma_comma_join_push(cells.take(j as int), cells[j as int]);
            assert(cells.take(j as int).push(cells[j as int]) =~= cells.take(j as int + 1));
            assert(out@ == seq!['['] + comma_join(cells.take(j as int + 1)));
        }
        j += 1;
    }
    out.append("]");
    proof {
        assert(row.deep_view().take(n as int) =~= row.deep_view());
    }
    out
}

/// A whole grid of cell texts rendered as text.
pub fn render(m: &Vec<Vec<String>>) -> (r: String)
    ensures
        r@ == render_spec(m.deep_view()),
{
    proof {
        reveal_strlit("[");
        reveal_strlit("]");
        reveal_strlit(", ");
        assert("["@ =~= seq!['[']);
        assert("]"@ =~= seq![']']);
        assert(", "@ =~= seq![',', ' ']);
    }
    let ghost rendered_rows = Seq::new(
        m.deep_view().len(),
        |i: int| render_row_spec(m.deep_view()[i]),
    );
    let mut out = "[".to_owned();
    let n = m.len();
    let mut i: usize = 0;
    while i < n
        invariant
            n == m@.len(),
            i <= n,
            rendered_rows == Seq::new(
                m.deep_view().len(),
                |k: int| render_row_spec(m.deep_view()[k]),
            ),
            out@ == seq!['['] + comma_join(rendered_rows.take(i as int)),
            "["@ == seq!['['],
            "]"@ == seq![']'],
            ", "@ == seq![',', ' '],
        decreases n - i,
    {
        if i != 0 {
            out.append(", ");
        }
        let row_text = render_row(&m[i]);
        out.append(row_text.as_str());
        proof {
            lemma_comma_join_push(rendered_rows.take(i as int), rendered_rows[i as int]);
            assert(rendered_rows.take(i as int).push(rendered_rows[i as int]) =~= rendered_rows.take(
                i as int + 1,
            ));
            assert(out@ == seq!['['] + comma_join(rendered_rows.take(i as int + 1)));
        }
        i += 1;
    }
    out.append("]");
    proof {
        assert(rendered_rows.take(n as int) =~= rendered_rows);
    }
    out
}

/// The decimal texts of all entries of a numeric grid, as owned strings.
pub fn grid_to_strings(g: &Vec<Vec<usize>>) -> (r: Vec<Vec<String>>)
    ensures
        r.deep_view() == grid_strings(g.deep_view()),
{
    let mut r: Vec<Vec<String>> = Vec::new();
    let n = g.len();
    let mut i: usize = 0;
    while i < n
        invariant
            n == g@.len(),
            i <= n,
            r@.len() == i,
            forall|ii: int| 0 <= ii < i ==> (#[trigger] r@[ii])@.len() == g@[ii]@.len(),
            forall|ii: int, jj: int|
                0 <= ii < i && 0 <= jj < g@[ii]@.len() ==> (#[trigger] r@[ii]@[jj])@ == dec_str(
                    g@[ii]@[jj] as nat,
                ),
        decreases n - i,
    {
        let mut line: Vec<String> = Vec::new();
        let cols = g[i].len();
        let mut j: usize = 0;
        while j < cols
            invariant
                n == g@.len(),
                i < n,
                cols == g@[i as int]@.len(),
                j <= cols,
                line@.len() == j,
                forall|jj: int|
                    0 <= jj < j ==> (#[trigger] line@[jj])@ == dec_str(g@[i as int]@[jj] as nat),
            decreases cols - j,
        {
            line.push(usize_to_string(g[i][j]));
            j += 1;
        }
        r.push(line);
        i += 1;
    }
    proof {
        assert(r.deep_view() =~~= grid_strings(g.deep_view()));
    }
    r
}

/// The first output line: the masked grid followed by the solver goal.
pub fn puzzle_line(masked: &Vec<Vec<String>>) -> (r: String)
    ensures
        r@ == "Puzzle = "@ + render_spec(masked.deep_view()) + ", puzzle_solution(Puzzle)."@,
{
    let mut out = "Puzzle = ".to_owned();
    let body = render(masked);
    out.append(body.as_str());
    out.append(", puzzle_solution(Puzzle).");
    out
}

/// The second output line: the full solution grid.
pub fn solution_line(grid: &Vec<Vec<usize>>) -> (r: String)
    ensures
        r@ == "Puzzle = "@ + render_spec(grid_strings(grid.deep_view())),
{
    let strings = grid_to_strings(grid);
    let mut out = "Puzzle = ".to_owned();
    let body = render(&strings);
    out.append(body.as_str());
    out
}

} // verus!
