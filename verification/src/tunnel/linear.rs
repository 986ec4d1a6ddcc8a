//! Linear equations by elimination with pivots.
use crate::literal::{D0, D1EM12};
use crate::single::{sgl, Single};
use vstd::prelude::*;

verus! {

/// The rows of a system: coefficients, then the right-hand side.
pub open spec fn rows_of(rows: Seq<Vec<Single>>) -> Seq<Seq<Single>> {
    Seq::new(rows.len(), |i: int| rows[i]@)
}

/// Rows of `n + 1` numbers.
pub open spec fn shaped(m: Seq<Seq<Single>>, n: nat) -> bool {
    &&& m.len() == n
    &&& forall|i: int| 0 <= i < n ==> (#[trigger] m[i]).len() == n + 1
}

/// The row, from `col` up to but not with `end`, with the largest entry in a
/// column; the first of them if there are several.
pub open spec fn pivot_row(m: Seq<Seq<Single>>, col: int, end: int) -> int
    decreases end - col,
{
    if end <= col + 1 {
        col
    } else {
        let best = pivot_row(m, col, end - 1);
        if m[best][col].absolute().below(m[end - 1][col].absolute()) {
            end - 1
        } else {
            best
        }
    }
}

/// Rows with two of them exchanged.
pub open spec fn exchanged(m: Seq<Seq<Single>>, a: int, b: int) -> Seq<Seq<Single>> {
    m.update(a, m[b]).update(b, m[a])
}

/// A row with its entry in a column cleared by the pivot row; the entries
/// before stay.
pub open spec fn cleared_row(row: Seq<Single>, pivot: Seq<Single>, col: int) -> Seq<Single> {
    let factor = row[col].quotient(pivot[col]);
    Seq::new(
        row.len(),
        |k: int|
            if k < col {
                row[k]
            } else {
                row[k].difference(factor.product(pivot[k]))
            },
    )
}

/// Rows with the entries below a pivot cleared.
pub open spec fn cleared(m: Seq<Seq<Single>>, col: int) -> Seq<Seq<Single>> {
    Seq::new(
        m.len(),
        |i: int|
            if i <= col {
                m[i]
            } else {
                cleared_row(m[i], m[col], col)
            },
    )
}

/// The rows after a column has been treated: the largest entry becomes the
/// pivot, and the entries below are cleared unless it vanishes.
pub open spec fn treated(m: Seq<Seq<Single>>, col: int) -> Seq<Seq<Single>> {
    let p = exchanged(m, col, pivot_row(m, col, m.len() as int));
    if p[col][col].absolute().below(sgl(D1EM12)) {
        p
    } else {
        cleared(p, col)
    }
}

/// The rows after the first `cols` columns have been treated.
pub open spec fn eliminated(m: Seq<Seq<Single>>, cols: nat) -> Seq<Seq<Single>>
    decreases cols,
{
    if cols == 0 {
        m
    } else {
        treated(eliminated(m, (cols - 1) as nat), cols - 1)
    }
}

/// What is left of the right-hand side of row `i` without the unknowns from
/// `i + 1` up to but not with `j`; `x` holds the unknowns from `i + 1` on.
pub open spec fn reduced(row: Seq<Single>, i: int, x: Seq<Single>, j: int) -> Single
    decreases j - i,
{
    if j <= i + 1 {
        row.last()
    } else {
        reduced(row, i, x, j - 1).difference(row[j - 1].product(x[j - 1 - (i + 1)]))
    }
}

/// The unknowns from `i` on, by substitution from the last; one without a
/// pivot is zero.
pub open spec fn unknowns(m: Seq<Seq<Single>>, i: int) -> Seq<Single>
    decreases m.len() - i,
{
    if i >= m.len() {
        Seq::empty()
    } else {
        let rest = unknowns(m, i + 1);
        let sum = reduced(m[i], i, rest, m.len() as int);
        let diag = m[i][i];
        let x = if sgl(D1EM12).below(diag.absolute()) {
            sum.quotient(diag)
        } else {
            sgl(D0)
        };
        seq![x] + rest
    }
}

/// The rows of the system with coefficients `a` and right-hand side `b`.
pub open spec fn system(a: Seq<Single>, b: Seq<Single>, n: nat) -> Seq<Seq<Single>> {
    Seq::new(
        n,
        |i: int|
            Seq::new(
                n + 1,
                |j: int|
                    if j < n {
                        a[i * n + j]
                    } else {
                        b[i]
                    },
            ),
    )
}

/// The solution of a system.
pub open spec fn solution(a: Seq<Single>, b: Seq<Single>, n: nat) -> Seq<Single> {
    unknowns(eliminated(system(a, b, n), n), 0)
}

fn copied(row: &Vec<Single>) -> (r: Vec<Single>)
    ensures
        r@ == row@,
{
    let mut r: Vec<Single> = Vec::new();
    let mut k: usize = 0;
    while k < row.len()
        invariant
            k <= row@.len(),
            r@ =~= row@.take(k as int),
        decreases row@.len() - k,
    {
        r.push(row[k]);
        k += 1;
    }
    proof {
        assert(row@.take(k as int) =~= row@);
    }
    r
}

fn cleared_copy(row: &Vec<Single>, pivot: &Vec<Single>, col: usize) -> (r: Vec<Single>)
    requires
        col < row@.len(),
        row@.len() == pivot@.len(),
    ensures
        r@ =~= cleared_row(row@, pivot@, col as int),
{
    let factor: Single = row[col].over(pivot[col]);
    let mut r: Vec<Single> = Vec::new();
    let mut k: usize = 0;
    while k < row.len()
        invariant
            k <= row@.len(),
            row@.len() == pivot@.len(),
            col < row@.len(),
            factor == row@[col as int].quotient(pivot@[col as int]),
            r@ =~= cleared_row(row@, pivot@, col as int).take(k as int),
        decreases row@.len() - k,
    {
        if k < col {
            r.push(row[k]);
        } else {
            r.push(row[k].minus(factor.times(pivot[k])));
        }
        k += 1;
    }
    r
}

fn find_pivot(rows: &Vec<Vec<Single>>, col: usize) -> (r: usize)
    requires
        col < rows@.len(),
        shaped(rows_of(rows@), rows@.len()),
    ensures
        r == pivot_row(rows_of(rows@), col as int, rows@.len() as int),
        col <= r < rows@.len(),
{
    let n: usize = rows.len();
    let mut best: usize = col;
    let mut row: usize = col + 1;
    while row < n
        invariant
            n == rows@.len(),
            col < row <= n,
            col <= best < row,
            shaped(rows_of(rows@), rows@.len()),
            best == pivot_row(rows_of(rows@), col as int, row as int),
        decreases rows@.len() - row,
    {
        proof {
            assert(rows_of(rows@)[best as int].len() == rows@.len() + 1);
            assert(rows_of(rows@)[row as int].len() == rows@.len() + 1);
        }
        if rows[row][col].abs().gt(rows[best][col].abs()) {
            best = row;
        }
        row += 1;
    }
    best
}

/// The rows after a column has been treated.
fn treat(rows: &Vec<Vec<Single>>, col: usize) -> (r: Vec<Vec<Single>>)
    requires
        col < rows@.len(),
        shaped(rows_of(rows@), rows@.len()),
    ensures
        rows_of(r@) =~= treated(rows_of(rows@), col as int),
        shaped(rows_of(r@), rows@.len()),
{
    let ghost m = rows_of(rows@);
    let n: usize = rows.len();
    let best: usize = find_pivot(rows, col);
    let ghost p = exchanged(m, col as int, best as int);
    proof {
        assert(m[best as int].len() == n + 1);
        assert(m[col as int].len() == n + 1);
        assert(p[col as int] == m[best as int]);
    }
    let skip: bool = rows[best][col].abs().lt(sgl(D1EM12));
    let mut r: Vec<Vec<Single>> = Vec::new();
    let mut i: usize = 0;
    while i < n
        invariant
            i <= n,
            n == rows@.len(),
            col <= best < n,
            m == rows_of(rows@),
            shaped(m, n as nat),
            p == exchanged(m, col as int, best as int),
            p[col as int] == m[best as int],
            skip == p[col as int][col as int].absolute().below(sgl(D1EM12)),
            r@.len() == i,
            forall|k: int|
                #![trigger r@[k]]
                0 <= k < i ==> r@[k]@ == if skip || k <= col {
                    p[k]
                } else {
                    cleared_row(p[k], p[col as int], col as int)
                },
        decreases n - i,
    {
        let from: usize = if i == col {
            best
        } else if i == best {
            col
        } else {
            i
        };
        proof {
            assert(p[i as int] == m[from as int]);
            assert(m[from as int] == rows@[from as int]@);
            assert(m[best as int] == rows@[best as int]@);
            assert(m[from as int].len() == n + 1);
            assert(m[best as int].len() == n + 1);
        }
        let next: Vec<Single> = if skip || i <= col {
            copied(&rows[from])
        } else {
            cleared_copy(&rows[from], &rows[best], col)
        };
        r.push(next);
        i += 1;
    }
    proof {
        let t = treated(m, col as int);
        assert forall|k: int| 0 <= k < n implies rows_of(r@)[k] == t[k] by {
            assert(r@[k]@ == rows_of(r@)[k]);
        }
        assert(rows_of(r@) =~= t);
        assert forall|k: int| 0 <= k < n implies (#[trigger] rows_of(r@)[k]).len() == n + 1 by {
            assert(r@[k]@ == rows_of(r@)[k]);
            assert(m[k].len() == n + 1);
            assert(p[k].len() == n + 1) by {
                assert(m[best as int].len() == n + 1);
                assert(m[col as int].len() == n + 1);
            }
        }
    }
    r
}

/// Solves the system with coefficients `a`, row by row, and right-hand side
/// `b` of `n` unknowns. `x` takes the unknowns; what it holds beyond them
/// stays.
#[verifier::spinoff_prover]
#[verifier::rlimit(40)]
pub fn solve_linear(a: &[Single], b: &[Single], x: &mut Vec<Single>, n: usize)
    requires
        n * n <= usize::MAX,
        a@.len() == n * n,
        b@.len() == n,
        n <= old(x)@.len(),
    ensures
        final(x)@.len() == old(x)@.len(),
        final(x)@.take(n as int) =~= solution(a@, b@, n as nat),
        final(x)@.skip(n as int) =~= old(x)@.skip(n as int),
{
    let mut rows: Vec<Vec<Single>> = Vec::new();
    let mut i: usize = 0;
    while i < n
        invariant
            i <= n,
            n * n <= usize::MAX,
            a@.len() == n * n,
            b@.len() == n,
            rows@.len() == i,
            forall|k: int|
                #![trigger rows@[k]]
                0 <= k < i ==> rows@[k]@ =~= system(a@, b@, n as nat)[k],
        decreases n - i,
    {
        let mut row: Vec<Single> = Vec::new();
        let mut j: usize = 0;
        while j < n
            invariant
                j <= n,
                i < n,
                n * n <= usize::MAX,
                a@.len() == n * n,
                row@.len() == j,
                forall|k: int| 0 <= k < j ==> #[trigger] row@[k] == a@[i * n + k],
            decreases n - j,
        {
            proof {
                assert(i * n + j < n * n) by (nonlinear_arith)
                    requires
                        i < n,
                        j < n,
                ;
                assert(0 <= i * n) by (nonlinear_arith)
                    requires
                        0 <= i,
                        0 <= n,
                ;
            }
            row.push(a[i * n + j]);
            j += 1;
        }
        row.push(b[i]);
        proof {
            assert(row@ =~= system(a@, b@, n as nat)[i as int]);
        }
        rows.push(row);
        i += 1;
    }
    let ghost m = system(a@, b@, n as nat);
    proof {
        assert(rows_of(rows@) =~= m);
    }
    let mut col: usize = 0;
    while col < n
        invariant
            col <= n,
            rows@.len() == n,
            shaped(rows_of(rows@), n as nat),
            rows_of(rows@) == eliminated(m, col as nat),
        decreases n - col,
    {
        rows = treat(&rows, col);
        proof {
            assert(rows_of(rows@).len() == n);
        }
        col += 1;
    }
    let ghost e = eliminated(m, n as nat);
    let mut at: usize = n;
    while at > 0
        invariant
            at <= n,
            n <= x@.len(),
            x@.len() == old(x)@.len(),
            rows@.len() == n,
            e.len() == n,
            rows_of(rows@) == e,
            shaped(e, n as nat),
            x@.subrange(at as int, n as int) =~= unknowns(e, at as int),
            x@.skip(n as int) =~= old(x)@.skip(n as int),
        decreases at,
    {
        let i: usize = at - 1;
        let ghost rest = unknowns(e, at as int);
        proof {
            assert(e[i as int] == rows@[i as int]@);
            assert(e[i as int].len() == n + 1);
            assert(x@.subrange(at as int, n as int).len() == n - at);
        }
        let mut sum: Single = rows[i][n];
        let mut j: usize = i + 1;
        while j < n
            invariant
                i < n,
                i + 1 <= j <= n,
                n <= x@.len(),
                rows@.len() == n,
                rows@[i as int]@.len() == n + 1,
                rest =~= x@.subrange(i + 1, n as int),
                sum == reduced(rows@[i as int]@, i as int, rest, j as int),
            decreases n - j,
        {
            proof {
                assert(rest[j - (i + 1)] == x@[j as int]);
            }
            sum = sum.minus(rows[i][j].times(x[j]));
            j += 1;
        }
        let diag: Single = rows[i][i];
        let value: Single = if diag.abs().gt(sgl(D1EM12)) {
            sum.over(diag)
        } else {
            sgl(D0)
        };
        let ghost before = x@;
        x.set(i, value);
        proof {
            assert(x@.subrange(i as int, n as int) =~= seq![value] + before.subrange(
                at as int,
                n as int,
            ));
            assert(x@.skip(n as int) =~= before.skip(n as int));
        }
        at = i;
    }
    proof {
        assert(x@.take(n as int) =~= x@.subrange(0, n as int));
    }
}

/// The pivot is the largest: no entry of its column from the diagonal on has a
/// larger magnitude.
pub proof fn pivots_are_the_largest(m: Seq<Seq<Single>>, col: int, end: int, i: int)
    requires
        0 <= col < end <= m.len(),
        col <= i < end,
        forall|k: int| col <= k < end ==> !(#[trigger] m[k])[col].wide.nan(),
    ensures
        col <= pivot_row(m, col, end) < end,
        m[i][col].absolute().not_above(m[pivot_row(m, col, end)][col].absolute()),
    decreases end - col,
{
    if end > col + 1 {
        assert(!m[end - 1][col].wide.nan());
        if i < end - 1 {
            pivots_are_the_largest(m, col, end - 1, i);
        } else {
            pivots_are_the_largest(m, col, end - 1, col);
        }
        let best = pivot_row(m, col, end - 1);
        assert(!m[best][col].wide.nan());
    } else {
        assert(!m[col][col].wide.nan());
    }
}

/// Exchanging two rows twice changes nothing.
pub proof fn exchanges_undo_themselves(m: Seq<Seq<Single>>, a: int, b: int)
    requires
        0 <= a < m.len(),
        0 <= b < m.len(),
    ensures
        exchanged(exchanged(m, a, b), a, b) =~= m,
        exchanged(m, a, b)[a] == m[b],
        exchanged(m, a, b)[b] == m[a],
{
}

/// A single equation is solved by a quotient: its unknown has the sign of the
/// right side over the left.
pub proof fn single_equations_divide(row: Seq<Single>)
    requires
        row.len() == 2,
        sgl(D1EM12).below(row[0].absolute()),
        row[0].wide.finite() && row[1].wide.finite(),
        !row[0].wide.zero(),
    ensures
        unknowns(seq![row], 0).len() == 1,
        ({
            let x = unknowns(seq![row], 0)[0].wide;
            &&& !x.nan()
            &&& row[1].wide.zero() ==> x.zero()
            &&& !x.zero() ==> x.negative() == (row[1].wide.negative() != row[0].wide.negative())
        }),
{
    let m = seq![row];
    reveal_with_fuel(unknowns, 2);
    assert(unknowns(m, 1) =~= Seq::<Single>::empty());
    assert(reduced(m[0], 0, unknowns(m, 1), 1) == row.last());
    crate::rounding::quotients_are_numbers(row[1].wide, row[0].wide);
    crate::single::narrowing_keeps_signs(row[1].wide.quotient(row[0].wide));
    assert(unknowns(m, 0) =~= seq![row[1].quotient(row[0])]);
}

} // verus!
