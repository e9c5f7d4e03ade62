//! Matrices and vectors over the field as mathematical values, and the
//! identities of matrix arithmetic that the verifier rests on.

use crate::field::{all_elements, is_element, modulus};
use vstd::arithmetic::div_mod::{lemma_add_mod_noop, lemma_mul_mod_noop_left, lemma_mul_mod_noop_right};
use vstd::prelude::*;

verus! {

/// A dense `rows` by `cols` matrix. `data` lists the canonical
/// representatives of the entries column by column.
pub struct MatrixView {
    pub rows: nat,
    pub cols: nat,
    pub data: Seq<nat>,
}

impl MatrixView {
    /// The entry in row `i` and column `j`.
    pub open spec fn entry(self, i: int, j: int) -> nat {
        self.data[j * self.rows + i]
    }

    /// `data` holds exactly one value for each position.
    pub open spec fn well_formed(self) -> bool {
        self.data.len() == self.rows * self.cols
    }
}

/// The sum of `m[i][k] * x[k]` over the first `n` columns `k`, as an integer
/// (not reduced).
pub open spec fn row_dot(m: MatrixView, i: int, x: Seq<nat>, n: nat) -> nat
    decreases n,
{
    if n == 0 {
        0
    } else {
        row_dot(m, i, x, (n - 1) as nat) + m.entry(i, n - 1) * x[n - 1]
    }
}

/// The sum of `a[i][k] * b[k][j]` over the first `n` indices `k`, as an
/// integer (not reduced).
pub open spec fn cell_dot(a: MatrixView, b: MatrixView, i: int, j: int, n: nat) -> nat
    decreases n,
{
    if n == 0 {
        0
    } else {
        cell_dot(a, b, i, j, (n - 1) as nat) + a.entry(i, n - 1) * b.entry(n - 1, j)
    }
}

/// The list that holds `value` at each of `len` positions.
pub open spec fn constant(len: nat, value: nat) -> Seq<nat> {
    Seq::new(len, |k: int| value)
}

/// The matrix-vector product `m * x` in the field: one entry per row of `m`.
pub open spec fn mat_vec(m: MatrixView, x: Seq<nat>) -> Seq<nat> {
    Seq::new(m.rows, |i: int| row_dot(m, i, x, m.cols) % modulus())
}

/// Every entry of a matrix-vector product is a field element.
pub proof fn lemma_mat_vec_elements(m: MatrixView, x: Seq<nat>)
    ensures
        mat_vec(m, x).len() == m.rows,
        all_elements(mat_vec(m, x)),
{
    assert forall|i: int| 0 <= i < m.rows implies is_element(#[trigger] mat_vec(m, x)[i]) by {
        vstd::arithmetic::div_mod::lemma_mod_bound(row_dot(m, i, x, m.cols) as int, modulus() as int);
    }
}

/// The three equalities of shape under which `c` can be the product of `a`
/// and `b` at all.
pub open spec fn shapes_compatible(a: MatrixView, b: MatrixView, c: MatrixView) -> bool {
    &&& a.cols == b.rows
    &&& a.rows == c.rows
    &&& b.cols == c.cols
}

/// Whether `c` is the product `a * b` in the field: the shapes fit and every
/// entry of `c` is the reduced dot product of a row of `a` with a column of
/// `b`.
pub open spec fn is_product(a: MatrixView, b: MatrixView, c: MatrixView) -> bool {
    &&& shapes_compatible(a, b, c)
    &&& forall|i: int, j: int|
        0 <= i < c.rows && 0 <= j < c.cols ==> #[trigger] c.entry(i, j) == cell_dot(
            a,
            b,
            i,
            j,
            a.cols,
        ) % modulus()
}

/// The product `a * b` in the field, where `a.cols == b.rows`. Position `k`
/// of the column-by-column listing is row `k % rows`, column `k / rows`.
pub open spec fn product(a: MatrixView, b: MatrixView) -> MatrixView {
    MatrixView {
        rows: a.rows,
        cols: b.cols,
        data: Seq::new(
            a.rows * b.cols,
            |k: int| cell_dot(a, b, k % (a.rows as int), k / (a.rows as int), a.cols) % modulus(),
        ),
    }
}

/// `product` gives a well-formed matrix of field elements that meets
/// `is_product`.
pub proof fn lemma_product_is_product(a: MatrixView, b: MatrixView)
    requires
        a.cols == b.rows,
    ensures
        is_product(a, b, product(a, b)),
        product(a, b).well_formed(),
        all_elements(product(a, b).data),
{
    let p = product(a, b);
    let rows = a.rows as int;
    assert forall|k: int| 0 <= k < p.data.len() implies is_element(#[trigger] p.data[k]) by {
        vstd::arithmetic::div_mod::lemma_mod_bound(
            cell_dot(a, b, k % rows, k / rows, a.cols) as int,
            modulus() as int,
        );
    }
    assert forall|i: int, j: int| 0 <= i < p.rows && 0 <= j < p.cols implies #[trigger] p.entry(
        i,
        j,
    ) == cell_dot(a, b, i, j, a.cols) % modulus() by {
        lemma_position(i, j, rows, b.cols as int);
    }
}

proof fn lemma_position(i: int, j: int, rows: int, cols: int)
    requires
        0 <= i < rows,
        0 <= j < cols,
    ensures
        0 <= j * rows + i < rows * cols,
        (j * rows + i) % rows == i,
        (j * rows + i) / rows == j,
{
    assert(0 <= j * rows + i < rows * cols) by (nonlinear_arith)
        requires
            0 <= i < rows,
            0 <= j < cols,
    ;
    vstd::arithmetic::div_mod::lemma_fundamental_div_mod_converse(j * rows + i, rows, j, i);
}

/// The double sum of `a[i][k] * b[k][j] * x[j]` over `k < n` and `j < q`,
/// taken row of `b` by row of `b`: the inner sum runs over `j`.
pub open spec fn sum_rows_first(
    a: MatrixView,
    b: MatrixView,
    x: Seq<nat>,
    i: int,
    n: nat,
    q: nat,
) -> nat
    decreases n,
{
    if n == 0 {
        0
    } else {
        sum_rows_first(a, b, x, i, (n - 1) as nat, q) + a.entry(i, n - 1) * row_dot(
            b,
            n - 1,
            x,
            q,
        )
    }
}

/// The same double sum taken column of `b` by column of `b`: the inner sum
/// runs over `k`.
pub open spec fn sum_cols_first(
    a: MatrixView,
    b: MatrixView,
    x: Seq<nat>,
    i: int,
    n: nat,
    q: nat,
) -> nat
    decreases q,
{
    if q == 0 {
        0
    } else {
        sum_cols_first(a, b, x, i, n, (q - 1) as nat) + cell_dot(a, b, i, q - 1, n) * x[q - 1]
    }
}

proof fn lemma_distribute(s: nat, t: nat, u: nat, v: nat, w: nat, y: nat)
    ensures
        (s + u * t) + (v + u * w) * y == (s + v * y) + u * (t + w * y),
{
    assert((s + u * t) + (v + u * w) * y == (s + v * y) + u * (t + w * y)) by (nonlinear_arith);
}

proof fn lemma_sum_cols_first_empty(a: MatrixView, b: MatrixView, x: Seq<nat>, i: int, q: nat)
    ensures
        sum_cols_first(a, b, x, i, 0, q) == 0,
    decreases q,
{
    if q > 0 {
        lemma_sum_cols_first_empty(a, b, x, i, (q - 1) as nat);
        assert(cell_dot(a, b, i, q - 1, 0) == 0);
        assert(0 * x[q - 1] == 0);
    }
}

proof fn lemma_sum_cols_first_step(
    a: MatrixView,
    b: MatrixView,
    x: Seq<nat>,
    i: int,
    n: nat,
    q: nat,
)
    requires
        n > 0,
    ensures
        sum_cols_first(a, b, x, i, n, q) == sum_cols_first(a, b, x, i, (n - 1) as nat, q)
            + a.entry(i, n - 1) * row_dot(b, n - 1, x, q),
    decreases q,
{
    let m = (n - 1) as nat;
    if q == 0 {
        assert(a.entry(i, n - 1) * 0 == 0);
    } else {
        let p = (q - 1) as nat;
        lemma_sum_cols_first_step(a, b, x, i, n, p);
        lemma_distribute(
            sum_cols_first(a, b, x, i, m, p),
            row_dot(b, n - 1, x, p),
            a.entry(i, n - 1),
            cell_dot(a, b, i, q - 1, m),
            b.entry(n - 1, q - 1),
            x[q - 1],
        );
    }
}

/// The two orders of summation give the same double sum.
pub proof fn lemma_sum_exchange(a: MatrixView, b: MatrixView, x: Seq<nat>, i: int, n: nat, q: nat)
    ensures
        sum_rows_first(a, b, x, i, n, q) == sum_cols_first(a, b, x, i, n, q),
    decreases n,
{
    if n == 0 {
        lemma_sum_cols_first_empty(a, b, x, i, q);
    } else {
        lemma_sum_exchange(a, b, x, i, (n - 1) as nat, q);
        lemma_sum_cols_first_step(a, b, x, i, n, q);
    }
}

proof fn lemma_congruent_step(s: nat, t: nat, u: nat, v: nat, w: nat)
    requires
        s % modulus() == t % modulus(),
        v % modulus() == w % modulus(),
    ensures
        (s + u * v) % modulus() == (t + u * w) % modulus(),
{
    let p = modulus() as int;
    lemma_mul_mod_noop_right(u as int, v as int, p);
    lemma_mul_mod_noop_right(u as int, w as int, p);
    assert((u * v) % modulus() == (u * w) % modulus());
    lemma_add_mod_noop(s as int, (u * v) as int, p);
    lemma_add_mod_noop(t as int, (u * w) as int, p);
}

proof fn lemma_congruent_step_left(s: nat, t: nat, u: nat, v: nat, w: nat)
    requires
        s % modulus() == t % modulus(),
        v % modulus() == w % modulus(),
    ensures
        (s + v * u) % modulus() == (t + w * u) % modulus(),
{
    let p = modulus() as int;
    lemma_mul_mod_noop_left(v as int, u as int, p);
    lemma_mul_mod_noop_left(w as int, u as int, p);
    assert((v * u) % modulus() == (w * u) % modulus());
    lemma_add_mod_noop(s as int, (v * u) as int, p);
    lemma_add_mod_noop(t as int, (w * u) as int, p);
}

proof fn lemma_chained_congruent(
    a: MatrixView,
    b: MatrixView,
    x: Seq<nat>,
    i: int,
    n: nat,
)
    requires
        n <= b.rows,
    ensures
        row_dot(a, i, mat_vec(b, x), n) % modulus() == sum_rows_first(a, b, x, i, n, b.cols)
            % modulus(),
    decreases n,
{
    if n > 0 {
        let bx = mat_vec(b, x);
        lemma_chained_congruent(a, b, x, i, (n - 1) as nat);
        assert(bx[n - 1] == row_dot(b, n - 1, x, b.cols) % modulus());
        vstd::arithmetic::div_mod::lemma_mod_twice(
            row_dot(b, n - 1, x, b.cols) as int,
            modulus() as int,
        );
        lemma_congruent_step(
            row_dot(a, i, bx, (n - 1) as nat),
            sum_rows_first(a, b, x, i, (n - 1) as nat, b.cols),
            a.entry(i, n - 1),
            bx[n - 1],
            row_dot(b, n - 1, x, b.cols),
        );
    }
}

proof fn lemma_product_congruent(
    a: MatrixView,
    b: MatrixView,
    c: MatrixView,
    x: Seq<nat>,
    i: int,
    q: nat,
)
    requires
        is_product(a, b, c),
        0 <= i < c.rows,
        q <= c.cols,
    ensures
        row_dot(c, i, x, q) % modulus() == sum_cols_first(a, b, x, i, a.cols, q) % modulus(),
    decreases q,
{
    if q > 0 {
        lemma_product_congruent(a, b, c, x, i, (q - 1) as nat);
        assert(c.entry(i, q - 1) == cell_dot(a, b, i, q - 1, a.cols) % modulus());
        vstd::arithmetic::div_mod::lemma_mod_twice(
            cell_dot(a, b, i, q - 1, a.cols) as int,
            modulus() as int,
        );
        lemma_congruent_step_left(
            row_dot(c, i, x, (q - 1) as nat),
            sum_cols_first(a, b, x, i, a.cols, (q - 1) as nat),
            x[q - 1],
            c.entry(i, q - 1),
            cell_dot(a, b, i, q - 1, a.cols),
        );
    }
}

/// Multiplying a vector by `b` and then by `a` gives what multiplying it by
/// their product gives: `a * (b * x) == (a * b) * x`, for every vector `x`.
/// The product itself is therefore never needed to evaluate the left side.
pub proof fn lemma_evaluation_order(a: MatrixView, b: MatrixView, c: MatrixView, x: Seq<nat>)
    requires
        is_product(a, b, c),
    ensures
        mat_vec(a, mat_vec(b, x)) == mat_vec(c, x),
{
    let lhs = mat_vec(a, mat_vec(b, x));
    let rhs = mat_vec(c, x);
    assert forall|i: int| 0 <= i < a.rows implies lhs[i] == rhs[i] by {
        lemma_chained_congruent(a, b, x, i, a.cols);
        lemma_sum_exchange(a, b, x, i, a.cols, b.cols);
        lemma_product_congruent(a, b, c, x, i, c.cols);
    }
    assert(lhs =~= rhs);
}

} // verus!
