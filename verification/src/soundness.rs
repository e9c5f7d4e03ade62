//! Why a wrong product is rarely accepted: among the probes that differ in
//! one suitable coordinate only, at most one is accepted. `counting` turns
//! this into a bound on the number of accepting probes.
//!
//! The argument needs the modulus to be prime. That it is cannot be checked
//! here by computation; it enters as a hypothesis, `is_prime(modulus())`.

use crate::algebra::{cell_dot, is_product, mat_vec, row_dot, shapes_compatible, MatrixView};
use crate::field::{is_element, modulus};
use crate::protocol::{lemma_outcome_by_product, verify_outcome, VerifyError};
use vstd::arithmetic::div_mod::{
    lemma_fundamental_div_mod, lemma_mod_bound, lemma_mod_equivalence, lemma_mod_multiples_basic,
    lemma_mod_multiples_vanish, lemma_mod_twice, lemma_mul_mod_noop, lemma_small_mod,
};
use vstd::prelude::*;

verus! {

/// `p` is a prime number.
pub open spec fn is_prime(p: int) -> bool {
    &&& p >= 2
    &&& forall|d: int| 1 < d < p ==> #[trigger] (p % d) != 0
}

/// A prime that divides a product of two natural numbers divides one of
/// them.
pub proof fn lemma_prime_divides_factor(p: int, a: int, b: int)
    requires
        is_prime(p),
        0 <= a,
        0 <= b,
        (a * b) % p == 0,
    ensures
        a % p == 0 || b % p == 0,
    decreases a,
{
    if a == 0 {
        lemma_small_mod(0, p as nat);
    } else if a >= p {
        let rest = a - p;
        assert(p * (-b) + a * b == rest * b) by (nonlinear_arith)
            requires
                rest == a - p,
        ;
        lemma_mod_multiples_vanish(-b, a * b, p);
        lemma_prime_divides_factor(p, rest, b);
        if rest % p == 0 {
            lemma_mod_multiples_vanish(1, rest, p);
            assert(p * 1 + rest == a);
        }
    } else if a == 1 {
        assert(a * b == b) by (nonlinear_arith)
            requires
                a == 1,
        ;
    } else {
        let r = p % a;
        let q = p / a;
        lemma_fundamental_div_mod(p, a);
        let k = (a * b) / p;
        lemma_fundamental_div_mod(a * b, p);
        assert(r * b == (b - q * k) * p) by (nonlinear_arith)
            requires
                p == a * q + r,
                a * b == p * k + 0,
        ;
        lemma_mod_multiples_basic(b - q * k, p);
        assert(0 < r < a);
        lemma_prime_divides_factor(p, r, b);
        lemma_small_mod(r as nat, p as nat);
    }
}

/// A prime that divides a product of two integers divides one of them.
pub proof fn lemma_prime_divides_integer_factor(p: int, a: int, b: int)
    requires
        is_prime(p),
        (a * b) % p == 0,
    ensures
        a % p == 0 || b % p == 0,
{
    lemma_mul_mod_noop(a, b, p);
    lemma_prime_divides_factor(p, a % p, b % p);
    lemma_mod_twice(a, p);
    lemma_mod_twice(b, p);
}

/// Two vectors that agree on the first `n` coordinates give the same sum
/// over them.
proof fn lemma_row_dot_agree(m: MatrixView, i: int, x: Seq<nat>, y: Seq<nat>, n: nat)
    requires
        forall|k: int| 0 <= k < n ==> x[k] == y[k],
    ensures
        row_dot(m, i, x, n) == row_dot(m, i, y, n),
    decreases n,
{
    if n > 0 {
        lemma_row_dot_agree(m, i, x, y, (n - 1) as nat);
    }
}

/// Where two vectors differ in coordinate `j` only, the sums over a row
/// differ by the entry in column `j` times the difference in that
/// coordinate.
proof fn lemma_row_dot_one_coordinate(
    m: MatrixView,
    i: int,
    x: Seq<nat>,
    y: Seq<nat>,
    j: int,
    n: nat,
)
    requires
        0 <= j < n,
        forall|k: int| 0 <= k < n && k != j ==> x[k] == y[k],
    ensures
        row_dot(m, i, x, n) - row_dot(m, i, y, n) == m.entry(i, j) * (x[j] - y[j]),
    decreases n,
{
    let e = m.entry(i, j) as int;
    let xj = x[j] as int;
    let yj = y[j] as int;
    if j == n - 1 {
        lemma_row_dot_agree(m, i, x, y, (n - 1) as nat);
        assert(e * xj - e * yj == e * (xj - yj)) by (nonlinear_arith);
    } else {
        lemma_row_dot_one_coordinate(m, i, x, y, j, (n - 1) as nat);
    }
}

/// Let `c` differ from the product `p` of `a` and `b` in row `i`, column
/// `j`, and let `v` and `w` be two different field elements. Then of the two
/// probes that hold `v` and `w` in coordinate `j` and agree with `x`
/// elsewhere, the check accepts at most one. So however the other
/// coordinates are drawn, at most one of the values that coordinate `j` can
/// take lets the wrong claim pass.
pub proof fn lemma_one_coordinate_decides(
    a: MatrixView,
    b: MatrixView,
    c: MatrixView,
    p: MatrixView,
    x: Seq<nat>,
    i: int,
    j: int,
    v: nat,
    w: nat,
)
    requires
        is_prime(modulus() as int),
        shapes_compatible(a, b, c),
        is_product(a, b, p),
        x.len() == c.cols,
        0 <= i < c.rows,
        0 <= j < c.cols,
        is_element(c.entry(i, j)),
        c.entry(i, j) != p.entry(i, j),
        is_element(v),
        is_element(w),
        v != w,
    ensures
        !(verify_outcome(x.update(j, v), a, b, c) == Ok::<bool, VerifyError>(true)
            && verify_outcome(x.update(j, w), a, b, c) == Ok::<bool, VerifyError>(true)),
{
    let m = modulus() as int;
    let n = c.cols;
    let xv = x.update(j, v);
    let xw = x.update(j, w);
    lemma_outcome_by_product(xv, a, b, c, p);
    lemma_outcome_by_product(xw, a, b, c, p);
    if mat_vec(p, xv) == mat_vec(c, xv) && mat_vec(p, xw) == mat_vec(c, xw) {
        let pv = row_dot(p, i, xv, n) as int;
        let pw = row_dot(p, i, xw, n) as int;
        let cv = row_dot(c, i, xv, n) as int;
        let cw = row_dot(c, i, xw, n) as int;
        assert(pv % m == cv % m) by {
            assert(mat_vec(p, xv)[i] == mat_vec(c, xv)[i]);
        }
        assert(pw % m == cw % m) by {
            assert(mat_vec(p, xw)[i] == mat_vec(c, xw)[i]);
        }
        lemma_row_dot_one_coordinate(p, i, xv, xw, j, n);
        lemma_row_dot_one_coordinate(c, i, xv, xw, j, n);
        let pe = p.entry(i, j) as int;
        let ce = c.entry(i, j) as int;
        let d = v - w;
        lemma_mod_equivalence(pv, cv, m);
        lemma_mod_equivalence(pw, cw, m);
        lemma_mod_equivalence(pv - cv, pw - cw, m);
        assert((pv - cv) - (pw - cw) == (pe - ce) * d) by (nonlinear_arith)
            requires
                pv - pw == pe * d,
                cv - cw == ce * d,
        ;
        lemma_prime_divides_integer_factor(m, pe - ce, d);
        lemma_mod_equivalence(pe, ce, m);
        lemma_mod_equivalence(v as int, w as int, m);
        lemma_mod_bound(cell_dot(a, b, i, j, a.cols) as int, m);
        lemma_small_mod(p.entry(i, j), modulus());
        lemma_small_mod(c.entry(i, j), modulus());
        lemma_small_mod(v, modulus());
        lemma_small_mod(w, modulus());
    }
}

} // verus!
