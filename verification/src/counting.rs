//! How many probes accept a wrong claim: of the vectors of `n` field
//! elements, at most one in as many as the field has elements.
//!
//! As in `soundness`, the bound rests on the hypothesis that the modulus is
//! prime.

use crate::algebra::{is_product, lemma_product_is_product, product, shapes_compatible, MatrixView};
use crate::field::{all_elements, is_element, modulus};
use crate::protocol::accepts;
use crate::soundness::{is_prime, lemma_one_coordinate_decides};
use vstd::arithmetic::power::pow;
use vstd::prelude::*;
use vstd::relations::injective_on;
use vstd::set_lib::{lemma_len_subset, lemma_map_size, lemma_set_disjoint_lens};

verus! {

/// The vectors of `n` field elements.
pub open spec fn field_vectors(n: nat) -> Set<Seq<nat>> {
    Set::new(|x: Seq<nat>| x.len() == n && all_elements(x))
}

/// The vectors of `c.cols` field elements that, taken as the probe, accept
/// the claim `a * b == c`.
pub open spec fn accepting_probes(a: MatrixView, b: MatrixView, c: MatrixView) -> Set<Seq<nat>> {
    Set::new(|x: Seq<nat>| x.len() == c.cols && all_elements(x) && accepts(x, a, b, c))
}

/// The vectors of `n + 1` field elements whose last entry is `v`.
spec fn vectors_ending(n: nat, v: nat) -> Set<Seq<nat>> {
    Set::new(|x: Seq<nat>| x.len() == n + 1 && all_elements(x) && x[n as int] == v)
}

/// The vectors of `n + 1` field elements whose last entry is below `m`.
spec fn vectors_below(n: nat, m: nat) -> Set<Seq<nat>> {
    Set::new(|x: Seq<nat>| x.len() == n + 1 && all_elements(x) && x[n as int] < m)
}

proof fn lemma_vectors_ending(n: nat, v: nat)
    requires
        field_vectors(n).finite(),
        is_element(v),
    ensures
        vectors_ending(n, v).finite(),
        vectors_ending(n, v).len() == field_vectors(n).len(),
{
    let f = |y: Seq<nat>| y.push(v);
    let shorter = field_vectors(n);
    let longer = vectors_ending(n, v);
    assert forall|y1: Seq<nat>, y2: Seq<nat>|
        shorter.contains(y1) && shorter.contains(y2) && #[trigger] f(y1) == #[trigger] f(
            y2,
        ) implies y1 == y2 by {
        assert(y1.push(v).drop_last() =~= y1);
        assert(y2.push(v).drop_last() =~= y2);
    }
    assert forall|x: Seq<nat>| shorter.map(f).contains(x) implies longer.contains(x) by {
        let y = choose|y: Seq<nat>| shorter.contains(y) && x == f(y);
        assert forall|k: int| 0 <= k < x.len() implies is_element(#[trigger] x[k]) by {
            if k < n {
                assert(x[k] == y[k]);
            }
        }
    }
    assert forall|x: Seq<nat>| longer.contains(x) implies shorter.map(f).contains(x) by {
        let y = x.drop_last();
        assert forall|k: int| 0 <= k < y.len() implies is_element(#[trigger] y[k]) by {
            assert(y[k] == x[k]);
        }
        assert(x =~= f(y));
        assert(shorter.contains(y));
    }
    assert(shorter.map(f) =~= longer);
    lemma_map_size(shorter, longer, f);
}

proof fn lemma_vectors_below(n: nat, m: nat)
    requires
        field_vectors(n).finite(),
        m <= modulus(),
    ensures
        vectors_below(n, m).finite(),
        vectors_below(n, m).len() == m * field_vectors(n).len(),
    decreases m,
{
    if m == 0 {
        assert(vectors_below(n, m) =~= Set::<Seq<nat>>::empty());
        assert(0 * field_vectors(n).len() == 0);
    } else {
        let less = vectors_below(n, (m - 1) as nat);
        let last = vectors_ending(n, (m - 1) as nat);
        lemma_vectors_below(n, (m - 1) as nat);
        lemma_vectors_ending(n, (m - 1) as nat);
        assert(less.disjoint(last));
        assert(vectors_below(n, m) =~= less + last);
        lemma_set_disjoint_lens(less, last);
        let size = field_vectors(n).len();
        assert((m - 1) * size + size == m * size) by (nonlinear_arith);
    }
}

/// There are as many vectors of `n` field elements as the `n`-th power of
/// the size of the field.
pub proof fn lemma_field_vectors_count(n: nat)
    ensures
        field_vectors(n).finite(),
        field_vectors(n).len() == pow(modulus() as int, n),
    decreases n,
{
    reveal(pow);
    if n == 0 {
        assert(field_vectors(0) =~= set![Seq::<nat>::empty()]) by {
            assert forall|x: Seq<nat>| field_vectors(0).contains(x) implies x
                == Seq::<nat>::empty() by {
                assert(x =~= Seq::<nat>::empty());
            }
        }
    } else {
        let shorter = (n - 1) as nat;
        lemma_field_vectors_count(shorter);
        lemma_vectors_below(shorter, modulus());
        assert(field_vectors(n) =~= vectors_below(shorter, modulus()));
    }
}

/// Let `c` differ from the product `p` of `a` and `b` in row `i`, column
/// `j`. Then the probes that accept the claim are at most as many as there
/// are vectors with one entry less: of all vectors of `c.cols` field
/// elements, at most one in `modulus()` accepts a wrong claim.
pub proof fn lemma_accepting_probes_count(
    a: MatrixView,
    b: MatrixView,
    c: MatrixView,
    p: MatrixView,
    i: int,
    j: int,
)
    requires
        is_prime(modulus() as int),
        shapes_compatible(a, b, c),
        is_product(a, b, p),
        0 <= i < c.rows,
        0 <= j < c.cols,
        is_element(c.entry(i, j)),
        c.entry(i, j) != p.entry(i, j),
    ensures
        accepting_probes(a, b, c).finite(),
        accepting_probes(a, b, c).len() <= pow(modulus() as int, (c.cols - 1) as nat),
        accepting_probes(a, b, c).len() * modulus() <= field_vectors(c.cols).len(),
{
    let n = c.cols;
    let shorter = (n - 1) as nat;
    let accepting = accepting_probes(a, b, c);
    let f = |x: Seq<nat>| x.remove(j);
    let image = accepting.map(f);
    lemma_field_vectors_count(n);
    lemma_field_vectors_count(shorter);
    lemma_len_subset(accepting, field_vectors(n));
    assert forall|x: Seq<nat>, y: Seq<nat>|
        accepting.contains(x) && accepting.contains(y) && #[trigger] f(x) == #[trigger] f(
            y,
        ) implies x == y by {
        assert forall|k: int| 0 <= k < n && k != j implies x[k] == y[k] by {
            if k < j {
                assert(x.remove(j)[k] == x[k]);
                assert(y.remove(j)[k] == y[k]);
            } else {
                assert(x.remove(j)[k - 1] == x[k]);
                assert(y.remove(j)[k - 1] == y[k]);
            }
        }
        if x[j] != y[j] {
            lemma_one_coordinate_decides(a, b, c, p, x, i, j, x[j], y[j]);
            assert(x.update(j, x[j]) =~= x);
            assert(x.update(j, y[j]) =~= y);
        }
        assert(x =~= y);
    }
    assert(injective_on(f, accepting));
    lemma_map_size(accepting, image, f);
    assert forall|y: Seq<nat>| image.contains(y) implies field_vectors(shorter).contains(y) by {
        let x = choose|x: Seq<nat>| accepting.contains(x) && y == f(x);
        assert forall|k: int| 0 <= k < y.len() implies is_element(#[trigger] y[k]) by {
            if k < j {
                assert(y[k] == x[k]);
            } else {
                assert(y[k] == x[k + 1]);
            }
        }
    }
    lemma_len_subset(image, field_vectors(shorter));
    reveal(pow);
    let size = pow(modulus() as int, shorter);
    assert(accepting.len() * modulus() <= modulus() * size) by (nonlinear_arith)
        requires
            accepting.len() <= size,
    ;
}

/// A claim of fitting shape that is not the product is accepted by at most
/// one in `modulus()` of the vectors of `c.cols` field elements. This holds
/// of the probe of `Freivald::verify`, and of each probe that
/// `Freivald::verify_once` and `Freivald::verify_rounds` draw for a square
/// claim.
pub proof fn lemma_wrong_claim_count(a: MatrixView, b: MatrixView, c: MatrixView)
    requires
        is_prime(modulus() as int),
        shapes_compatible(a, b, c),
        c.well_formed(),
        all_elements(c.data),
        c != product(a, b),
    ensures
        c.cols > 0,
        accepting_probes(a, b, c).finite(),
        accepting_probes(a, b, c).len() <= pow(modulus() as int, (c.cols - 1) as nat),
        accepting_probes(a, b, c).len() * modulus() <= field_vectors(c.cols).len(),
{
    let p = product(a, b);
    let rows = c.rows as int;
    lemma_product_is_product(a, b);
    if forall|k: int| 0 <= k < c.data.len() ==> c.data[k] == p.data[k] {
        assert(c.data =~= p.data);
    }
    let k = choose|k: int| 0 <= k < c.data.len() && c.data[k] != p.data[k];
    let i = k % rows;
    let j = k / rows;
    assert(rows > 0 && c.cols > 0) by (nonlinear_arith)
        requires
            0 <= k < rows * c.cols,
            rows >= 0,
            c.cols >= 0,
    ;
    vstd::arithmetic::div_mod::lemma_fundamental_div_mod(k, rows);
    vstd::arithmetic::div_mod::lemma_mod_bound(k, rows);
    assert(0 <= j < c.cols) by (nonlinear_arith)
        requires
            0 <= k < rows * c.cols,
            rows > 0,
            k == rows * j + i,
            0 <= i < rows,
    ;
    assert(j * rows + i == k) by (nonlinear_arith)
        requires
            k == rows * j + i,
    ;
    assert(c.entry(i, j) == c.data[k]);
    assert(p.entry(i, j) == p.data[k]);
    lemma_accepting_probes_count(a, b, c, p, i, j);
}

} // verus!
