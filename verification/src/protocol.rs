//! The verifier: a probe vector, and the check of a claimed product against
//! it.

use crate::algebra::{is_product, lemma_evaluation_order, mat_vec, shapes_compatible, MatrixView};
use crate::field::all_elements;
use crate::matrix::{dmatrix_mul_vector, dvector_eq, Matrix, Vector};
use vstd::prelude::*;

verus! {

/// Why a triple of matrices could not be checked at all.
#[derive(Debug, Clone, Copy, PartialEq, Eq, Structural)]
pub enum VerifyError {
    /// The shapes rule out that the third matrix is the product of the first
    /// two.
    ShapeMismatch,
    /// The probe vector does not hold one entry for each column of the
    /// claimed product.
    ProbeMismatch,
}

/// What checking the claim `a * b == c` against the probe `x` gives: an
/// error where the shapes or the probe's length do not fit, and else whether
/// `a * (b * x)` and `c * x` are the same vector.
pub open spec fn verify_outcome(x: Seq<nat>, a: MatrixView, b: MatrixView, c: MatrixView) -> Result<
    bool,
    VerifyError,
> {
    if !shapes_compatible(a, b, c) {
        Err(VerifyError::ShapeMismatch)
    } else if x.len() != b.cols {
        Err(VerifyError::ProbeMismatch)
    } else {
        Ok(mat_vec(a, mat_vec(b, x)) == mat_vec(c, x))
    }
}

/// Whether the check of the claim `a * b == c` against the probe `x` accepts
/// it.
pub open spec fn accepts(x: Seq<nat>, a: MatrixView, b: MatrixView, c: MatrixView) -> bool {
    verify_outcome(x, a, b, c) == Ok::<bool, VerifyError>(true)
}

/// Whether each probe of the list has `n` entries.
pub open spec fn probes_fit(xs: Seq<Seq<nat>>, n: nat) -> bool {
    forall|k: int| 0 <= k < xs.len() ==> (#[trigger] xs[k]).len() == n
}

/// Whether each probe of the list holds field elements only.
pub open spec fn probes_are_elements(xs: Seq<Seq<nat>>) -> bool {
    forall|k: int| 0 <= k < xs.len() ==> all_elements(#[trigger] xs[k])
}

/// What checking the claim `a * b == c` against each probe of `xs` in turn
/// gives: an error where the shapes do not fit or a probe has the wrong
/// length, and else whether every probe accepts the claim. With no probe
/// the claim is accepted.
pub open spec fn rounds_outcome(
    xs: Seq<Seq<nat>>,
    a: MatrixView,
    b: MatrixView,
    c: MatrixView,
) -> Result<bool, VerifyError> {
    if !shapes_compatible(a, b, c) {
        Err(VerifyError::ShapeMismatch)
    } else if !probes_fit(xs, b.cols) {
        Err(VerifyError::ProbeMismatch)
    } else {
        Ok(forall|k: int| 0 <= k < xs.len() ==> accepts(#[trigger] xs[k], a, b, c))
    }
}

/// The probes of a list of verifiers, in its order.
pub open spec fn probes_of(fs: Seq<Freivald>) -> Seq<Seq<nat>> {
    Seq::new(fs.len(), |k: int| fs[k]@)
}

/// What a check against a freshly drawn probe of `n` entries is bound to,
/// whatever was drawn: the two errors come exactly on the triples they are
/// for, and a true product is accepted. So `Ok(false)` is only ever said of
/// a triple whose third matrix is not the product.
pub open spec fn trial_result(
    a: MatrixView,
    b: MatrixView,
    c: MatrixView,
    n: nat,
    r: Result<bool, VerifyError>,
) -> bool {
    &&& r == Err::<bool, VerifyError>(VerifyError::ShapeMismatch) <==> !shapes_compatible(a, b, c)
    &&& r == Err::<bool, VerifyError>(VerifyError::ProbeMismatch) <==> shapes_compatible(a, b, c)
        && n != b.cols
    &&& is_product(a, b, c) && n == b.cols ==> r == Ok::<bool, VerifyError>(true)
}

/// Whether the shapes allow `supposed_ab` to be the product of `matrix_a`
/// and `matrix_b`: the inner dimensions agree, and the claimed product has
/// the rows of the first factor and the columns of the second.
pub fn check_matrix_dimensions(matrix_a: &Matrix, matrix_b: &Matrix, supposed_ab: &Matrix) -> (r:
    bool)
    ensures
        r == shapes_compatible(matrix_a@, matrix_b@, supposed_ab@),
{
    matrix_a.ncols() == matrix_b.nrows() && matrix_a.nrows() == supposed_ab.nrows()
        && matrix_b.ncols() == supposed_ab.ncols()
}

/// A verifier of matrix products. It owns one probe vector, drawn when the
/// verifier is made and never changed.
pub struct Freivald {
    x: Vector,
}

impl View for Freivald {
    type V = Seq<nat>;

    /// The probe vector.
    closed spec fn view(&self) -> Seq<nat> {
        self.x@
    }
}

impl Freivald {
    /// A verifier with a fresh probe of `array_size` entries, each drawn
    /// uniformly from the field.
    pub fn new(array_size: usize) -> (r: Freivald)
        ensures
            r@.len() == array_size,
            all_elements(r@),
    {
        Freivald::with_probe(Vector::random(array_size))
    }

    /// A verifier with the given probe.
    pub fn with_probe(x: Vector) -> (r: Freivald)
        ensures
            r@ == x@,
    {
        Freivald { x }
    }

    /// The number of entries of the probe, which is the number of columns
    /// that a claimed product must have to be checked by this verifier.
    pub fn dimension(&self) -> (r: usize)
        ensures
            r == self@.len(),
    {
        self.x.len()
    }

    /// Checks the claim `matrix_a * matrix_b == supposed_ab` against the
    /// probe `x`, as `matrix_a * (matrix_b * x) == supposed_ab * x`. The
    /// product of the two matrices is never formed.
    pub fn verify(&self, matrix_a: &Matrix, matrix_b: &Matrix, supposed_ab: &Matrix) -> (r: Result<
        bool,
        VerifyError,
    >)
        ensures
            r == verify_outcome(self@, matrix_a@, matrix_b@, supposed_ab@),
    {
        if !check_matrix_dimensions(matrix_a, matrix_b, supposed_ab) {
            return Err(VerifyError::ShapeMismatch);
        }
        if self.x.len() != matrix_b.ncols() {
            return Err(VerifyError::ProbeMismatch);
        }
        let bx = dmatrix_mul_vector(matrix_b, &self.x);
        let lhs = dmatrix_mul_vector(matrix_a, &bx);
        let rhs = dmatrix_mul_vector(supposed_ab, &self.x);
        Ok(dvector_eq(&lhs, &rhs))
    }

    /// One check against a fresh probe, sized to the rows of `supposed_ab`.
    pub fn verify_once(matrix_a: &Matrix, matrix_b: &Matrix, supposed_ab: &Matrix) -> (r: Result<
        bool,
        VerifyError,
    >)
        ensures
            trial_result(matrix_a@, matrix_b@, supposed_ab@, supposed_ab@.rows, r),
            exists|x: Seq<nat>|
                x.len() == supposed_ab@.rows && all_elements(x) && r == verify_outcome(
                    x,
                    matrix_a@,
                    matrix_b@,
                    supposed_ab@,
                ),
    {
        let freivald = Freivald::new(supposed_ab.nrows());
        proof {
            lemma_trial(freivald@, matrix_a@, matrix_b@, supposed_ab@);
        }
        freivald.verify(matrix_a, matrix_b, supposed_ab)
    }

    /// Checks the claim `matrix_a * matrix_b == supposed_ab` against the
    /// probe of each verifier in turn, and accepts it when every one does.
    /// The shapes and the length of every probe are tested before any
    /// arithmetic; the first probe that rejects the claim ends the run.
    pub fn verify_all(
        verifiers: &Vec<Freivald>,
        matrix_a: &Matrix,
        matrix_b: &Matrix,
        supposed_ab: &Matrix,
    ) -> (r: Result<bool, VerifyError>)
        ensures
            r == rounds_outcome(probes_of(verifiers@), matrix_a@, matrix_b@, supposed_ab@),
    {
        let ghost xs = probes_of(verifiers@);
        if !check_matrix_dimensions(matrix_a, matrix_b, supposed_ab) {
            return Err(VerifyError::ShapeMismatch);
        }
        let cols = matrix_b.ncols();
        let mut k: usize = 0;
        while k < verifiers.len()
            invariant
                k <= verifiers.len(),
                xs == probes_of(verifiers@),
                shapes_compatible(matrix_a@, matrix_b@, supposed_ab@),
                cols == matrix_b@.cols,
                forall|j: int| 0 <= j < k ==> (#[trigger] xs[j]).len() == cols,
            decreases verifiers.len() - k,
        {
            if verifiers[k].dimension() != cols {
                assert(xs[k as int].len() != cols);
                return Err(VerifyError::ProbeMismatch);
            }
            k = k + 1;
        }
        k = 0;
        while k < verifiers.len()
            invariant
                k <= verifiers.len(),
                xs == probes_of(verifiers@),
                shapes_compatible(matrix_a@, matrix_b@, supposed_ab@),
                probes_fit(xs, matrix_b@.cols),
                forall|j: int|
                    0 <= j < k ==> accepts(#[trigger] xs[j], matrix_a@, matrix_b@, supposed_ab@),
            decreases verifiers.len() - k,
        {
            let accepted = verifiers[k].verify(matrix_a, matrix_b, supposed_ab);
            assert(accepted == verify_outcome(xs[k as int], matrix_a@, matrix_b@, supposed_ab@));
            match accepted {
                Ok(true) => {},
                _ => {
                    assert(xs[k as int].len() == matrix_b@.cols);
                    return accepted;
                },
            }
            k = k + 1;
        }
        Ok(true)
    }

    /// `rounds` checks, each against a fresh probe of its own, sized to the
    /// rows of `supposed_ab`, combined by `verify_all`: the claim is accepted
    /// when no check rejects it. Nothing is drawn where the shapes do not
    /// fit.
    pub fn verify_rounds(
        matrix_a: &Matrix,
        matrix_b: &Matrix,
        supposed_ab: &Matrix,
        rounds: usize,
    ) -> (r: Result<bool, VerifyError>)
        ensures
            trial_result(matrix_a@, matrix_b@, supposed_ab@, supposed_ab@.rows, r),
            rounds == 0 && r.is_ok() ==> r == Ok::<bool, VerifyError>(true),
            supposed_ab@.rows == matrix_b@.cols ==> exists|xs: Seq<Seq<nat>>|
                xs.len() == rounds && probes_fit(xs, supposed_ab@.rows) && probes_are_elements(xs)
                    && r == rounds_outcome(xs, matrix_a@, matrix_b@, supposed_ab@),
    {
        if !check_matrix_dimensions(matrix_a, matrix_b, supposed_ab) {
            proof {
                let none = Seq::new(rounds as nat, |k: int| Seq::new(supposed_ab@.rows, |i: int| 0nat));
                assert(probes_fit(none, supposed_ab@.rows));
                assert(probes_are_elements(none));
            }
            return Err(VerifyError::ShapeMismatch);
        }
        let size = supposed_ab.nrows();
        if size != matrix_b.ncols() {
            return Err(VerifyError::ProbeMismatch);
        }
        let mut verifiers: Vec<Freivald> = Vec::new();
        let mut drawn: usize = 0;
        while drawn < rounds
            invariant
                drawn <= rounds,
                verifiers@.len() == drawn,
                forall|j: int|
                    0 <= j < drawn ==> (#[trigger] verifiers@[j])@.len() == size && all_elements(
                        verifiers@[j]@,
                    ),
            decreases rounds - drawn,
        {
            verifiers.push(Freivald::new(size));
            drawn = drawn + 1;
        }
        let r = Freivald::verify_all(&verifiers, matrix_a, matrix_b, supposed_ab);
        proof {
            let xs = probes_of(verifiers@);
            assert(probes_fit(xs, supposed_ab@.rows));
            assert(probes_are_elements(xs));
            lemma_rounds(xs, matrix_a@, matrix_b@, supposed_ab@);
        }
        r
    }
}

/// A true product is accepted, whatever the probe: where `c` is the product
/// of `a` and `b` and the probe has one entry for each column of `c`, the
/// check says `Ok(true)`.
pub proof fn lemma_completeness(x: Seq<nat>, a: MatrixView, b: MatrixView, c: MatrixView)
    requires
        is_product(a, b, c),
        x.len() == c.cols,
    ensures
        verify_outcome(x, a, b, c) == Ok::<bool, VerifyError>(true),
{
    lemma_evaluation_order(a, b, c, x);
}

/// The check never rejects a true product: where it says `Ok(false)`, `c` is
/// not the product of `a` and `b`.
pub proof fn lemma_rejection_is_final(x: Seq<nat>, a: MatrixView, b: MatrixView, c: MatrixView)
    requires
        verify_outcome(x, a, b, c) == Ok::<bool, VerifyError>(false),
    ensures
        !is_product(a, b, c),
{
    if is_product(a, b, c) {
        lemma_completeness(x, a, b, c);
    }
}

/// The check compares `c * x` with what the true product gives on `x`: for
/// any `p` that is the product of `a` and `b`, the claim is accepted exactly
/// when `p * x == c * x`. A wrong `c` is thus accepted only for the probes on
/// which it cannot be told from `p`.
pub proof fn lemma_outcome_by_product(
    x: Seq<nat>,
    a: MatrixView,
    b: MatrixView,
    c: MatrixView,
    p: MatrixView,
)
    requires
        shapes_compatible(a, b, c),
        x.len() == c.cols,
        is_product(a, b, p),
    ensures
        verify_outcome(x, a, b, c) == Ok::<bool, VerifyError>(mat_vec(p, x) == mat_vec(c, x)),
{
    lemma_evaluation_order(a, b, p, x);
}

/// The outcome of a check is a function of the probe and the three matrices
/// alone: two checks by one verifier of one triple agree.
pub proof fn lemma_verify_deterministic(
    instance: Freivald,
    a: Matrix,
    b: Matrix,
    c: Matrix,
    first: Result<bool, VerifyError>,
    second: Result<bool, VerifyError>,
)
    requires
        first == verify_outcome(instance@, a@, b@, c@),
        second == verify_outcome(instance@, a@, b@, c@),
    ensures
        first == second,
{
}

/// Every outcome of a check against a probe of `x.len()` entries meets
/// `trial_result`.
pub proof fn lemma_trial(x: Seq<nat>, a: MatrixView, b: MatrixView, c: MatrixView)
    ensures
        trial_result(a, b, c, x.len(), verify_outcome(x, a, b, c)),
{
    if is_product(a, b, c) && x.len() == b.cols {
        lemma_completeness(x, a, b, c);
    }
}

/// Several checks relate to one as follows. An error of the shapes comes
/// exactly where one check gives it. Where the shapes fit and every probe has
/// the right length, the claim is accepted exactly when each probe accepts
/// it; so a true product is accepted, and with no probe every claim is.
pub proof fn lemma_rounds(xs: Seq<Seq<nat>>, a: MatrixView, b: MatrixView, c: MatrixView)
    requires
        probes_fit(xs, b.cols),
    ensures
        trial_result(a, b, c, b.cols, rounds_outcome(xs, a, b, c)),
        xs.len() == 0 && shapes_compatible(a, b, c) ==> rounds_outcome(xs, a, b, c) == Ok::<
            bool,
            VerifyError,
        >(true),
        rounds_outcome(xs, a, b, c) == Ok::<bool, VerifyError>(false) ==> exists|k: int|
            0 <= k < xs.len() && verify_outcome(#[trigger] xs[k], a, b, c) == Ok::<
                bool,
                VerifyError,
            >(false),
{
    if is_product(a, b, c) {
        assert forall|k: int| 0 <= k < xs.len() implies accepts(#[trigger] xs[k], a, b, c) by {
            lemma_completeness(xs[k], a, b, c);
        }
    }
    if rounds_outcome(xs, a, b, c) == Ok::<bool, VerifyError>(false) {
        let k = choose|k: int| 0 <= k < xs.len() && !accepts(#[trigger] xs[k], a, b, c);
        assert(xs[k].len() == b.cols);
    }
}

} // verus!
