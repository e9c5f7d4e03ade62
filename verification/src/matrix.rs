//! Matrices and vectors of field elements, stored by `nalgebra` over the
//! field arithmetic of `ark_bls12_381`.
//!
//! Both types keep the outside value in a private field that Verus does not
//! look into. What a value holds is spoken of through
//! `matrix_rows`, `matrix_cols`, `matrix_entries` and `vector_entries`, and
//! every statement about them is made by one of the private functions below
//! that call into the two crates. Those statements are taken on trust; all
//! else in the crate is proved from them.

use crate::algebra::{
    constant, lemma_mat_vec_elements, lemma_product_is_product, mat_vec, product, MatrixView,
};
use crate::field::{
    all_canonical, all_elements, are_canonical, embed, is_element, lemma_canonical_values,
    limb_values, limbs_of, limbs_value, widen, Limbs,
};
use ark_bls12_381::Fq;
use ark_ff::{BigInt, PrimeField};
use nalgebra::{DMatrix, DVector};
use rand::Rng;
use vstd::prelude::*;

verus! {

/// A dense matrix over the field, with a number of rows and of columns that
/// are fixed when it is made.
#[verifier::external_body]
pub struct Matrix {
    inner: DMatrix<Fq>,
}

/// A column vector over the field.
#[verifier::external_body]
pub struct Vector {
    inner: DVector<Fq>,
}

/// The number of rows of the stored `DMatrix`.
pub uninterp spec fn matrix_rows(m: Matrix) -> nat;

/// The number of columns of the stored `DMatrix`.
pub uninterp spec fn matrix_cols(m: Matrix) -> nat;

/// The entries of the stored `DMatrix` in its own (column-major) order, each
/// as the integer in `0..p` that the field element stands for.
pub uninterp spec fn matrix_entries(m: Matrix) -> Seq<nat>;

/// The entries of the stored `DVector` from first to last, each as the
/// integer in `0..p` that the field element stands for.
pub uninterp spec fn vector_entries(v: Vector) -> Seq<nat>;

impl View for Matrix {
    type V = MatrixView;

    open spec fn view(&self) -> MatrixView {
        MatrixView {
            rows: matrix_rows(*self),
            cols: matrix_cols(*self),
            data: matrix_entries(*self),
        }
    }
}

impl View for Vector {
    type V = Seq<nat>;

    open spec fn view(&self) -> Seq<nat> {
        vector_entries(*self)
    }
}

/// Calls `DMatrix::from_iterator` on the field elements that
/// `Fq::from_bigint` makes of `data`. Trusted: the result has the given shape
/// and holds them in the order given, which is column by column; the
/// representative of each is the integer of its six words.
#[verifier::external_body]
pub(crate) fn dmatrix_from_limbs(nrows: usize, ncols: usize, data: Vec<Limbs>) -> (r: Matrix)
    requires
        data@.len() == nrows * ncols,
        all_canonical(data@),
    ensures
        matrix_rows(r) == nrows,
        matrix_cols(r) == ncols,
        matrix_entries(r) == limb_values(data@),
{
    let elements = data.into_iter().map(|l| Fq::from_bigint(BigInt::new(l)).unwrap());
    Matrix { inner: DMatrix::from_iterator(nrows, ncols, elements) }
}

/// Calls `DVector::from_iterator` on the field elements that
/// `Fq::from_bigint` makes of `data`. Trusted: the result holds them in the
/// order given; the representative of each is the integer of its six words.
#[verifier::external_body]
pub(crate) fn dvector_from_limbs(data: Vec<Limbs>) -> (r: Vector)
    requires
        all_canonical(data@),
    ensures
        vector_entries(r) == limb_values(data@),
{
    let elements = data.iter().map(|l| Fq::from_bigint(BigInt::new(*l)).unwrap());
    Vector { inner: DVector::from_iterator(data.len(), elements) }
}

/// Calls `Fq::into_bigint` on each entry of the stored `DMatrix`, in its own
/// (column-major) order. Trusted: the six words of each entry hold its
/// representative, which is below the modulus.
#[verifier::external_body]
pub(crate) fn dmatrix_to_limbs(m: &Matrix) -> (r: Vec<Limbs>)
    ensures
        limb_values(r@) == matrix_entries(*m),
        all_canonical(r@),
{
    m.inner.iter().map(|e| e.into_bigint().0).collect()
}

/// Calls `Fq::into_bigint` on each entry of the stored `DVector`, from first
/// to last. Trusted: the six words of each entry hold its representative,
/// which is below the modulus.
#[verifier::external_body]
pub(crate) fn dvector_to_limbs(v: &Vector) -> (r: Vec<Limbs>)
    ensures
        limb_values(r@) == vector_entries(*v),
        all_canonical(r@),
{
    v.inner.iter().map(|e| e.into_bigint().0).collect()
}

/// Calls `Rng::gen` on the thread's random generator for one `Fq`, and
/// `Fq::into_bigint` on what it gives. Trusted: the six words hold an integer
/// below the modulus. Nothing more is said of the value: two calls may
/// differ. The generator panics where the system gives it no entropy; no
/// argument decides that.
#[verifier::external_body]
pub(crate) fn random_element() -> (r: Limbs)
    ensures
        is_element(limbs_value(r)),
{
    rand::thread_rng().gen::<Fq>().into_bigint().0
}

/// Calls `Matrix::shape`. Trusted: it returns the numbers of rows and of
/// columns.
#[verifier::external_body]
pub(crate) fn dmatrix_shape(m: &Matrix) -> (r: (usize, usize))
    ensures
        r.0 == matrix_rows(*m),
        r.1 == matrix_cols(*m),
{
    m.inner.shape()
}

/// Calls `Matrix::len` on a vector. Trusted: it returns the number of
/// entries.
#[verifier::external_body]
pub(crate) fn dvector_len(v: &Vector) -> (r: usize)
    ensures
        r == vector_entries(*v).len(),
{
    v.inner.len()
}

/// Calls `*` on a `DMatrix` and a `DVector`. Trusted: entry `i` of the result
/// is the sum over `j` of `m[i][j] * x[j]`, computed in the field.
#[verifier::external_body]
pub(crate) fn dmatrix_mul_vector(m: &Matrix, x: &Vector) -> (r: Vector)
    requires
        matrix_cols(*m) == vector_entries(*x).len(),
    ensures
        vector_entries(r) == mat_vec(m@, vector_entries(*x)),
{
    Vector { inner: &m.inner * &x.inner }
}

/// Calls `*` on two `DMatrix` values. Trusted: the result has the rows of
/// `a` and the columns of `b`, and its entry in row `i` and column `j` is the
/// sum over `k` of `a[i][k] * b[k][j]`, computed in the field.
#[verifier::external_body]
pub(crate) fn dmatrix_mul(a: &Matrix, b: &Matrix) -> (r: Matrix)
    requires
        matrix_cols(*a) == matrix_rows(*b),
        matrix_rows(*a) * matrix_cols(*b) <= usize::MAX,
    ensures
        matrix_rows(r) == matrix_rows(*a),
        matrix_cols(r) == matrix_cols(*b),
        matrix_entries(r) == product(a@, b@).data,
{
    Matrix { inner: &a.inner * &b.inner }
}

/// Calls `==` on two `DVector` values. Trusted: they are equal exactly when
/// they have the same length and the same field element at each position.
#[verifier::external_body]
pub(crate) fn dvector_eq(a: &Vector, b: &Vector) -> (r: bool)
    ensures
        r == (vector_entries(*a) == vector_entries(*b)),
{
    a.inner == b.inner
}

impl Matrix {
    /// The value is valid: there is one entry for each position, their
    /// number fits the machine, and each is a field element.
    pub open spec fn wf(&self) -> bool {
        &&& self@.well_formed()
        &&& self@.rows * self@.cols <= usize::MAX
        &&& all_elements(self@.data)
    }

    /// The matrix with `nrows` rows and `ncols` columns that holds `value` at
    /// every position.
    pub fn from_element(nrows: usize, ncols: usize, value: u64) -> (r: Matrix)
        requires
            nrows * ncols <= usize::MAX,
        ensures
            r.wf(),
            r@.rows == nrows,
            r@.cols == ncols,
            r@.data == constant((nrows * ncols) as nat, value as nat),
    {
        let words = limbs_of(value);
        let len = nrows * ncols;
        let mut data: Vec<Limbs> = Vec::new();
        let mut k: usize = 0;
        while k < len
            invariant
                k <= len,
                data@.len() == k,
                is_element(limbs_value(words)),
                forall|j: int| 0 <= j < k ==> data@[j] == words,
            decreases len - k,
        {
            data.push(words);
            k = k + 1;
        }
        proof {
            assert(limb_values(data@) =~= constant(len as nat, value as nat));
            lemma_canonical_values(data@);
        }
        dmatrix_from_limbs(nrows, ncols, data)
    }

    /// The matrix with `nrows` rows and `ncols` columns whose entries are
    /// those of `data`, listed column by column; `None` when `data` does not
    /// hold exactly `nrows * ncols` values.
    pub fn from_vec(nrows: usize, ncols: usize, data: Vec<u64>) -> (r: Option<Matrix>)
        ensures
            r.is_some() <==> data@.len() == nrows * ncols,
            r matches Some(m) ==> {
                &&& m.wf()
                &&& m@.rows == nrows
                &&& m@.cols == ncols
                &&& m@.data == embed(data@)
            },
    {
        Matrix::from_limbs(nrows, ncols, widen(&data))
    }

    /// The matrix with `nrows` rows and `ncols` columns whose entries are
    /// the field elements that `data` lists column by column, each as an
    /// integer below the modulus; `None` when `data` does not hold exactly
    /// `nrows * ncols` values, or holds one that is not below the modulus.
    pub fn from_limbs(nrows: usize, ncols: usize, data: Vec<Limbs>) -> (r: Option<Matrix>)
        ensures
            r.is_some() <==> data@.len() == nrows * ncols && all_canonical(data@),
            r matches Some(m) ==> {
                &&& m.wf()
                &&& m@.rows == nrows
                &&& m@.cols == ncols
                &&& m@.data == limb_values(data@)
            },
    {
        let given = data.len();
        match nrows.checked_mul(ncols) {
            Some(len) => {
                if given == len && are_canonical(&data) {
                    proof {
                        lemma_canonical_values(data@);
                    }
                    Some(dmatrix_from_limbs(nrows, ncols, data))
                } else {
                    None
                }
            },
            None => None,
        }
    }

    /// The entries column by column, each as the integer below the modulus
    /// that it stands for.
    pub fn to_limbs(&self) -> (r: Vec<Limbs>)
        ensures
            limb_values(r@) == self@.data,
            all_canonical(r@),
    {
        dmatrix_to_limbs(self)
    }

    /// The number of rows.
    pub fn nrows(&self) -> (r: usize)
        ensures
            r == self@.rows,
    {
        dmatrix_shape(self).0
    }

    /// The number of columns.
    pub fn ncols(&self) -> (r: usize)
        ensures
            r == self@.cols,
    {
        dmatrix_shape(self).1
    }

    /// The product `self * x`, or `None` when `x` does not hold one entry for
    /// each column of `self`.
    pub fn multiply_vector(&self, x: &Vector) -> (r: Option<Vector>)
        ensures
            r.is_some() <==> self@.cols == x@.len(),
            r matches Some(y) ==> y.wf() && y@ == mat_vec(self@, x@),
    {
        if self.ncols() == x.len() {
            proof {
                lemma_mat_vec_elements(self@, x@);
            }
            Some(dmatrix_mul_vector(self, x))
        } else {
            None
        }
    }

    /// The product `self * rhs`, or `None` when `rhs` does not have one row
    /// for each column of `self`, or when the product would have more entries
    /// than the machine can count.
    pub fn multiply(&self, rhs: &Matrix) -> (r: Option<Matrix>)
        ensures
            r.is_some() <==> self@.cols == rhs@.rows && self@.rows * rhs@.cols <= usize::MAX,
            r matches Some(m) ==> m.wf() && m@ == product(self@, rhs@),
    {
        if self.ncols() != rhs.nrows() {
            return None;
        }
        match self.nrows().checked_mul(rhs.ncols()) {
            Some(_) => {
                proof {
                    lemma_product_is_product(self@, rhs@);
                }
                Some(dmatrix_mul(self, rhs))
            },
            None => None,
        }
    }
}

/// The square of a square matrix: `matrix * matrix`.
pub fn mat_product(matrix: &Matrix) -> (r: Matrix)
    requires
        matrix.wf(),
        matrix@.rows == matrix@.cols,
    ensures
        r.wf(),
        r@ == product(matrix@, matrix@),
{
    proof {
        lemma_product_is_product(matrix@, matrix@);
    }
    dmatrix_mul(matrix, matrix)
}

impl Vector {
    /// The value is valid: each entry is a field element.
    pub open spec fn wf(&self) -> bool {
        all_elements(self@)
    }

    /// The vector whose entries are those of `data`.
    pub fn from_vec(data: Vec<u64>) -> (r: Vector)
        ensures
            r.wf(),
            r@ == embed(data@),
    {
        let wide = widen(&data);
        proof {
            lemma_canonical_values(wide@);
        }
        dvector_from_limbs(wide)
    }

    /// The vector whose entries are the field elements that `data` lists,
    /// each as an integer below the modulus; `None` when `data` holds a value
    /// that is not below the modulus.
    pub fn from_limbs(data: Vec<Limbs>) -> (r: Option<Vector>)
        ensures
            r.is_some() <==> all_canonical(data@),
            r matches Some(v) ==> v.wf() && v@ == limb_values(data@),
    {
        if are_canonical(&data) {
            proof {
                lemma_canonical_values(data@);
            }
            Some(dvector_from_limbs(data))
        } else {
            None
        }
    }

    /// The entries from first to last, each as the integer below the modulus
    /// that it stands for.
    pub fn to_limbs(&self) -> (r: Vec<Limbs>)
        ensures
            limb_values(r@) == self@,
            all_canonical(r@),
    {
        dvector_to_limbs(self)
    }

    /// A vector of `len` entries, each drawn uniformly from the field and
    /// independently of every other draw.
    pub fn random(len: usize) -> (r: Vector)
        ensures
            r.wf(),
            r@.len() == len,
    {
        let mut data: Vec<Limbs> = Vec::new();
        let mut k: usize = 0;
        while k < len
            invariant
                k <= len,
                data@.len() == k,
                all_canonical(data@),
            decreases len - k,
        {
            data.push(random_element());
            k = k + 1;
        }
        proof {
            lemma_canonical_values(data@);
        }
        dvector_from_limbs(data)
    }

    /// The number of entries.
    pub fn len(&self) -> (r: usize)
        ensures
            r == self@.len(),
    {
        dvector_len(self)
    }

    /// Whether `self` and `other` hold the same field elements.
    pub fn equals(&self, other: &Vector) -> (r: bool)
        ensures
            r == (self@ == other@),
    {
        dvector_eq(self, other)
    }
}

} // verus!
