use freivald::{check_matrix_dimensions, mat_product, Freivald, Matrix, Vector, VerifyError};

// a = | 1 2 |   b = | 5 6 |   a * b = | 19 22 |
//     | 3 4 |       | 7 8 |           | 43 50 |
// Matrices are written column by column.
fn a() -> Matrix {
    Matrix::from_vec(2, 2, vec![1, 3, 2, 4]).unwrap()
}

fn b() -> Matrix {
    Matrix::from_vec(2, 2, vec![5, 7, 6, 8]).unwrap()
}

fn ab() -> Matrix {
    Matrix::from_vec(2, 2, vec![19, 43, 22, 50]).unwrap()
}

fn probe(entries: Vec<u64>) -> Freivald {
    Freivald::with_probe(Vector::from_vec(entries))
}

#[test]
fn from_vec_checks_the_length() {
    assert!(Matrix::from_vec(2, 2, vec![1, 2, 3]).is_none());
    assert!(Matrix::from_vec(2, 2, vec![1, 2, 3, 4, 5]).is_none());
    assert!(Matrix::from_vec(0, 3, vec![1]).is_none());
    assert!(Matrix::from_vec(usize::MAX, 2, vec![1, 2]).is_none());
    let m = Matrix::from_vec(3, 2, vec![1, 2, 3, 4, 5, 6]).unwrap();
    assert_eq!((m.nrows(), m.ncols()), (3, 2));
    let e = Matrix::from_vec(0, 3, vec![]).unwrap();
    assert_eq!((e.nrows(), e.ncols()), (0, 3));
}

#[test]
fn from_vec_reads_column_by_column() {
    let m = Matrix::from_vec(3, 2, vec![1, 2, 3, 4, 5, 6]).unwrap();
    let first = m.multiply_vector(&Vector::from_vec(vec![1, 0])).unwrap();
    let second = m.multiply_vector(&Vector::from_vec(vec![0, 1])).unwrap();
    assert!(first.equals(&Vector::from_vec(vec![1, 2, 3])));
    assert!(second.equals(&Vector::from_vec(vec![4, 5, 6])));
}

#[test]
fn multiply_vector_is_the_row_by_row_dot_product() {
    let y = a().multiply_vector(&Vector::from_vec(vec![10, 100])).unwrap();
    assert!(y.equals(&Vector::from_vec(vec![210, 430])));
    assert!(!y.equals(&Vector::from_vec(vec![10, 100])));
    assert!(!y.equals(&Vector::from_vec(vec![210, 430, 0])));
    assert!(a().multiply_vector(&Vector::from_vec(vec![1, 2, 3])).is_none());
    assert!(a().multiply_vector(&Vector::from_vec(vec![])).is_none());
}

#[test]
fn multiply_gives_the_product() {
    let p = a().multiply(&b()).unwrap();
    assert_eq!((p.nrows(), p.ncols()), (2, 2));
    for x in [vec![1u64, 0], vec![0, 1], vec![3, 5]] {
        let left = p.multiply_vector(&Vector::from_vec(x.clone())).unwrap();
        let right = ab().multiply_vector(&Vector::from_vec(x)).unwrap();
        assert!(left.equals(&right));
    }
    let first = p.multiply_vector(&Vector::from_vec(vec![1, 0])).unwrap();
    assert!(first.equals(&Vector::from_vec(vec![19, 43])));
    let second = p.multiply_vector(&Vector::from_vec(vec![0, 1])).unwrap();
    assert!(second.equals(&Vector::from_vec(vec![22, 50])));
}

#[test]
fn multiply_checks_the_inner_dimension() {
    let wide = Matrix::from_element(2, 3, 1);
    assert!(wide.multiply(&a()).is_none());
    let p = a().multiply(&wide).unwrap();
    assert_eq!((p.nrows(), p.ncols()), (2, 3));
    let column = p.multiply_vector(&Vector::from_vec(vec![0, 1, 0])).unwrap();
    assert!(column.equals(&Vector::from_vec(vec![3, 7])));
}

#[test]
fn mat_product_squares() {
    let sq = mat_product(&a());
    // a * a = | 7 10 |
    //         | 15 22 |
    let first = sq.multiply_vector(&Vector::from_vec(vec![1, 0])).unwrap();
    let second = sq.multiply_vector(&Vector::from_vec(vec![0, 1])).unwrap();
    assert!(first.equals(&Vector::from_vec(vec![7, 15])));
    assert!(second.equals(&Vector::from_vec(vec![10, 22])));
}

#[test]
fn true_product_is_accepted_by_every_probe() {
    for x in [vec![0u64, 0], vec![1, 0], vec![0, 1], vec![1, 1], vec![u64::MAX, 12345]] {
        assert_eq!(probe(x).verify(&a(), &b(), &ab()), Ok(true));
    }
    for _ in 0..50 {
        assert_eq!(Freivald::new(2).verify(&a(), &b(), &ab()), Ok(true));
    }
}

#[test]
fn wrong_product_is_accepted_only_on_probes_it_agrees_on() {
    // Differs from a * b in the second column only.
    let wrong = Matrix::from_vec(2, 2, vec![19, 43, 23, 50]).unwrap();
    assert!(check_matrix_dimensions(&a(), &b(), &wrong));
    assert_eq!(probe(vec![1, 0]).verify(&a(), &b(), &wrong), Ok(true));
    assert_eq!(probe(vec![7, 0]).verify(&a(), &b(), &wrong), Ok(true));
    assert_eq!(probe(vec![0, 0]).verify(&a(), &b(), &wrong), Ok(true));
    assert_eq!(probe(vec![0, 1]).verify(&a(), &b(), &wrong), Ok(false));
    assert_eq!(probe(vec![1, 1]).verify(&a(), &b(), &wrong), Ok(false));
    assert_eq!(probe(vec![7, 9]).verify(&a(), &b(), &wrong), Ok(false));
}

#[test]
fn wrong_product_is_rejected_by_fresh_probes() {
    let wrong = Matrix::from_vec(2, 2, vec![19, 43, 23, 50]).unwrap();
    for _ in 0..50 {
        assert_eq!(Freivald::new(2).verify(&a(), &b(), &wrong), Ok(false));
        assert_eq!(Freivald::verify_once(&a(), &b(), &wrong), Ok(false));
    }
    assert_eq!(Freivald::verify_rounds(&a(), &b(), &wrong, 10), Ok(false));
}

#[test]
fn order_of_the_factors_matters() {
    // b * a = | 23 34 |
    //         | 31 46 |
    let ba = Matrix::from_vec(2, 2, vec![23, 31, 34, 46]).unwrap();
    assert_eq!(probe(vec![1, 1]).verify(&b(), &a(), &ba), Ok(true));
    assert_eq!(probe(vec![1, 1]).verify(&a(), &b(), &ba), Ok(false));
}

#[test]
fn rectangular_product_is_checked() {
    // | 1 2 3 |   | 1 0 |   | 4 5 |
    // | 4 5 6 | * | 0 1 | = | 10 11 |
    //             | 1 1 |
    let left = Matrix::from_vec(2, 3, vec![1, 4, 2, 5, 3, 6]).unwrap();
    let right = Matrix::from_vec(3, 2, vec![1, 0, 1, 0, 1, 1]).unwrap();
    let claim = Matrix::from_vec(2, 2, vec![4, 10, 5, 11]).unwrap();
    assert_eq!(probe(vec![3, 8]).verify(&left, &right, &claim), Ok(true));
    assert_eq!(Freivald::verify_once(&left, &right, &claim), Ok(true));
    let wrong = Matrix::from_vec(2, 2, vec![4, 10, 5, 12]).unwrap();
    assert_eq!(probe(vec![3, 8]).verify(&left, &right, &wrong), Ok(false));
    assert_eq!(probe(vec![3]).verify(&left, &right, &claim), Err(VerifyError::ProbeMismatch));
}

#[test]
fn arithmetic_is_exact_beyond_the_machine_word() {
    // (2^64 - 1)^2 does not fit a word, and the field keeps it whole:
    // m * (m * x) must equal (m * m) * x for the 1 x 1 matrix m = (2^64 - 1).
    let m = Matrix::from_element(1, 1, u64::MAX);
    let sq = mat_product(&m);
    assert_eq!(probe(vec![1]).verify(&m, &m, &sq), Ok(true));
    assert_eq!(probe(vec![1]).verify(&m, &m, &m), Ok(false));
    // 2^32 * 2^32 = 2^64 = (2^64 - 1) + 1, told apart from 0 and from 2^64 - 1.
    let h = Matrix::from_element(1, 1, 1u64 << 32);
    let one = Matrix::from_element(1, 1, 1);
    let zero = Matrix::from_element(1, 1, 0);
    assert_eq!(probe(vec![1]).verify(&h, &h, &zero), Ok(false));
    assert_eq!(probe(vec![1]).verify(&h, &h, &m), Ok(false));
    let hh = mat_product(&h);
    assert_eq!(probe(vec![1]).verify(&hh, &one, &hh), Ok(true));
}

#[test]
fn evaluation_order_does_not_change_the_answer() {
    // What verify says is what comparing (a * b) * x with c * x says.
    let p = a().multiply(&b()).unwrap();
    let claims = [ab(), Matrix::from_vec(2, 2, vec![19, 43, 23, 50]).unwrap(), a(), b()];
    let probes = [vec![0u64, 0], vec![1, 0], vec![0, 1], vec![2, 3], vec![7, 0], vec![u64::MAX, 1]];
    for c in claims.iter() {
        for x in probes.iter() {
            let px = p.multiply_vector(&Vector::from_vec(x.clone())).unwrap();
            let cx = c.multiply_vector(&Vector::from_vec(x.clone())).unwrap();
            assert_eq!(probe(x.clone()).verify(&a(), &b(), c), Ok(px.equals(&cx)));
        }
    }
}

#[test]
fn one_coordinate_of_the_probe_decides() {
    // The claim is wrong in the second column. With the first coordinate of
    // the probe held fixed, one value of the second at most lets it pass.
    let wrong = Matrix::from_vec(2, 2, vec![19, 43, 23, 50]).unwrap();
    for first in [0u64, 1, 7, u64::MAX] {
        let mut accepted = 0;
        for second in 0u64..40 {
            if probe(vec![first, second]).verify(&a(), &b(), &wrong) == Ok(true) {
                accepted += 1;
                assert_eq!(second, 0);
            }
        }
        assert_eq!(accepted, 1);
    }
}

fn next(state: &mut u64) -> u64 {
    *state = state.wrapping_mul(6364136223846793005).wrapping_add(1442695040888963407);
    *state >> 32
}

fn words(value: u128) -> [u64; 6] {
    [value as u64, (value >> 64) as u64, 0, 0, 0, 0]
}

#[test]
fn every_entry_of_a_product_is_a_row_times_a_column() {
    let (rows, inner, cols) = (3usize, 4usize, 5usize);
    let mut state = 17u64;
    // Column by column: entry (i, k) of the left factor is left[k * rows + i].
    let left: Vec<u64> = (0..rows * inner).map(|_| next(&mut state)).collect();
    let right: Vec<u64> = (0..inner * cols).map(|_| next(&mut state)).collect();
    let x: Vec<u64> = (0..cols).map(|_| next(&mut state)).collect();
    let a = Matrix::from_vec(rows, inner, left.clone()).unwrap();
    let b = Matrix::from_vec(inner, cols, right.clone()).unwrap();

    let mut expected = Vec::new();
    for j in 0..cols {
        for i in 0..rows {
            let mut sum = 0u128;
            for k in 0..inner {
                sum += left[k * rows + i] as u128 * right[j * inner + k] as u128;
            }
            expected.push(words(sum));
        }
    }
    let p = a.multiply(&b).unwrap();
    assert_eq!((p.nrows(), p.ncols()), (rows, cols));
    assert_eq!(p.to_limbs(), expected);

    let mut bx = Vec::new();
    for k in 0..inner {
        let mut sum = 0u128;
        for j in 0..cols {
            sum += right[j * inner + k] as u128 * x[j] as u128;
        }
        bx.push(words(sum));
    }
    let got = b.multiply_vector(&Vector::from_vec(x.clone())).unwrap();
    assert_eq!(got.to_limbs(), bx);

    let c = Matrix::from_limbs(rows, cols, expected.clone()).unwrap();
    assert_eq!(probe(x.clone()).verify(&a, &b, &c), Ok(true));
    for wrong_at in 0..rows * cols {
        let mut data = expected.clone();
        data[wrong_at][0] ^= 1;
        let wrong = Matrix::from_limbs(rows, cols, data).unwrap();
        let ones = vec![1u64; cols];
        assert_eq!(probe(ones).verify(&a, &b, &wrong), Ok(false));
        assert_eq!(Freivald::new(cols).verify(&a, &b, &wrong), Ok(false));
    }
}

fn probes(list: Vec<Vec<u64>>) -> Vec<Freivald> {
    list.into_iter().map(probe).collect()
}

#[test]
fn all_probes_must_accept() {
    let wrong = Matrix::from_vec(2, 2, vec![19, 43, 23, 50]).unwrap();
    // [1, 0] and [7, 0] accept the wrong claim; [0, 1] and [1, 1] reject it.
    assert_eq!(Freivald::verify_all(&probes(vec![vec![1, 0], vec![7, 0]]), &a(), &b(), &wrong), Ok(true));
    assert_eq!(Freivald::verify_all(&probes(vec![vec![1, 0], vec![0, 1]]), &a(), &b(), &wrong), Ok(false));
    assert_eq!(Freivald::verify_all(&probes(vec![vec![0, 1], vec![1, 0]]), &a(), &b(), &wrong), Ok(false));
    assert_eq!(
        Freivald::verify_all(&probes(vec![vec![1, 0], vec![7, 0], vec![1, 1]]), &a(), &b(), &wrong),
        Ok(false)
    );
    assert_eq!(Freivald::verify_all(&probes(vec![vec![0, 1]]), &a(), &b(), &wrong), Ok(false));
    assert_eq!(Freivald::verify_all(&probes(vec![vec![1, 0]]), &a(), &b(), &wrong), Ok(true));
}

#[test]
fn no_probe_accepts_every_claim_of_fitting_shape() {
    let wrong = Matrix::from_vec(2, 2, vec![19, 43, 23, 50]).unwrap();
    assert_eq!(Freivald::verify_all(&probes(vec![]), &a(), &b(), &wrong), Ok(true));
    assert_eq!(Freivald::verify_all(&probes(vec![]), &a(), &b(), &ab()), Ok(true));
}

#[test]
fn true_product_is_accepted_by_all_probes() {
    let list = probes(vec![vec![0, 0], vec![1, 0], vec![0, 1], vec![3, 4], vec![u64::MAX, 9]]);
    assert_eq!(Freivald::verify_all(&list, &a(), &b(), &ab()), Ok(true));
    let fresh: Vec<Freivald> = (0..6).map(|_| Freivald::new(2)).collect();
    assert_eq!(Freivald::verify_all(&fresh, &a(), &b(), &ab()), Ok(true));
}

#[test]
fn one_probe_of_the_wrong_length_is_an_error_wherever_it_stands() {
    let wrong = Matrix::from_vec(2, 2, vec![19, 43, 23, 50]).unwrap();
    // The second probe rejects the claim, the third does not fit: the error comes first.
    let list = probes(vec![vec![1, 0], vec![0, 1], vec![1, 0, 0]]);
    assert_eq!(Freivald::verify_all(&list, &a(), &b(), &wrong), Err(VerifyError::ProbeMismatch));
    let list = probes(vec![vec![], vec![1, 0]]);
    assert_eq!(Freivald::verify_all(&list, &a(), &b(), &ab()), Err(VerifyError::ProbeMismatch));
    let list = probes(vec![vec![1, 0], vec![5]]);
    assert_eq!(Freivald::verify_all(&list, &a(), &b(), &ab()), Err(VerifyError::ProbeMismatch));
}

#[test]
fn shapes_are_tested_before_the_probes() {
    let wide = Matrix::from_element(2, 3, 1);
    for list in [vec![], vec![vec![1, 0]], vec![vec![1, 0, 0]], vec![vec![1]]] {
        assert_eq!(
            Freivald::verify_all(&probes(list), &a(), &wide, &ab()),
            Err(VerifyError::ShapeMismatch)
        );
    }
}

#[test]
fn rounds_agree_with_single_checks() {
    let wrong = Matrix::from_vec(2, 2, vec![19, 43, 23, 50]).unwrap();
    for rounds in 1..6 {
        assert_eq!(Freivald::verify_rounds(&a(), &b(), &ab(), rounds), Ok(true));
        assert_eq!(Freivald::verify_rounds(&a(), &b(), &wrong, rounds), Ok(false));
    }
    assert_eq!(Freivald::verify_rounds(&a(), &b(), &wrong, 0), Ok(true));
}
