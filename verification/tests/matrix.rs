use p1::matrix::{bm, det, mat_mul, mat_num_mul};

#[test]
fn bm_value() {
    let left = vec![20, 49, 24, 03, 08, 23, 60, 56, 17];
    let right = vec![51, 11, 01, 52, 39, 42, 07, 16, 14];
    let multiplier = 51;
    let result = bm(left, right, multiplier);
    assert_eq!(result, 65);
}

#[test]
fn mat_num_mul_wraps_each_element() {
    assert_eq!(mat_num_mul(vec![1, 2, 128, 255], 2), vec![2, 4, 0, 254]);
    assert_eq!(mat_num_mul(vec![20, 49], 51), vec![(20 * 51 % 256) as u8, (49 * 51 % 256) as u8]);
    assert_eq!(mat_num_mul(vec![], 7), Vec::<u8>::new());
}

#[test]
fn mat_mul_by_identity_is_unchanged() {
    let id = vec![1, 0, 0, 0, 1, 0, 0, 0, 1];
    let m = vec![20, 49, 24, 3, 8, 23, 60, 56, 17];
    assert_eq!(mat_mul(m.clone(), id.clone()), m);
    assert_eq!(mat_mul(id, m.clone()), m);
}

#[test]
fn mat_mul_wraps_sums() {
    let a = vec![200, 100, 0, 0, 0, 0, 0, 0, 0];
    let b = vec![2, 0, 0, 3, 0, 0, 0, 0, 0];
    // 200 * 2 + 100 * 3 = 700 = 2 * 256 + 188
    assert_eq!(mat_mul(a, b), vec![188, 0, 0, 0, 0, 0, 0, 0, 0]);
}

#[test]
fn det_formula_values() {
    // identity
    assert_eq!(det(vec![1, 0, 0, 0, 1, 0, 0, 0, 1]), 1);
    // m0(m4m8 - m5m7) - m1(m3m8 - m5m6) - m2(m3m7 - m4m6)
    // = 1*(5*9-6*8) - 2*(4*9-6*7) - 3*(4*8-5*7) = -3 + 12 + 9 = 18
    assert_eq!(det(vec![1, 2, 3, 4, 5, 6, 7, 8, 9]), 18);
    // the third term is subtracted: only m2, m3, m7 nonzero gives -m2*m3*m7
    assert_eq!(det(vec![0, 0, 1, 1, 0, 0, 0, 1, 0]), 255);
}

#[test]
fn scaling_laws() {
    let m = vec![20u8, 49, 24, 3, 8, 23, 60, 56, 17];
    assert_eq!(mat_num_mul(mat_num_mul(m.clone(), 51), 7), mat_num_mul(m.clone(), 51u8.wrapping_mul(7)));
    assert_eq!(mat_num_mul(m.clone(), 1), m);
    assert_eq!(mat_num_mul(m.clone(), 0), vec![0u8; 9]);
}

#[test]
fn product_is_associative_and_commutes_with_scaling() {
    let a = vec![20u8, 49, 24, 3, 8, 23, 60, 56, 17];
    let b = vec![51u8, 11, 1, 52, 39, 42, 7, 16, 14];
    let c = vec![200u8, 3, 77, 9, 250, 1, 33, 128, 5];
    assert_eq!(mat_mul(mat_mul(a.clone(), b.clone()), c.clone()), mat_mul(a.clone(), mat_mul(b.clone(), c.clone())));
    assert_eq!(mat_mul(mat_num_mul(a.clone(), 51), b.clone()), mat_num_mul(mat_mul(a.clone(), b.clone()), 51));
    assert_eq!(mat_mul(a.clone(), mat_num_mul(b.clone(), 51)), mat_num_mul(mat_mul(a.clone(), b.clone()), 51));
}

#[test]
fn det_is_cubic_in_the_scale() {
    let m = vec![20u8, 49, 24, 3, 8, 23, 60, 56, 17];
    for k in [0u8, 1, 2, 51, 255] {
        let want = ((k as u32 * k as u32 * k as u32) % 256 * det(m.clone()) as u32 % 256) as u8;
        assert_eq!(det(mat_num_mul(m.clone(), k)), want);
    }
}
