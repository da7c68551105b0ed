use vstd::prelude::*;

use vstd::arithmetic::div_mod::{lemma_add_mod_noop, lemma_mul_mod_noop_general, lemma_sub_mod_noop};

use crate::matrix::{det_value, product, row_times_column, scaled, wrap};

verus! {

/// `a` and `b` leave the same remainder modulo 256.
pub open spec fn same_mod(a: int, b: int) -> bool {
    a % 256 == b % 256
}

proof fn lemma_same_mod_add(a: int, b: int, c: int, d: int)
    requires
        same_mod(a, b),
        same_mod(c, d),
    ensures
        same_mod(a + c, b + d),
{
    lemma_add_mod_noop(a, c, 256);
    lemma_add_mod_noop(b, d, 256);
}

proof fn lemma_same_mod_sub(a: int, b: int, c: int, d: int)
    requires
        same_mod(a, b),
        same_mod(c, d),
    ensures
        same_mod(a - c, b - d),
{
    lemma_sub_mod_noop(a, c, 256);
    lemma_sub_mod_noop(b, d, 256);
}

proof fn lemma_same_mod_mul(a: int, b: int, c: int, d: int)
    requires
        same_mod(a, b),
        same_mod(c, d),
    ensures
        same_mod(a * c, b * d),
{
    lemma_mul_mod_noop_general(a, c, 256);
    lemma_mul_mod_noop_general(b, d, 256);
}

proof fn lemma_same_mod_reduce(a: int)
    ensures
        same_mod(a % 256, a),
        wrap(a) as int == a % 256,
{
    assert((a % 256) % 256 == a % 256) by (nonlinear_arith);
}

proof fn lemma_same_mod_wrap(a: int, b: int)
    requires
        same_mod(a, b),
    ensures
        wrap(a) == wrap(b),
{
}

/// The cofactor polynomial behind `det_value`, over integers.
pub open spec fn det_poly(m0: int, m1: int, m2: int, m3: int, m4: int, m5: int, m6: int, m7: int, m8: int) -> int {
    m0 * (m4 * m8 - m5 * m7) - m1 * (m3 * m8 - m5 * m6) - m2 * (m3 * m7 - m4 * m6)
}

proof fn lemma_det_poly_same_mod(x: Seq<int>, y: Seq<int>)
    requires
        x.len() == 9,
        y.len() == 9,
        forall|i: int| 0 <= i < 9 ==> same_mod(#[trigger] x[i], y[i]),
    ensures
        same_mod(
            det_poly(x[0], x[1], x[2], x[3], x[4], x[5], x[6], x[7], x[8]),
            det_poly(y[0], y[1], y[2], y[3], y[4], y[5], y[6], y[7], y[8]),
        ),
{
    assert(same_mod(x[0], y[0]) && same_mod(x[1], y[1]) && same_mod(x[2], y[2]));
    assert(same_mod(x[3], y[3]) && same_mod(x[4], y[4]) && same_mod(x[5], y[5]));
    assert(same_mod(x[6], y[6]) && same_mod(x[7], y[7]) && same_mod(x[8], y[8]));
    lemma_same_mod_mul(x[4], y[4], x[8], y[8]);
    lemma_same_mod_mul(x[5], y[5], x[7], y[7]);
    lemma_same_mod_sub(x[4] * x[8], y[4] * y[8], x[5] * x[7], y[5] * y[7]);
    lemma_same_mod_mul(x[0], y[0], x[4] * x[8] - x[5] * x[7], y[4] * y[8] - y[5] * y[7]);
    lemma_same_mod_mul(x[3], y[3], x[8], y[8]);
    lemma_same_mod_mul(x[5], y[5], x[6], y[6]);
    lemma_same_mod_sub(x[3] * x[8], y[3] * y[8], x[5] * x[6], y[5] * y[6]);
    lemma_same_mod_mul(x[1], y[1], x[3] * x[8] - x[5] * x[6], y[3] * y[8] - y[5] * y[6]);
    lemma_same_mod_mul(x[3], y[3], x[7], y[7]);
    lemma_same_mod_mul(x[4], y[4], x[6], y[6]);
    lemma_same_mod_sub(x[3] * x[7], y[3] * y[7], x[4] * x[6], y[4] * y[6]);
    lemma_same_mod_mul(x[2], y[2], x[3] * x[7] - x[4] * x[6], y[3] * y[7] - y[4] * y[6]);
    let px = x[0] * (x[4] * x[8] - x[5] * x[7]);
    let py = y[0] * (y[4] * y[8] - y[5] * y[7]);
    let qx = x[1] * (x[3] * x[8] - x[5] * x[6]);
    let qy = y[1] * (y[3] * y[8] - y[5] * y[6]);
    let rx = x[2] * (x[3] * x[7] - x[4] * x[6]);
    let ry = y[2] * (y[3] * y[7] - y[4] * y[6]);
    lemma_same_mod_sub(px, py, qx, qy);
    lemma_same_mod_sub(px - qx, py - qy, rx, ry);
}

proof fn lemma_dist3_right(p: int, q: int, r: int, c: int)
    ensures
        (p + q + r) * c == p * c + q * c + r * c,
{
    assert((p + q + r) * c == p * c + q * c + r * c) by (nonlinear_arith);
}

proof fn lemma_dist3_left(x: int, p: int, q: int, r: int)
    ensures
        x * (p + q + r) == x * p + x * q + x * r,
{
    assert(x * (p + q + r) == x * p + x * q + x * r) by (nonlinear_arith);
}

proof fn lemma_assoc(x: int, y: int, z: int)
    ensures
        (x * y) * z == x * (y * z),
{
    assert((x * y) * z == x * (y * z)) by (nonlinear_arith);
}

proof fn lemma_swap_factor(x: int, y: int, k: int)
    ensures
        (x * k) * y == (x * y) * k,
        x * (y * k) == (x * y) * k,
{
    assert((x * k) * y == (x * y) * k) by (nonlinear_arith);
    assert(x * (y * k) == (x * y) * k) by (nonlinear_arith);
}

proof fn lemma_cofactor_term_scaled(k: int, a: int, b: int, c: int, d: int, e: int)
    ensures
        (a * k) * ((b * k) * (c * k) - (d * k) * (e * k)) == k * k * k * (a * (b * c - d * e)),
{
    assert((b * k) * (c * k) == (b * c) * (k * k)) by (nonlinear_arith);
    assert((d * k) * (e * k) == (d * e) * (k * k)) by (nonlinear_arith);
    assert((b * c) * (k * k) - (d * e) * (k * k) == (b * c - d * e) * (k * k)) by (nonlinear_arith);
    assert((a * k) * ((b * c - d * e) * (k * k)) == k * k * k * (a * (b * c - d * e))) by (nonlinear_arith);
}

proof fn lemma_cube_sub3(k: int, t1: int, t2: int, t3: int)
    ensures
        k * k * k * t1 - k * k * k * t2 - k * k * k * t3 == k * k * k * (t1 - t2 - t3),
{
    assert(k * k * k * t1 - k * k * k * t2 - k * k * k * t3 == k * k * k * (t1 - t2 - t3)) by (nonlinear_arith);
}

/// The entries of a byte sequence as integers.
pub open spec fn ints(m: Seq<u8>) -> Seq<int> {
    Seq::new(m.len(), |i: int| m[i] as int)
}

/// `det_value` is the cofactor polynomial of the entries, modulo 256.
pub proof fn lemma_det_value_poly(m: Seq<u8>)
    requires
        m.len() == 9,
    ensures
        det_value(m) == wrap(det_poly(m[0] as int, m[1] as int, m[2] as int, m[3] as int, m[4] as int, m[5] as int, m[6] as int, m[7] as int, m[8] as int)),
{
}

/// Scaling twice is scaling once by the product of the factors.
pub proof fn lemma_scaled_twice(m: Seq<u8>, a: u8, b: u8)
    ensures
        scaled(scaled(m, a), b) == scaled(m, wrap(a * b)),
{
    assert forall|i: int| 0 <= i < m.len() implies #[trigger] scaled(scaled(m, a), b)[i] == scaled(m, wrap(a * b))[i] by {
        let x: int = m[i] as int;
        lemma_same_mod_reduce(x * a);
        lemma_same_mod_reduce(a * b);
        lemma_same_mod_mul(wrap(x * a) as int, x * a, b as int, b as int);
        lemma_same_mod_mul(x, x, wrap(a * b) as int, a * b);
        assert((x * a) * b == x * (a * b)) by (nonlinear_arith);
    }
    assert(scaled(scaled(m, a), b) =~= scaled(m, wrap(a * b)));
}

/// Scaling by 1 changes nothing.
pub proof fn lemma_scaled_one(m: Seq<u8>)
    ensures
        scaled(m, 1) == m,
{
    assert(scaled(m, 1) =~= m);
}

/// Scaling by 0 clears every element.
pub proof fn lemma_scaled_zero(m: Seq<u8>)
    ensures
        scaled(m, 0) == Seq::new(m.len(), |i: int| 0u8),
{
    assert(scaled(m, 0) =~= Seq::new(m.len(), |i: int| 0u8));
}

/// The 3x3 identity matrix, row by row.
pub open spec fn identity() -> Seq<u8> {
    seq![1u8, 0, 0, 0, 1, 0, 0, 0, 1]
}

/// The identity matrix is neutral on both sides of the product.
pub proof fn lemma_product_identity(m: Seq<u8>)
    requires
        m.len() == 9,
    ensures
        product(identity(), m) == m,
        product(m, identity()) == m,
{
    let id = identity();
    assert(id[0] == 1 && id[1] == 0 && id[2] == 0 && id[3] == 0 && id[4] == 1 && id[5] == 0 && id[6] == 0 && id[7] == 0 && id[8] == 1);
    assert forall|n: int| 0 <= n < 9 implies #[trigger] product(id, m)[n] == m[n] && product(m, id)[n] == m[n] by {
        let i = n / 3;
        let j = n % 3;
        if n == 0 {
            assert(i == 0 && j == 0);
            assert(id[0] * m[0] == m[0] as int);
            assert(id[1] * m[3] == 0);
            assert(id[2] * m[6] == 0);
            assert(row_times_column(id, m, 0, 0) == m[0] as int);
            assert(m[0] * id[0] == m[0] as int);
            assert(m[1] * id[3] == 0);
            assert(m[2] * id[6] == 0);
            assert(row_times_column(m, id, 0, 0) == m[0] as int);
        } else if n == 1 {
            assert(i == 0 && j == 1);
            assert(id[0] * m[1] == m[1] as int);
            assert(id[1] * m[4] == 0);
            assert(id[2] * m[7] == 0);
            assert(row_times_column(id, m, 0, 1) == m[1] as int);
            assert(m[0] * id[1] == 0);
            assert(m[1] * id[4] == m[1] as int);
            assert(m[2] * id[7] == 0);
            assert(row_times_column(m, id, 0, 1) == m[1] as int);
        } else if n == 2 {
            assert(i == 0 && j == 2);
            assert(id[0] * m[2] == m[2] as int);
            assert(id[1] * m[5] == 0);
            assert(id[2] * m[8] == 0);
            assert(row_times_column(id, m, 0, 2) == m[2] as int);
            assert(m[0] * id[2] == 0);
            assert(m[1] * id[5] == 0);
            assert(m[2] * id[8] == m[2] as int);
            assert(row_times_column(m, id, 0, 2) == m[2] as int);
        } else if n == 3 {
            assert(i == 1 && j == 0);
            assert(id[3] * m[0] == 0);
            assert(id[4] * m[3] == m[3] as int);
            assert(id[5] * m[6] == 0);
            assert(row_times_column(id, m, 1, 0) == m[3] as int);
            assert(m[3] * id[0] == m[3] as int);
            assert(m[4] * id[3] == 0);
            assert(m[5] * id[6] == 0);
            assert(row_times_column(m, id, 1, 0) == m[3] as int);
        } else if n == 4 {
            assert(i == 1 && j == 1);
            assert(id[3] * m[1] == 0);
            assert(id[4] * m[4] == m[4] as int);
            assert(id[5] * m[7] == 0);
            assert(row_times_column(id, m, 1, 1) == m[4] as int);
            assert(m[3] * id[1] == 0);
            assert(m[4] * id[4] == m[4] as int);
            assert(m[5] * id[7] == 0);
            assert(row_times_column(m, id, 1, 1) == m[4] as int);
        } else if n == 5 {
            assert(i == 1 && j == 2);
            assert(id[3] * m[2] == 0);
            assert(id[4] * m[5] == m[5] as int);
            assert(id[5] * m[8] == 0);
            assert(row_times_column(id, m, 1, 2) == m[5] as int);
            assert(m[3] * id[2] == 0);
            assert(m[4] * id[5] == 0);
            assert(m[5] * id[8] == m[5] as int);
            assert(row_times_column(m, id, 1, 2) == m[5] as int);
        } else if n == 6 {
            assert(i == 2 && j == 0);
            assert(id[6] * m[0] == 0);
            assert(id[7] * m[3] == 0);
            assert(id[8] * m[6] == m[6] as int);
            assert(row_times_column(id, m, 2, 0) == m[6] as int);
            assert(m[6] * id[0] == m[6] as int);
            assert(m[7] * id[3] == 0);
            assert(m[8] * id[6] == 0);
            assert(row_times_column(m, id, 2, 0) == m[6] as int);
        } else if n == 7 {
            assert(i == 2 && j == 1);
            assert(id[6] * m[1] == 0);
            assert(id[7] * m[4] == 0);
            assert(id[8] * m[7] == m[7] as int);
            assert(row_times_column(id, m, 2, 1) == m[7] as int);
            assert(m[6] * id[1] == 0);
            assert(m[7] * id[4] == m[7] as int);
            assert(m[8] * id[7] == 0);
            assert(row_times_column(m, id, 2, 1) == m[7] as int);
        } else {
            assert(i == 2 && j == 2);
            assert(id[6] * m[2] == 0);
            assert(id[7] * m[5] == 0);
            assert(id[8] * m[8] == m[8] as int);
            assert(row_times_column(id, m, 2, 2) == m[8] as int);
            assert(m[6] * id[2] == 0);
            assert(m[7] * id[5] == 0);
            assert(m[8] * id[8] == m[8] as int);
            assert(row_times_column(m, id, 2, 2) == m[8] as int);
        }
    }
    assert(product(id, m) =~= m);
    assert(product(m, id) =~= m);
}

/// `wrap` of a sum of three products does not change when the left factors are taken modulo 256.
proof fn lemma_wrap_dot3_left(x0: int, x1: int, x2: int, y0: int, y1: int, y2: int)
    ensures
        same_mod((x0 % 256) * y0 + (x1 % 256) * y1 + (x2 % 256) * y2, x0 * y0 + x1 * y1 + x2 * y2),
{
    lemma_same_mod_reduce(x0);
    lemma_same_mod_reduce(x1);
    lemma_same_mod_reduce(x2);
    lemma_same_mod_mul(x0 % 256, x0, y0, y0);
    lemma_same_mod_mul(x1 % 256, x1, y1, y1);
    lemma_same_mod_mul(x2 % 256, x2, y2, y2);
    lemma_same_mod_add((x0 % 256) * y0, x0 * y0, (x1 % 256) * y1, x1 * y1);
    lemma_same_mod_add((x0 % 256) * y0 + (x1 % 256) * y1, x0 * y0 + x1 * y1, (x2 % 256) * y2, x2 * y2);
}

/// `wrap` of a sum of three products does not change when the right factors are taken modulo 256.
proof fn lemma_wrap_dot3_right(x0: int, x1: int, x2: int, y0: int, y1: int, y2: int)
    ensures
        same_mod(x0 * (y0 % 256) + x1 * (y1 % 256) + x2 * (y2 % 256), x0 * y0 + x1 * y1 + x2 * y2),
{
    lemma_same_mod_reduce(y0);
    lemma_same_mod_reduce(y1);
    lemma_same_mod_reduce(y2);
    lemma_same_mod_mul(x0, x0, y0 % 256, y0);
    lemma_same_mod_mul(x1, x1, y1 % 256, y1);
    lemma_same_mod_mul(x2, x2, y2 % 256, y2);
    lemma_same_mod_add(x0 * (y0 % 256), x0 * y0, x1 * (y1 % 256), x1 * y1);
    lemma_same_mod_add(x0 * (y0 % 256) + x1 * (y1 % 256), x0 * y0 + x1 * y1, x2 * (y2 % 256), x2 * y2);
}

proof fn lemma_product_entry(l: Seq<u8>, r: Seq<u8>, i: int, j: int)
    requires
        0 <= i < 3,
        0 <= j < 3,
    ensures
        product(l, r)[3 * i + j] as int == row_times_column(l, r, i, j) % 256,
{
    let n = 3 * i + j;
    assert(n / 3 == i && n % 3 == j);
    lemma_same_mod_reduce(row_times_column(l, r, i, j));
}

/// The matrix product modulo 256 is associative.
pub proof fn lemma_product_associative(a: Seq<u8>, b: Seq<u8>, c: Seq<u8>)
    requires
        a.len() == 9,
        b.len() == 9,
        c.len() == 9,
    ensures
        product(product(a, b), c) == product(a, product(b, c)),
{
    let ab = product(a, b);
    let bc = product(b, c);
    assert forall|n: int| 0 <= n < 9 implies #[trigger] product(ab, c)[n] == product(a, bc)[n] by {
        let i = n / 3;
        let j = n % 3;
        assert(n == 3 * i + j);
        lemma_product_entry(a, b, i, 0);
        lemma_product_entry(a, b, i, 1);
        lemma_product_entry(a, b, i, 2);
        lemma_product_entry(b, c, 0, j);
        lemma_product_entry(b, c, 1, j);
        lemma_product_entry(b, c, 2, j);
        let ab0 = row_times_column(a, b, i, 0);
        let ab1 = row_times_column(a, b, i, 1);
        let ab2 = row_times_column(a, b, i, 2);
        let bc0 = row_times_column(b, c, 0, j);
        let bc1 = row_times_column(b, c, 1, j);
        let bc2 = row_times_column(b, c, 2, j);
        let c0 = c[j] as int;
        let c1 = c[3 + j] as int;
        let c2 = c[6 + j] as int;
        let a0 = a[3 * i] as int;
        let a1 = a[3 * i + 1] as int;
        let a2 = a[3 * i + 2] as int;
        assert(row_times_column(ab, c, i, j) == (ab0 % 256) * c0 + (ab1 % 256) * c1 + (ab2 % 256) * c2);
        assert(row_times_column(a, bc, i, j) == a0 * (bc0 % 256) + a1 * (bc1 % 256) + a2 * (bc2 % 256));
        lemma_wrap_dot3_left(ab0, ab1, ab2, c0, c1, c2);
        lemma_wrap_dot3_right(a0, a1, a2, bc0, bc1, bc2);
        let b00 = b[0] as int;
        let b01 = b[1] as int;
        let b02 = b[2] as int;
        let b10 = b[3] as int;
        let b11 = b[4] as int;
        let b12 = b[5] as int;
        let b20 = b[6] as int;
        let b21 = b[7] as int;
        let b22 = b[8] as int;
        assert(ab0 == a0 * b00 + a1 * b10 + a2 * b20);
        assert(ab1 == a0 * b01 + a1 * b11 + a2 * b21);
        assert(ab2 == a0 * b02 + a1 * b12 + a2 * b22);
        assert(bc0 == b00 * c0 + b01 * c1 + b02 * c2);
        assert(bc1 == b10 * c0 + b11 * c1 + b12 * c2);
        assert(bc2 == b20 * c0 + b21 * c1 + b22 * c2);
        lemma_dist3_right(a0 * b00, a1 * b10, a2 * b20, c0);
        lemma_dist3_right(a0 * b01, a1 * b11, a2 * b21, c1);
        lemma_dist3_right(a0 * b02, a1 * b12, a2 * b22, c2);
        lemma_dist3_left(a0, b00 * c0, b01 * c1, b02 * c2);
        lemma_dist3_left(a1, b10 * c0, b11 * c1, b12 * c2);
        lemma_dist3_left(a2, b20 * c0, b21 * c1, b22 * c2);
        lemma_assoc(a0, b00, c0);
        lemma_assoc(a0, b01, c1);
        lemma_assoc(a0, b02, c2);
        lemma_assoc(a1, b10, c0);
        lemma_assoc(a1, b11, c1);
        lemma_assoc(a1, b12, c2);
        lemma_assoc(a2, b20, c0);
        lemma_assoc(a2, b21, c1);
        lemma_assoc(a2, b22, c2);
    }
    assert(product(ab, c) =~= product(a, bc));
}

/// Scaling either factor scales the product.
pub proof fn lemma_scaled_product(a: Seq<u8>, b: Seq<u8>, k: u8)
    requires
        a.len() == 9,
        b.len() == 9,
    ensures
        product(scaled(a, k), b) == scaled(product(a, b), k),
        product(a, scaled(b, k)) == scaled(product(a, b), k),
{
    let ak = scaled(a, k);
    let bk = scaled(b, k);
    let p = product(a, b);
    assert forall|n: int| 0 <= n < 9 implies #[trigger] product(ak, b)[n] == scaled(p, k)[n] && product(a, bk)[n] == scaled(p, k)[n] by {
        let i = n / 3;
        let j = n % 3;
        assert(n == 3 * i + j);
        lemma_product_entry(a, b, i, j);
        let a0 = a[3 * i] as int;
        let a1 = a[3 * i + 1] as int;
        let a2 = a[3 * i + 2] as int;
        let b0 = b[j] as int;
        let b1 = b[3 + j] as int;
        let b2 = b[6 + j] as int;
        let kk = k as int;
        let s = a0 * b0 + a1 * b1 + a2 * b2;
        assert(row_times_column(ak, b, i, j) == ((a0 * kk) % 256) * b0 + ((a1 * kk) % 256) * b1 + ((a2 * kk) % 256) * b2);
        lemma_wrap_dot3_left(a0 * kk, a1 * kk, a2 * kk, b0, b1, b2);
        assert(row_times_column(a, bk, i, j) == a0 * ((b0 * kk) % 256) + a1 * ((b1 * kk) % 256) + a2 * ((b2 * kk) % 256));
        lemma_wrap_dot3_right(a0, a1, a2, b0 * kk, b1 * kk, b2 * kk);
        lemma_dist3_right(a0 * b0, a1 * b1, a2 * b2, kk);
        lemma_swap_factor(a0, b0, kk);
        lemma_swap_factor(a1, b1, kk);
        lemma_swap_factor(a2, b2, kk);
        lemma_same_mod_reduce(s);
        lemma_same_mod_mul(s % 256, s, kk, kk);
        lemma_same_mod_reduce(s * kk);
    }
    assert(product(ak, b) =~= scaled(p, k));
    assert(product(a, bk) =~= scaled(p, k));
}

/// The benchmark's determinant value is homogeneous of degree three: scaling the matrix by `k`
/// multiplies it by `k` cubed, modulo 256.
pub proof fn lemma_det_scaled(m: Seq<u8>, k: u8)
    requires
        m.len() == 9,
    ensures
        det_value(scaled(m, k)) == wrap(k * k * k * det_value(m)),
{
    let s = scaled(m, k);
    let kk = k as int;
    let x = ints(s);
    let y = Seq::new(9, |i: int| m[i] * kk);
    assert forall|i: int| 0 <= i < 9 implies same_mod(#[trigger] x[i], y[i]) by {
        lemma_same_mod_reduce(m[i] * kk);
    }
    lemma_det_poly_same_mod(x, y);
    let d = det_poly(m[0] as int, m[1] as int, m[2] as int, m[3] as int, m[4] as int, m[5] as int, m[6] as int, m[7] as int, m[8] as int);
    let m0 = m[0] as int;
    let m1 = m[1] as int;
    let m2 = m[2] as int;
    let m3 = m[3] as int;
    let m4 = m[4] as int;
    let m5 = m[5] as int;
    let m6 = m[6] as int;
    let m7 = m[7] as int;
    let m8 = m[8] as int;
    assert(det_poly(y[0], y[1], y[2], y[3], y[4], y[5], y[6], y[7], y[8]) == det_poly(m0 * kk, m1 * kk, m2 * kk, m3 * kk, m4 * kk, m5 * kk, m6 * kk, m7 * kk, m8 * kk));
    lemma_cofactor_term_scaled(kk, m0, m4, m8, m5, m7);
    lemma_cofactor_term_scaled(kk, m1, m3, m8, m5, m6);
    lemma_cofactor_term_scaled(kk, m2, m3, m7, m4, m6);
    let t1 = m0 * (m4 * m8 - m5 * m7);
    let t2 = m1 * (m3 * m8 - m5 * m6);
    let t3 = m2 * (m3 * m7 - m4 * m6);
    lemma_cube_sub3(kk, t1, t2, t3);
    lemma_det_value_poly(s);
    lemma_det_value_poly(m);
    assert(det_value(s) == wrap(det_poly(x[0], x[1], x[2], x[3], x[4], x[5], x[6], x[7], x[8])));
    lemma_same_mod_reduce(d);
    lemma_same_mod_mul(kk * kk * kk, kk * kk * kk, d % 256, d);
    assert(det_value(m) as int == d % 256);
}

} // verus!
