use vstd::prelude::*;

use vstd::arithmetic::div_mod::{lemma_add_mod_noop, lemma_mul_mod_noop_general, lemma_sub_mod_noop};

verus! {

/// An integer taken modulo 256, as a byte.
pub open spec fn wrap(v: int) -> u8 {
    (v % 256) as u8
}

/// Every element of `m` multiplied by `k`, modulo 256.
pub open spec fn scaled(m: Seq<u8>, k: u8) -> Seq<u8> {
    Seq::new(m.len(), |i: int| wrap(m[i] * k))
}

/// Row `i` of the 3x3 matrix `l` (row by row) times column `j` of `r`.
pub open spec fn row_times_column(l: Seq<u8>, r: Seq<u8>, i: int, j: int) -> int {
    l[3 * i] * r[j] + l[3 * i + 1] * r[3 + j] + l[3 * i + 2] * r[6 + j]
}

/// The product of two 3x3 matrices stored row by row, modulo 256.
pub open spec fn product(l: Seq<u8>, r: Seq<u8>) -> Seq<u8> {
    Seq::new(9, |n: int| wrap(row_times_column(l, r, n / 3, n % 3)))
}

/// The value that the benchmark computes for a 3x3 matrix `m`, modulo 256:
/// `m0(m4m8 - m5m7) - m1(m3m8 - m5m6) - m2(m3m7 - m4m6)`.
pub open spec fn det_value(m: Seq<u8>) -> u8 {
    wrap(m[0] * (m[4] * m[8] - m[5] * m[7]) - m[1] * (m[3] * m[8] - m[5] * m[6]) - m[2] * (m[3]
        * m[7] - m[4] * m[6]))
}

fn wmul(a: u8, b: u8) -> (r: u8)
    ensures
        r == wrap(a * b),
{
    a.wrapping_mul(b)
}

fn wadd(a: u8, b: u8) -> (r: u8)
    ensures
        r == wrap(a + b),
{
    assert((a + b) % 256 == if a + b > 255 { a + b - 256 } else { a + b }) by (nonlinear_arith)
        requires
            a < 256,
            b < 256,
    ;
    a.wrapping_add(b)
}

fn wsub(a: u8, b: u8) -> (r: u8)
    ensures
        r == wrap(a - b),
{
    assert((a - b) % 256 == if a - b < 0 { a - b + 256 } else { a - b }) by (nonlinear_arith)
        requires
            a < 256,
            b < 256,
    ;
    a.wrapping_sub(b)
}

/// `a0 * b0 + a1 * b1 + a2 * b2` modulo 256, with wrapping byte arithmetic.
fn dot3(a0: u8, b0: u8, a1: u8, b1: u8, a2: u8, b2: u8) -> (r: u8)
    ensures
        r == wrap(a0 * b0 + a1 * b1 + a2 * b2),
{
    let s = wadd(wadd(wmul(a0, b0), wmul(a1, b1)), wmul(a2, b2));
    proof {
        let x: int = a0 * b0;
        let y: int = a1 * b1;
        let z: int = a2 * b2;
        lemma_add_mod_noop(x, y, 256);
        lemma_add_mod_noop(x + y, z, 256);
    }
    s
}

/// Multiplies every element of `mat` by `num`, wrapping modulo 256.
pub fn mat_num_mul(mat: Vec<u8>, num: u8) -> (r: Vec<u8>)
    ensures
        r@ == scaled(mat@, num),
{
    let mut out: Vec<u8> = Vec::new();
    let mut i: usize = 0;
    while i < mat.len()
        invariant
            i <= mat@.len(),
            out@ =~= scaled(mat@, num).take(i as int),
        decreases mat@.len() - i,
    {
        out.push(wmul(mat[i], num));
        i = i + 1;
    }
    assert(out@ =~= scaled(mat@, num));
    out
}

/// Multiplies two 3x3 matrices stored row by row, wrapping modulo 256.
pub fn mat_mul(left: Vec<u8>, right: Vec<u8>) -> (r: Vec<u8>)
    requires
        left@.len() == 9,
        right@.len() == 9,
    ensures
        r@ == product(left@, right@),
{
    let mut result: Vec<u8> = Vec::new();
    let mut n: usize = 0;
    while n < 9
        invariant
            n <= 9,
            left@.len() == 9,
            right@.len() == 9,
            result@ =~= product(left@, right@).take(n as int),
        decreases 9 - n,
    {
        let i = n / 3;
        let j = n % 3;
        let v = dot3(left[3 * i], right[j], left[3 * i + 1], right[3 + j], left[3 * i + 2], right[6 + j]);
        result.push(v);
        n = n + 1;
    }
    assert(result@ =~= product(left@, right@));
    result
}

/// The benchmark's determinant-like value of a 3x3 matrix stored row by row, wrapping modulo 256.
pub fn det(mat: Vec<u8>) -> (r: u8)
    requires
        mat@.len() == 9,
    ensures
        r == det_value(mat@),
{
    let m = &mat;
    let t1 = wsub(wmul(m[4], m[8]), wmul(m[5], m[7]));
    let t2 = wsub(wmul(m[3], m[8]), wmul(m[5], m[6]));
    let t3 = wsub(wmul(m[3], m[7]), wmul(m[4], m[6]));
    let p1 = wmul(m[0], t1);
    let p2 = wmul(m[1], t2);
    let p3 = wmul(m[2], t3);
    let r = wsub(wsub(p1, p2), p3);
    proof {
        let s = mat@;
        let a: int = s[4] * s[8] - s[5] * s[7];
        let b: int = s[3] * s[8] - s[5] * s[6];
        let c: int = s[3] * s[7] - s[4] * s[6];
        lemma_sub_mod_noop(s[4] * s[8], s[5] * s[7], 256);
        lemma_sub_mod_noop(s[3] * s[8], s[5] * s[6], 256);
        lemma_sub_mod_noop(s[3] * s[7], s[4] * s[6], 256);
        assert(t1 == a % 256);
        assert(t2 == b % 256);
        assert(t3 == c % 256);
        lemma_mul_mod_noop_general(s[0] as int, a, 256);
        lemma_mul_mod_noop_general(s[1] as int, b, 256);
        lemma_mul_mod_noop_general(s[2] as int, c, 256);
        assert(p1 == (s[0] * a) % 256);
        assert(p2 == (s[1] * b) % 256);
        assert(p3 == (s[2] * c) % 256);
        lemma_sub_mod_noop(s[0] * a, s[1] * b, 256);
        lemma_sub_mod_noop(s[0] * a - s[1] * b, s[2] * c, 256);
    }
    r
}

/// The benchmark: scale `left` by `mul`, multiply by `right`, and take `det` of the product.
pub fn bm(left: Vec<u8>, right: Vec<u8>, mul: u8) -> (r: u8)
    requires
        left@.len() == 9,
        right@.len() == 9,
    ensures
        r == det_value(product(scaled(left@, mul), right@)),
{
    det(mat_mul(mat_num_mul(left, mul), right))
}

} // verus!
