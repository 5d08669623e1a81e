//! Decomposition of a scalar into two short scalars by rounding against a
//! reduced lattice basis.

use vstd::prelude::*;
use vstd::arithmetic::div_mod::{
    lemma_mod_multiples_vanish, lemma_small_mod, lemma_fundamental_div_mod,
};
use crate::field::{
    Scalar, r, limbs4, limbs_val, scalar_add, scalar_sub, scalar_mul, scalar_neg, big_mul, big_div,
    scalar_from_digits,
};

verus! {

/// The reduced lattice basis `N = [[N11, N12], [N21, N22]]` of
/// `{(a, b) : a + b·λ ≡ 0 (mod r)}`, entries reduced modulo `r`.
pub open spec fn n11() -> int {
    limbs4(0x4b02f94a9789181f, 0x555fe2004be6928e, 0, 0)
}

pub open spec fn n12() -> int {
    limbs4(0xf8e2591a23d61f44, 0x0814b3eee55e8f5d, 0, 0)
}

pub open spec fn n21() -> int {
    limbs4(0xf1c4b23447ac3e88, 0x102967ddcabd1ebb, 0, 0)
}

/// `-N11` modulo `r`.
pub open spec fn n22() -> int {
    r() - n11()
}

/// The endomorphism's eigenvalue on the scalar field: `ψ(P) = λ·P`.
pub open spec fn lambda() -> int {
    limbs4(0xd13d21408783df05, 0xcfc49db970a5056e, 0xedf849562b38c72b, 0x13b4f3dc4a39a493)
}

/// `floor(k·n / r)`, reduced modulo `r`.
pub open spec fn beta(k: int, n: int) -> int {
    ((k * n) / r()) % r()
}

pub open spec fn fr_add(a: int, b: int) -> int {
    (a + b) % r()
}

pub open spec fn fr_mul(a: int, b: int) -> int {
    (a * b) % r()
}

/// The pair `(k1, k2)` that `get_decomposition` returns for `k`:
/// `k1 = k - (β1·N11 + β2·N21)` and `k2 = -(β1·N12 + β2·N22)` modulo `r`.
pub open spec fn decomposition(k: int) -> (int, int) {
    let b1 = beta(k, n11());
    let b2 = beta(k, n12());
    let c1 = fr_add(fr_mul(b1, n11()), fr_mul(b2, n21()));
    let c2 = fr_add(fr_mul(b1, n12()), fr_mul(b2, n22()));
    ((k - c1 + r()) % r(), (r() - c2) % r())
}

fn scalar_const(limbs: [u64; 4]) -> (c: Scalar)
    requires
        limbs_val(limbs) < r(),
    ensures
        c.wf(),
        c.val() == limbs_val(limbs),
{
    Scalar { limbs }
}

/// Splits a scalar `k` into `(k1, k2)` with `k1 + k2·λ ≡ k (mod r)` by
/// rounding `(k, 0)` to the lattice spanned by `N`.
pub fn get_decomposition(scalar: Scalar) -> (ks: (Scalar, Scalar))
    requires
        scalar.wf(),
    ensures
        ks.0.wf(),
        ks.1.wf(),
        (ks.0.val(), ks.1.val()) == decomposition(scalar.val()),
        (ks.0.val() + ks.1.val() * lambda()) % r() == scalar.val(),
        ks.0.val() < n11() + n21(),
        ks.1.val() < n12() || ks.1.val() > r() - n11(),
{
    let n11 = scalar_const([0x4b02f94a9789181f, 0x555fe2004be6928e, 0, 0]);
    let n12 = scalar_const([0xf8e2591a23d61f44, 0x0814b3eee55e8f5d, 0, 0]);
    let n21 = scalar_const([0xf1c4b23447ac3e88, 0x102967ddcabd1ebb, 0, 0]);
    let n22 = scalar_const([0x29fa0d6a90edcfc2, 0xaa2fa500283271e3, 0x0cce760202687600, 0x1cfb69d4ca675f52]);
    let modulus: [u64; 4] = [0x74fd06b52876e7e1, 0xff8f870074190471, 0x0cce760202687600, 0x1cfb69d4ca675f52];

    let beta_1 = big_div(&big_mul(scalar, n11), modulus);
    let beta_2 = big_div(&big_mul(scalar, n12), modulus);
    let beta_1 = scalar_from_digits(&beta_1);
    let beta_2 = scalar_from_digits(&beta_2);

    let b1 = scalar_add(scalar_mul(beta_1, n11), scalar_mul(beta_2, n21));
    let b2 = scalar_add(scalar_mul(beta_1, n12), scalar_mul(beta_2, n22));
    let k1 = scalar_sub(scalar, b1);
    let k2 = scalar_neg(b2);
    proof {
        lemma_decomposition_sound(scalar.val());
        lemma_decomposition_short(scalar.val());
    }
    (k1, k2)
}

/// The lattice rows lie in the kernel of `(a, b) ↦ a + b·λ (mod r)`.
proof fn lemma_lattice_kernel()
    ensures
        n11() + n12() * lambda() == r() * 7303737369192576046425006878625960659,
        n21() + n22() * lambda() == r() * limbs4(0x862d86b87dcead92, 0x95b759113dcfc0ec, 0xedf849562b38c72b, 0x13b4f3dc4a39a493),
{
    let (a11, a12, a21, l, rr) = (n11(), n12(), n21(), lambda(), r());
    let e2 = limbs4(0x862d86b87dcead92, 0x95b759113dcfc0ec, 0xedf849562b38c72b, 0x13b4f3dc4a39a493);
    assert(a11 == (0x4b02f94a9789181f + 0x1_0000_0000_0000_0000 * (0x555fe2004be6928e + 0x1_0000_0000_0000_0000 * (0 + 0x1_0000_0000_0000_0000 * 0))));
    assert(a12 == (0xf8e2591a23d61f44 + 0x1_0000_0000_0000_0000 * (0x0814b3eee55e8f5d + 0x1_0000_0000_0000_0000 * (0 + 0x1_0000_0000_0000_0000 * 0))));
    assert(a21 == (0xf1c4b23447ac3e88 + 0x1_0000_0000_0000_0000 * (0x102967ddcabd1ebb + 0x1_0000_0000_0000_0000 * (0 + 0x1_0000_0000_0000_0000 * 0))));
    assert(l == (0xd13d21408783df05 + 0x1_0000_0000_0000_0000 * (0xcfc49db970a5056e + 0x1_0000_0000_0000_0000 * (0xedf849562b38c72b + 0x1_0000_0000_0000_0000 * 0x13b4f3dc4a39a493))));
    assert(rr == (0x74fd06b52876e7e1 + 0x1_0000_0000_0000_0000 * (0xff8f870074190471 + 0x1_0000_0000_0000_0000 * (0x0cce760202687600 + 0x1_0000_0000_0000_0000 * 0x1cfb69d4ca675f52))));
    assert(e2 == (0x862d86b87dcead92 + 0x1_0000_0000_0000_0000 * (0x95b759113dcfc0ec + 0x1_0000_0000_0000_0000 * (0xedf849562b38c72b + 0x1_0000_0000_0000_0000 * 0x13b4f3dc4a39a493))));
    assert(a11 + a12 * l == rr * 7303737369192576046425006878625960659) by (nonlinear_arith)
        requires
            a11 == (0x4b02f94a9789181f + 0x1_0000_0000_0000_0000 * (0x555fe2004be6928e + 0x1_0000_0000_0000_0000 * (0 + 0x1_0000_0000_0000_0000 * 0))),
            a12 == (0xf8e2591a23d61f44 + 0x1_0000_0000_0000_0000 * (0x0814b3eee55e8f5d + 0x1_0000_0000_0000_0000 * (0 + 0x1_0000_0000_0000_0000 * 0))),
            l == (0xd13d21408783df05 + 0x1_0000_0000_0000_0000 * (0xcfc49db970a5056e + 0x1_0000_0000_0000_0000 * (0xedf849562b38c72b + 0x1_0000_0000_0000_0000 * 0x13b4f3dc4a39a493))),
            rr == (0x74fd06b52876e7e1 + 0x1_0000_0000_0000_0000 * (0xff8f870074190471 + 0x1_0000_0000_0000_0000 * (0x0cce760202687600 + 0x1_0000_0000_0000_0000 * 0x1cfb69d4ca675f52))),
    ;
    assert(a21 + (rr - a11) * l == rr * e2) by (nonlinear_arith)
        requires
            a11 == (0x4b02f94a9789181f + 0x1_0000_0000_0000_0000 * (0x555fe2004be6928e + 0x1_0000_0000_0000_0000 * (0 + 0x1_0000_0000_0000_0000 * 0))),
            a21 == (0xf1c4b23447ac3e88 + 0x1_0000_0000_0000_0000 * (0x102967ddcabd1ebb + 0x1_0000_0000_0000_0000 * (0 + 0x1_0000_0000_0000_0000 * 0))),
            l == (0xd13d21408783df05 + 0x1_0000_0000_0000_0000 * (0xcfc49db970a5056e + 0x1_0000_0000_0000_0000 * (0xedf849562b38c72b + 0x1_0000_0000_0000_0000 * 0x13b4f3dc4a39a493))),
            rr == (0x74fd06b52876e7e1 + 0x1_0000_0000_0000_0000 * (0xff8f870074190471 + 0x1_0000_0000_0000_0000 * (0x0cce760202687600 + 0x1_0000_0000_0000_0000 * 0x1cfb69d4ca675f52))),
            e2 == (0x862d86b87dcead92 + 0x1_0000_0000_0000_0000 * (0x95b759113dcfc0ec + 0x1_0000_0000_0000_0000 * (0xedf849562b38c72b + 0x1_0000_0000_0000_0000 * 0x13b4f3dc4a39a493))),
    ;
}

/// `x % m` is `x` less a multiple of `m`.
proof fn lemma_mod_as_sub(x: int, m: int) -> (t: int)
    requires
        m > 0,
    ensures
        x % m == x - m * t,
{
    lemma_fundamental_div_mod(x, m);
    x / m
}

/// Soundness of the decomposition: `k1 + k2·λ ≡ k (mod r)`.
pub proof fn lemma_decomposition_sound(k: int)
    requires
        0 <= k < r(),
    ensures
        (decomposition(k).0 + decomposition(k).1 * lambda()) % r() == k,
{
    let rr = r();
    let lam = lambda();
    let b1 = beta(k, n11());
    let b2 = beta(k, n12());
    let m1 = b1 * n11();
    let m2 = b2 * n21();
    let m3 = b1 * n12();
    let m4 = b2 * n22();
    let t1 = lemma_mod_as_sub(m1, rr);
    let t2 = lemma_mod_as_sub(m2, rr);
    let t3 = lemma_mod_as_sub(m3, rr);
    let t4 = lemma_mod_as_sub(m4, rr);
    let c1 = fr_add(fr_mul(b1, n11()), fr_mul(b2, n21()));
    let c2 = fr_add(fr_mul(b1, n12()), fr_mul(b2, n22()));
    let t5 = lemma_mod_as_sub(m1 % rr + m2 % rr, rr);
    let t6 = lemma_mod_as_sub(m3 % rr + m4 % rr, rr);
    let k1 = decomposition(k).0;
    let k2 = decomposition(k).1;
    let t7 = lemma_mod_as_sub(k - c1 + rr, rr);
    let t8 = lemma_mod_as_sub(rr - c2, rr);
    lemma_lattice_kernel();
    let e1 = 7303737369192576046425006878625960659int;
    let e2 = limbs4(0x862d86b87dcead92, 0x95b759113dcfc0ec, 0xedf849562b38c72b, 0x13b4f3dc4a39a493);
    let (a11, a12, a21, a22) = (n11(), n12(), n21(), n22());
    assert(m1 + m3 * lam == rr * (b1 * e1)) by (nonlinear_arith)
        requires
            a11 + a12 * lam == rr * e1,
            m1 == b1 * a11,
            m3 == b1 * a12,
    ;
    assert(m2 + m4 * lam == rr * (b2 * e2)) by (nonlinear_arith)
        requires
            a21 + a22 * lam == rr * e2,
            m2 == b2 * a21,
            m4 == b2 * a22,
    ;
    let u = t3 + t4 + t6 - t8;
    assert(k2 * lam == rr * lam - (m3 + m4) * lam + rr * (u * lam)) by (nonlinear_arith)
        requires
            k2 == rr - c2 - rr * t8,
            c2 == m3 - rr * t3 + m4 - rr * t4 - rr * t6,
            u == t3 + t4 + t6 - t8,
    ;
    assert((m3 + m4) * lam == m3 * lam + m4 * lam) by (nonlinear_arith);
    let t = t1 + t2 + t5 + 1 - t7 + lam + u * lam - b1 * e1 - b2 * e2;
    assert(k1 + k2 * lam == rr * t + k) by (nonlinear_arith)
        requires
            k1 == k - c1 + rr - rr * t7,
            c1 == m1 - rr * t1 + m2 - rr * t2 - rr * t5,
            k2 * lam == rr * lam - (m3 * lam + m4 * lam) + rr * (u * lam),
            m1 + m3 * lam == rr * (b1 * e1),
            m2 + m4 * lam == rr * (b2 * e2),
            t == t1 + t2 + t5 + 1 - t7 + lam + u * lam - b1 * e1 - b2 * e2,
    ;
    lemma_mod_multiples_vanish(t, k, rr);
    lemma_small_mod(k as nat, rr as nat);
}

/// The basis has determinant `-r`: `N11² + N12·N21 = r`.
proof fn lemma_lattice_determinant()
    ensures
        n11() * n11() + n12() * n21() == r(),
        n11() + n21() < limbs4(0, 0, 1, 0),
        n12() < n11(),
        0 < n11(),
        0 < n21(),
        0 < n12(),
        n11() < r(),
{
    let (a11, a12, a21, rr) = (n11(), n12(), n21(), r());
    assert(a11 == (0x4b02f94a9789181f + 0x1_0000_0000_0000_0000 * (0x555fe2004be6928e + 0x1_0000_0000_0000_0000 * (0 + 0x1_0000_0000_0000_0000 * 0))));
    assert(a12 == (0xf8e2591a23d61f44 + 0x1_0000_0000_0000_0000 * (0x0814b3eee55e8f5d + 0x1_0000_0000_0000_0000 * (0 + 0x1_0000_0000_0000_0000 * 0))));
    assert(a21 == (0xf1c4b23447ac3e88 + 0x1_0000_0000_0000_0000 * (0x102967ddcabd1ebb + 0x1_0000_0000_0000_0000 * (0 + 0x1_0000_0000_0000_0000 * 0))));
    assert(rr == (0x74fd06b52876e7e1 + 0x1_0000_0000_0000_0000 * (0xff8f870074190471 + 0x1_0000_0000_0000_0000 * (0x0cce760202687600 + 0x1_0000_0000_0000_0000 * 0x1cfb69d4ca675f52))));
    assert(a11 * a11 + a12 * a21 == rr) by (nonlinear_arith)
        requires
            a11 == (0x4b02f94a9789181f + 0x1_0000_0000_0000_0000 * (0x555fe2004be6928e + 0x1_0000_0000_0000_0000 * (0 + 0x1_0000_0000_0000_0000 * 0))),
            a12 == (0xf8e2591a23d61f44 + 0x1_0000_0000_0000_0000 * (0x0814b3eee55e8f5d + 0x1_0000_0000_0000_0000 * (0 + 0x1_0000_0000_0000_0000 * 0))),
            a21 == (0xf1c4b23447ac3e88 + 0x1_0000_0000_0000_0000 * (0x102967ddcabd1ebb + 0x1_0000_0000_0000_0000 * (0 + 0x1_0000_0000_0000_0000 * 0))),
            rr == (0x74fd06b52876e7e1 + 0x1_0000_0000_0000_0000 * (0xff8f870074190471 + 0x1_0000_0000_0000_0000 * (0x0cce760202687600 + 0x1_0000_0000_0000_0000 * 0x1cfb69d4ca675f52))),
    ;
}

/// `floor(k·n / r)` of a scalar `k` and a lattice entry `n < r` is its own
/// reduction, with remainder `rho`.
proof fn lemma_beta(k: int, n: int) -> (rho: int)
    requires
        0 <= k < r(),
        0 < n < r(),
    ensures
        0 <= rho < r(),
        0 <= beta(k, n) < r(),
        k * n == r() * beta(k, n) + rho,
{
    let rr = r();
    let p = k * n;
    lemma_fundamental_div_mod(p, rr);
    let q = p / rr;
    assert(0 <= p < rr * rr) by (nonlinear_arith)
        requires
            0 <= k < rr,
            0 < n < rr,
            p == k * n,
    ;
    assert(0 <= q < rr) by (nonlinear_arith)
        requires
            0 <= p < rr * rr,
            p == rr * q + p % rr,
            0 <= p % rr < rr,
    ;
    lemma_small_mod(q as nat, rr as nat);
    p % rr
}

/// Shortness of the decomposition: `k1 < N11 + N21`, and `k2`, read as a
/// signed residue, lies strictly between `-N11` and `N12`; both halves are
/// thus below `2^128` in absolute value, about the square root of `r`.
pub proof fn lemma_decomposition_short(k: int)
    requires
        0 <= k < r(),
    ensures
        0 <= decomposition(k).0 < n11() + n21(),
        decomposition(k).1 < n12() || decomposition(k).1 > r() - n11(),
        decomposition(k).0 < limbs4(0, 0, 1, 0),
        decomposition(k).1 < limbs4(0, 0, 1, 0) || r() - decomposition(k).1 < limbs4(0, 0, 1, 0),
{
    lemma_lattice_determinant();
    let rr = r();
    let (a11, a12, a21) = (n11(), n12(), n21());
    let rho1 = lemma_beta(k, a11);
    let rho2 = lemma_beta(k, a12);
    let b1 = beta(k, a11);
    let b2 = beta(k, a12);
    let m1 = b1 * a11;
    let m2 = b2 * a21;
    let m3 = b1 * a12;
    let m4 = b2 * n22();
    let t1 = lemma_mod_as_sub(m1, rr);
    let t2 = lemma_mod_as_sub(m2, rr);
    let t3 = lemma_mod_as_sub(m3, rr);
    let t4 = lemma_mod_as_sub(m4, rr);
    let c1 = fr_add(fr_mul(b1, a11), fr_mul(b2, a21));
    let c2 = fr_add(fr_mul(b1, a12), fr_mul(b2, n22()));
    let t5 = lemma_mod_as_sub(m1 % rr + m2 % rr, rr);
    let t6 = lemma_mod_as_sub(m3 % rr + m4 % rr, rr);
    let x1 = k - b1 * a11 - b2 * a21;
    let x2 = b2 * a11 - b1 * a12;
    let (p1, p2) = (rr * b1, rr * b2);
    assert(p1 * a11 == k * (a11 * a11) - rho1 * a11 && p1 * a12 == k * (a11 * a12) - rho1 * a12)
        by (nonlinear_arith)
        requires
            p1 == k * a11 - rho1,
    ;
    assert(p2 * a21 == k * (a12 * a21) - rho2 * a21 && p2 * a11 == k * (a11 * a12) - rho2 * a11)
        by (nonlinear_arith)
        requires
            p2 == k * a12 - rho2,
    ;
    assert(k * (a11 * a11) + k * (a12 * a21) == k * rr) by (nonlinear_arith)
        requires
            a11 * a11 + a12 * a21 == rr,
    ;
    assert(rr * x1 == rr * k - p1 * a11 - p2 * a21 && rr * x2 == p2 * a11 - p1 * a12) by (nonlinear_arith)
        requires
            x1 == k - b1 * a11 - b2 * a21,
            x2 == b2 * a11 - b1 * a12,
            p1 == rr * b1,
            p2 == rr * b2,
    ;
    assert(rr * k == k * rr) by (nonlinear_arith);
    assert(rr * x1 == rho1 * a11 + rho2 * a21 && rr * x2 == rho1 * a12 - rho2 * a11);
    assert(0 <= x1 < a11 + a21 && -a11 < x2 < a12) by (nonlinear_arith)
        requires
            rr * x1 == rho1 * a11 + rho2 * a21,
            rr * x2 == rho1 * a12 - rho2 * a11,
            0 <= rho1 < rr,
            0 <= rho2 < rr,
            0 < a11,
            0 < a12,
            0 < a21,
            rr > 0,
    ;
    assert(m4 == b2 * rr - b2 * a11) by (nonlinear_arith)
        requires
            m4 == b2 * (rr - a11),
    ;
    // k1 and k2 are x1 and x2 up to multiples of r
    let u1 = t1 + t2 + t5 + 1;
    assert(k - c1 + rr == x1 + rr * u1) by (nonlinear_arith)
        requires
            c1 == m1 - rr * t1 + m2 - rr * t2 - rr * t5,
            x1 == k - m1 - m2,
            u1 == t1 + t2 + t5 + 1,
    ;
    let u2 = 1 - b2 + t3 + t4 + t6;
    assert(rr - c2 == x2 + rr * u2) by (nonlinear_arith)
        requires
            c2 == m3 - rr * t3 + m4 - rr * t4 - rr * t6,
            m4 == b2 * rr - b2 * a11,
            x2 == b2 * a11 - m3,
            u2 == 1 - b2 + t3 + t4 + t6,
    ;
    lemma_mod_multiples_vanish(u1, x1, rr);
    lemma_small_mod(x1 as nat, rr as nat);
    lemma_mod_multiples_vanish(u2, x2, rr);
    if x2 >= 0 {
        lemma_small_mod(x2 as nat, rr as nat);
    } else {
        lemma_mod_multiples_vanish(1, x2, rr);
        lemma_small_mod((x2 + rr) as nat, rr as nat);
    }
}

} // verus!
