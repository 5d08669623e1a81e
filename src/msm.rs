//! Joint double-and-add of two scalar-point pairs, after sign normalization.

use vstd::prelude::*;
use vstd::arithmetic::power2::{pow2, lemma2_to64, lemma_pow2_adds, lemma_pow2_unfold, lemma_pow2_pos};
use vstd::arithmetic::div_mod::{
    lemma_mod_self_0, lemma_small_mod, lemma_div_denominator, lemma_fundamental_div_mod, lemma_basic_div,
};
use crate::field::{Scalar, q, r, bit, scalar_gt, scalar_neg, bits_le};
use crate::curve::{
    Affine, Projective, Coords, edwards_add, edwards_double, zero_coords, neg_coords, proj_add, proj_double,
};

verus! {

/// `(r - 1) / 2`: scalars above it are replaced by their negation.
pub open spec fn half_order() -> int {
    (r() - 1) / 2
}

fn half_order_scalar() -> (s: Scalar)
    ensures
        s.wf(),
        s.val() == half_order(),
{
    Scalar { limbs: [0xba7e835a943b73f0, 0x7fc7c3803a0c8238, 0x06673b0101343b00, 0x0e7db4ea6533afa9] }
}

/// The representative of `s` that the joint multiplication scans: `s` itself
/// in the lower half of the range, otherwise `r - s`.
pub open spec fn norm_scalar(s: int) -> int {
    if s > half_order() {
        r() - s
    } else {
        s
    }
}

/// The point paired with `norm_scalar(s)`: negated exactly when the scalar is.
pub open spec fn norm_point(s: int, p: Coords) -> Coords {
    if s > half_order() {
        neg_coords(p)
    } else {
        p
    }
}

/// Extended coordinates of an affine point: `(x, y, x·y, 1)`.
pub open spec fn affine_coords(a: Affine) -> Coords {
    (a.x.val(), a.y.val(), (a.x.val() * a.y.val()) % q(), 1int)
}

/// One step of the joint scan after doubling: add `p1`, `p2` or their
/// precomputed sum `p12` according to the two current bits.
pub open spec fn add_selected(acc: Coords, b1: bool, b2: bool, p1: Coords, p2: Coords, p12: Coords) -> Coords {
    if b1 && !b2 {
        edwards_add(acc, p1)
    } else if !b1 && b2 {
        edwards_add(acc, p2)
    } else if b1 && b2 {
        edwards_add(acc, p12)
    } else {
        acc
    }
}

/// Joint double-and-add of `n1·p1 + n2·p2`, most significant bit first,
/// starting from the identity: the bits of `n1 / 2` and `n2 / 2` are
/// processed, then the accumulator is doubled and the last bits are added.
#[verifier::opaque]
pub open spec fn joint(p1: Coords, p2: Coords, p12: Coords, n1: nat, n2: nat) -> Coords
    decreases n1 + n2,
{
    if n1 == 0 && n2 == 0 {
        zero_coords()
    } else {
        add_selected(
            edwards_double(joint(p1, p2, p12, n1 / 2, n2 / 2)),
            n1 % 2 == 1,
            n2 % 2 == 1,
            p1,
            p2,
            p12,
        )
    }
}

/// What `multi_scalar_mul` computes: both pairs sign-normalized, then the
/// joint double-and-add over the normalized scalars.
pub open spec fn msm_spec(p1: Coords, s1: int, p2: Coords, s2: int) -> Coords {
    let q1 = norm_point(s1, p1);
    let q2 = norm_point(s2, p2);
    joint(q1, q2, edwards_add(q1, q2), norm_scalar(s1) as nat, norm_scalar(s2) as nat)
}

/// The bits of `n` from position `k` upward, as an integer: `n / 2^k`.
#[verifier::opaque]
pub open spec fn above(n: int, k: nat) -> nat {
    (n / (pow2(k) as int)) as nat
}

/// The length of a bit string read as a 256-bit integer, least significant
/// bit first: one plus the position of the highest set bit, or zero.
pub fn get_bits(a: &[bool]) -> (len: u16)
    requires
        a@.len() == 256,
    ensures
        len <= 256,
        forall|i: int| len <= i < 256 ==> !a@[i],
        len > 0 ==> a@[len - 1],
{
    let mut res: u16 = 256;
    let mut i: usize = a.len();
    while i > 0
        invariant
            a@.len() == 256,
            i <= 256,
            res as int == i,
            forall|j: int| i <= j < 256 ==> !a@[j],
        decreases i,
    {
        if a[i - 1] {
            return res;
        }
        res = res - 1;
        i = i - 1;
    }
    res
}

proof fn lemma_div_pow2_step(n: int, k: nat)
    requires
        n >= 0,
    ensures
        (n / (pow2(k) as int)) / 2 == n / (pow2(k + 1) as int),
        n / (pow2(k) as int) == 2 * (n / (pow2(k + 1) as int)) + (n / (pow2(k) as int)) % 2,
{
    lemma_pow2_pos(k);
    lemma_pow2_unfold(k + 1);
    lemma_div_denominator(n, pow2(k) as int, 2);
    assert(pow2(k) as int * 2 == pow2(k + 1) as int);
    lemma_fundamental_div_mod(n / (pow2(k) as int), 2);
}

proof fn lemma_pow2_256()
    ensures
        r() < pow2(256),
{
    lemma2_to64();
    lemma_pow2_adds(64, 64);
    lemma_pow2_adds(128, 64);
    lemma_pow2_adds(192, 64);
    assert(pow2(128) == 0x1_0000_0000_0000_0000 * 0x1_0000_0000_0000_0000);
}

/// Above the bit length only zeros remain.
proof fn lemma_high_bits_zero(n: int, k: nat)
    requires
        0 <= n < r(),
        k <= 256,
        forall|i: nat| k <= i < 256 ==> !#[trigger] bit(n, i),
    ensures
        n / (pow2(k) as int) == 0,
    decreases 256 - k,
{
    if k == 256 {
        lemma_pow2_256();
        lemma_basic_div(n, pow2(256) as int);
    } else {
        lemma_high_bits_zero(n, k + 1);
        lemma_div_pow2_step(n, k);
        assert(!bit(n, k));
    }
}

/// A scalar whose bits vanish from `l` upward, scanned over `len >= l`
/// positions, leaves nothing above the scan.
proof fn lemma_scan_start(n: int, l: nat, len: nat)
    requires
        0 <= n < r(),
        l <= len <= 256,
        forall|i: nat| l <= i < 256 ==> !#[trigger] bit(n, i),
    ensures
        above(n, len) == 0,
{
    reveal(above);
    lemma_high_bits_zero(n, l);
    lemma_pow2_pos(l);
    lemma_pow2_pos(len);
    if l < len {
        vstd::arithmetic::power2::lemma_pow2_strictly_increases(l, len);
    }
    assert(n / (pow2(len) as int) == 0) by (nonlinear_arith)
        requires
            n >= 0,
            n / (pow2(l) as int) == 0,
            pow2(l) <= pow2(len),
            pow2(l) > 0,
    ;
}

proof fn lemma_above_zero(n: int)
    requires
        n >= 0,
    ensures
        above(n, 0) == n,
{
    reveal(above);
    lemma2_to64();
}

/// One position of the scan: the prefixes of both scalars above bit `j`
/// extend by that bit.
proof fn lemma_joint_step(p1: Coords, p2: Coords, p12: Coords, n1: int, n2: int, j: nat)
    requires
        n1 >= 0,
        n2 >= 0,
        above(n1, j + 1) > 0 || above(n2, j + 1) > 0 || bit(n1, j) || bit(n2, j),
    ensures
        above(n1, j) > 0 || above(n2, j) > 0,
        joint(p1, p2, p12, above(n1, j), above(n2, j)) == add_selected(
            edwards_double(joint(p1, p2, p12, above(n1, j + 1), above(n2, j + 1))),
            bit(n1, j),
            bit(n2, j),
            p1,
            p2,
            p12,
        ),
{
    reveal(joint);
    reveal(above);
    lemma_div_pow2_step(n1, j);
    lemma_div_pow2_step(n2, j);
    lemma_pow2_pos(j);
    lemma_pow2_pos(j + 1);
    let m1 = n1 / (pow2(j) as int);
    let m2 = n2 / (pow2(j) as int);
    assert(m1 >= 0 && m2 >= 0) by (nonlinear_arith)
        requires
            n1 >= 0,
            n2 >= 0,
            pow2(j) > 0,
            m1 == n1 / (pow2(j) as int),
            m2 == n2 / (pow2(j) as int),
    ;
    assert(n1 / (pow2(j + 1) as int) >= 0 && n2 / (pow2(j + 1) as int) >= 0) by (nonlinear_arith)
        requires
            n1 >= 0,
            n2 >= 0,
            pow2(j + 1) > 0,
    ;
    assert((m1 as nat) / 2 == (n1 / (pow2(j + 1) as int)) as nat);
    assert((m2 as nat) / 2 == (n2 / (pow2(j + 1) as int)) as nat);
}

/// Replaces a scalar above `(r - 1) / 2` by its negation and negates the
/// paired point with it; leaves other pairs as they are.
fn sign_normalize(s: Scalar, p: Projective) -> (np: (Scalar, Projective))
    requires
        s.wf(),
        p.wf(),
    ensures
        np.0.wf(),
        np.1.wf(),
        np.0.val() == norm_scalar(s.val()),
        np.1@ == norm_point(s.val(), p@),
        np.0.val() <= half_order(),
{
    if scalar_gt(s, half_order_scalar()) {
        let ns = scalar_neg(s);
        proof {
            lemma_small_mod((r() - s.val()) as nat, r() as nat);
        }
        (ns, p.neg())
    } else {
        (s, p)
    }
}

/// Computes `s1·B1 + s2·B2` by one joint double-and-add pass: each pair is
/// first sign-normalized so that its scalar is at most `(r - 1) / 2`, then
/// the bits of both scalars are scanned from the most significant down.
pub fn multi_scalar_mul(base: &Affine, scalar_1: &Scalar, endor_base: &Projective, scalar_2: &Scalar) -> (res: Projective)
    requires
        base.wf(),
        scalar_1.wf(),
        endor_base.wf(),
        scalar_2.wf(),
    ensures
        res.wf(),
        res@ == msm_spec(affine_coords(*base), scalar_1.val(), endor_base@, scalar_2.val()),
{
    let (s1, b1) = sign_normalize(*scalar_1, base.into_projective());
    let (s2, b2) = sign_normalize(*scalar_2, *endor_base);
    let ghost n1 = s1.val();
    let ghost n2 = s2.val();
    let b1b2 = proj_add(&b1, &b2);

    let s1_bits = bits_le(s1);
    let s2_bits = bits_le(s2);
    let s1_len = get_bits(s1_bits.as_slice());
    let s2_len = get_bits(s2_bits.as_slice());
    let len: usize = if s1_len > s2_len { s1_len as usize } else { s2_len as usize };
    proof {
        assert forall|i: nat| s1_len <= i < 256 implies !#[trigger] bit(n1, i) by {
            assert(s1_bits@[i as int] == bit(n1, i));
        }
        assert forall|i: nat| s2_len <= i < 256 implies !#[trigger] bit(n2, i) by {
            assert(s2_bits@[i as int] == bit(n2, i));
        }
        lemma_scan_start(n1, s1_len as nat, len as nat);
        lemma_scan_start(n2, s2_len as nat, len as nat);
    }

    let mut res = Projective::zero();
    proof {
        reveal(joint);
    }
    let mut i: usize = 0;
    while i < len
        invariant
            i <= len <= 256,
            s1_bits@.len() == 256,
            s2_bits@.len() == 256,
            forall|j: int| 0 <= j < 256 ==> s1_bits@[j] == bit(n1, j as nat),
            forall|j: int| 0 <= j < 256 ==> s2_bits@[j] == bit(n2, j as nat),
            n1 >= 0,
            n2 >= 0,
            len == s1_len || len == s2_len,
            len > 0 ==> (len == s1_len && s1_bits@[len - 1]) || (len == s2_len && s2_bits@[len - 1]),
            i > 0 ==> above(n1, (len - i) as nat) > 0 || above(n2, (len - i) as nat) > 0,
            b1.wf(),
            b2.wf(),
            b1b2.wf(),
            b1b2@ == edwards_add(b1@, b2@),
            res.wf(),
            res@ == joint(b1@, b2@, b1b2@, above(n1, (len - i) as nat), above(n2, (len - i) as nat)),
        decreases len - i,
    {
        let j: usize = len - i - 1;
        let x1 = s1_bits[j];
        let x2 = s2_bits[j];
        proof {
            assert((len - i) as nat == j + 1);
            lemma_joint_step(b1@, b2@, b1b2@, n1, n2, j as nat);
        }
        res = proj_double(&res);
        if x1 && !x2 {
            res = proj_add(&res, &b1);
        } else if !x1 && x2 {
            res = proj_add(&res, &b2);
        } else if x1 && x2 {
            res = proj_add(&res, &b1b2);
        }
        i = i + 1;
        assert((len - i) as nat == j);
    }
    proof {
        lemma_above_zero(n1);
        lemma_above_zero(n2);
    }
    res
}

/// Negating a scalar and its point twice gives back the same pair.
pub proof fn lemma_double_negation(s: int, p: Coords)
    requires
        0 <= s < r(),
        0 <= p.0 < q(),
        0 <= p.2 < q(),
    ensures
        (r() - (r() - s) % r()) % r() == s,
        neg_coords(neg_coords(p)) == p,
{
    lemma_neg_twice(s, r());
    lemma_neg_twice(p.0, q());
    lemma_neg_twice(p.2, q());
}

proof fn lemma_neg_twice(x: int, m: int)
    requires
        0 <= x < m,
    ensures
        (m - (m - x) % m) % m == x,
{
    if x == 0 {
        lemma_mod_self_0(m);
    } else {
        lemma_small_mod((m - x) as nat, m as nat);
        lemma_small_mod(x as nat, m as nat);
    }
}

} // verus!
