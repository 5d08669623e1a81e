//! The curve's endomorphism, computed from eight fixed coefficients.

use vstd::prelude::*;
use crate::field::{Base, q, limbs4, limbs_val, base_add, base_mul};
use crate::curve::{Affine, Projective, Coords};

verus! {

/// Sum in the base field.
pub open spec fn fq_add(a: int, b: int) -> int {
    (a + b) % q()
}

/// Product in the base field.
pub open spec fn fq_mul(a: int, b: int) -> int {
    (a * b) % q()
}

/// The endomorphism's coefficients, as integers below `q`.
pub open spec fn coeff_a1() -> int {
    limbs4(0x692f7ddaa306c7d4, 0x34fcd8fa17df036c, 0x960f739827ac1953, 0x23c58c92306dbb95)
}

pub open spec fn coeff_a2() -> int {
    limbs4(0xee0f014d172510b4, 0x2ea712770d9af4d6, 0x61f00d3a63511a88, 0x52c9f28b828426a5)
}

pub open spec fn coeff_a3() -> int {
    limbs4(0x11f0feb1e8daef4d, 0x2516918bf2636728, 0xd149cacda650bd7d, 0x2123b4c7a71956a2)
}

pub open spec fn coeff_b1() -> int {
    coeff_a2()
}

pub open spec fn coeff_b2() -> int {
    limbs4(0x1c098cd1519b574a, 0xe07e867f02611eae, 0xb1b2745bd377e5bd, 0x50d06958b6e8ce1a)
}

pub open spec fn coeff_b3() -> int {
    limbs4(0xe3f6732dae64a8b7, 0x733f1d83fd9d3d50, 0x818763ac3629f247, 0x231d3dfa72b4af2d)
}

pub open spec fn coeff_c1() -> int {
    limbs4(0xfc1ae7171cc9f7b5, 0xf693de40b4c002a7, 0x71b70d491ebfddef, 0x5ede5fd005b839be)
}

pub open spec fn coeff_c2() -> int {
    limbs4(0x03e518e7e336084c, 0x5d29c5c24b3e5957, 0xc182cabeeae1fa15, 0x150f478323e54389)
}

/// `f(y) = A1·(y + A2)·(y + A3)`.
pub open spec fn endo_f(y: int) -> int {
    fq_mul(fq_mul(coeff_a1(), fq_add(y, coeff_a2())), fq_add(y, coeff_a3()))
}

/// `g(y) = B1·(y + B2)·(y + B3)`.
pub open spec fn endo_g(y: int) -> int {
    fq_mul(fq_mul(coeff_b1(), fq_add(y, coeff_b2())), fq_add(y, coeff_b3()))
}

/// `h(y) = (y + C1)·(y + C2)`.
pub open spec fn endo_h(y: int) -> int {
    fq_mul(fq_add(y, coeff_c1()), fq_add(y, coeff_c2()))
}

/// The endomorphism on extended coordinates:
/// `(x·f(y)·h(y), g(y)·y, 1, h(y)·y)`.
pub open spec fn psi_coords(a: Affine) -> Coords {
    let x = a.x.val();
    let y = a.y.val();
    (fq_mul(fq_mul(x, endo_f(y)), endo_h(y)), fq_mul(endo_g(y), y), 1int, fq_mul(endo_h(y), y))
}

fn base_const(limbs: [u64; 4]) -> (c: Base)
    requires
        limbs_val(limbs) < q(),
    ensures
        c.wf(),
        c.val() == limbs_val(limbs),
{
    Base { limbs }
}

/// Maps a curve point to its image under the curve's endomorphism, in
/// extended coordinates and without any inversion.
pub fn psi(base: &Affine) -> (p: Projective)
    requires
        base.wf(),
    ensures
        p.wf(),
        p@ == psi_coords(*base),
{
    let a1 = base_const([0x692f7ddaa306c7d4, 0x34fcd8fa17df036c, 0x960f739827ac1953, 0x23c58c92306dbb95]);
    let a2 = base_const([0xee0f014d172510b4, 0x2ea712770d9af4d6, 0x61f00d3a63511a88, 0x52c9f28b828426a5]);
    let a3 = base_const([0x11f0feb1e8daef4d, 0x2516918bf2636728, 0xd149cacda650bd7d, 0x2123b4c7a71956a2]);
    let b1 = a2;
    let b2 = base_const([0x1c098cd1519b574a, 0xe07e867f02611eae, 0xb1b2745bd377e5bd, 0x50d06958b6e8ce1a]);
    let b3 = base_const([0xe3f6732dae64a8b7, 0x733f1d83fd9d3d50, 0x818763ac3629f247, 0x231d3dfa72b4af2d]);
    let c1 = base_const([0xfc1ae7171cc9f7b5, 0xf693de40b4c002a7, 0x71b70d491ebfddef, 0x5ede5fd005b839be]);
    let c2 = base_const([0x03e518e7e336084c, 0x5d29c5c24b3e5957, 0xc182cabeeae1fa15, 0x150f478323e54389]);

    let y = base.y;
    let fy = base_mul(base_mul(a1, base_add(y, a2)), base_add(y, a3));
    let gy = base_mul(base_mul(b1, base_add(y, b2)), base_add(y, b3));
    let hy = base_mul(base_add(y, c1), base_add(y, c2));

    let x = base_mul(base_mul(base.x, fy), hy);
    let t = Base::one();
    Projective { x, y: base_mul(gy, y), t, z: base_mul(hy, y) }
}

} // verus!
