//! The complete GLV multiplication: endomorphism, decomposition, joint pass.

use vstd::prelude::*;
use vstd::arithmetic::div_mod::lemma_mod_self_0;
use crate::field::{base_mul, r, Scalar};
use crate::curve::{Affine, Projective, Coords, zero_coords};
use crate::endo::{fq_mul, psi, psi_coords};
use crate::decomp::{decomposition, get_decomposition, beta, n11, n12, n21, n22};
use crate::msm::{affine_coords, joint, msm_spec, multi_scalar_mul};

verus! {

/// The same projective point as `(X, Y, _, Z)`, rescaled by `Z` so that its
/// third coordinate is the extended one: `(X·Z, Y·Z, X·Y, Z·Z)`.
pub open spec fn extended_coords(p: Coords) -> Coords {
    (fq_mul(p.0, p.3), fq_mul(p.1, p.3), fq_mul(p.0, p.1), fq_mul(p.3, p.3))
}

/// Rescales a point whose third coordinate is not `X·Y/Z` (as `psi`
/// returns it) into consistent extended coordinates, which the group law
/// reads.
fn extend(p: &Projective) -> (e: Projective)
    requires
        p.wf(),
    ensures
        e.wf(),
        e@ == extended_coords(p@),
{
    Projective {
        x: base_mul(p.x, p.z),
        y: base_mul(p.y, p.z),
        t: base_mul(p.x, p.y),
        z: base_mul(p.z, p.z),
    }
}

/// What `poor_man_glv` returns for `base` and `k`: the joint multiplication
/// of `base` and `ψ(base)` by the two halves of the decomposition of `k`.
pub open spec fn glv_spec(base: Affine, k: int) -> Coords {
    msm_spec(
        affine_coords(base),
        decomposition(k).0,
        extended_coords(psi_coords(base)),
        decomposition(k).1,
    )
}

/// Multiplies `base` by `scalar` the GLV way: endomorphism image, scalar
/// decomposition, then one joint double-and-add pass.
pub fn poor_man_glv(base: Affine, scalar: Scalar) -> (res: Projective)
    requires
        base.wf(),
        scalar.wf(),
    ensures
        res.wf(),
        res@ == glv_spec(base, scalar.val()),
{
    let psi_base = extend(&psi(&base));
    let (k1, k2) = get_decomposition(scalar);
    multi_scalar_mul(&base, &k1, &psi_base, &k2)
}

/// A zero scalar decomposes into two zeros, and the joint multiplication by
/// two zeros, hence the whole GLV multiplication by zero, is the identity.
pub proof fn lemma_zero_scalar(base: Affine, p1: Coords, p2: Coords)
    ensures
        decomposition(0) == (0int, 0int),
        msm_spec(p1, 0, p2, 0) == zero_coords(),
        glv_spec(base, 0) == zero_coords(),
{
    reveal(joint);
    let rr = r();
    assert(0int / rr == 0 && 0int % rr == 0) by (nonlinear_arith)
        requires
            rr > 0,
    ;
    assert(0 * n11() == 0 && 0 * n12() == 0 && 0 * n21() == 0 && 0 * n22() == 0);
    assert(beta(0, n11()) == 0);
    assert(beta(0, n12()) == 0);
    lemma_mod_self_0(rr);
    assert(decomposition(0) == (0int, 0int));
}

} // verus!
