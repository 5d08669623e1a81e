//! Curve points in affine and extended twisted-Edwards coordinates, and the
//! group operations on them.

use vstd::prelude::*;
use ark_ec::ProjectiveCurve;
use ark_ff::BigInteger256;
use ark_ff::PrimeField;
use bandersnatch::{EdwardsProjective, Fq};
use crate::field::{Base, q, base_mul, base_neg};

verus! {

/// Extended twisted-Edwards coordinates `(X, Y, T, Z)` as integers.
pub type Coords = (int, int, int, int);

/// What the curve library's point addition returns on extended coordinates.
pub uninterp spec fn edwards_add(a: Coords, b: Coords) -> Coords;

/// What the curve library's point doubling returns on extended coordinates.
pub uninterp spec fn edwards_double(a: Coords) -> Coords;

/// The identity element `(0, 1, 0, 1)`.
pub open spec fn zero_coords() -> Coords {
    (0, 1, 0, 1)
}

/// Negation on extended coordinates: `(-X, Y, -T, Z)`.
pub open spec fn neg_coords(a: Coords) -> Coords {
    ((q() - a.0) % q(), a.1, (q() - a.2) % q(), a.3)
}

/// A curve point in affine coordinates.
#[derive(Clone, Copy, Debug, PartialEq, Eq)]
pub struct Affine {
    pub x: Base,
    pub y: Base,
}

/// A curve point in extended projective coordinates.
#[derive(Clone, Copy, Debug, PartialEq, Eq)]
pub struct Projective {
    pub x: Base,
    pub y: Base,
    pub t: Base,
    pub z: Base,
}

impl Affine {
    pub open spec fn wf(self) -> bool {
        self.x.wf() && self.y.wf()
    }

    /// Lifts to extended coordinates as `(x, y, x·y, 1)`.
    pub fn into_projective(&self) -> (p: Projective)
        requires
            self.wf(),
        ensures
            p.wf(),
            p@ == (self.x.val(), self.y.val(), (self.x.val() * self.y.val()) % q(), 1int),
    {
        Projective { x: self.x, y: self.y, t: base_mul(self.x, self.y), z: Base::one() }
    }
}

impl View for Projective {
    type V = Coords;

    open spec fn view(&self) -> Coords {
        (self.x.val(), self.y.val(), self.t.val(), self.z.val())
    }
}

impl Projective {
    pub open spec fn wf(self) -> bool {
        self.x.wf() && self.y.wf() && self.t.wf() && self.z.wf()
    }

    /// The identity element of the group.
    pub fn zero() -> (p: Projective)
        ensures
            p.wf(),
            p@ == zero_coords(),
    {
        Projective { x: Base::zero(), y: Base::one(), t: Base::zero(), z: Base::one() }
    }

    /// The group inverse: negates `X` and `T`.
    pub fn neg(&self) -> (p: Projective)
        requires
            self.wf(),
        ensures
            p.wf(),
            p@ == neg_coords(self@),
    {
        Projective { x: base_neg(self.x), y: self.y, t: base_neg(self.t), z: self.z }
    }
}

/// Relies on ark-ec's `Add` for twisted-Edwards extended points.
#[verifier::external_body]
pub(crate) fn proj_add(a: &Projective, b: &Projective) -> (s: Projective)
    requires
        a.wf(),
        b.wf(),
    ensures
        s.wf(),
        s@ == edwards_add(a@, b@),
{
    let f = |c: &Base| Fq::from(BigInteger256(c.limbs));
    let g = |c: Fq| Base { limbs: c.into_repr().0 };
    let u = EdwardsProjective::new(f(&a.x), f(&a.y), f(&a.t), f(&a.z));
    let s = u + EdwardsProjective::new(f(&b.x), f(&b.y), f(&b.t), f(&b.z));
    Projective { x: g(s.x), y: g(s.y), t: g(s.t), z: g(s.z) }
}

/// Relies on ark-ec's `ProjectiveCurve::double` for twisted-Edwards
/// extended points.
#[verifier::external_body]
pub(crate) fn proj_double(a: &Projective) -> (d: Projective)
    requires
        a.wf(),
    ensures
        d.wf(),
        d@ == edwards_double(a@),
{
    let f = |c: &Base| Fq::from(BigInteger256(c.limbs));
    let g = |c: Fq| Base { limbs: c.into_repr().0 };
    let d = EdwardsProjective::new(f(&a.x), f(&a.y), f(&a.t), f(&a.z)).double();
    Projective { x: g(d.x), y: g(d.y), t: g(d.t), z: g(d.z) }
}

} // verus!
