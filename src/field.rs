//! Field elements of the base and scalar fields as canonical limbs, and the
//! arithmetic on them that arkworks and num-bigint carry out.

use vstd::prelude::*;
use ark_ff::BigInteger;
use ark_ff::BigInteger256;
use num_bigint::BigUint;
use vstd::arithmetic::power2::pow2;

verus! {

/// The base-field prime `q` of the curve (the scalar field of BLS12-381).
pub open spec fn q() -> int {
    limbs4(0xffffffff00000001, 0x53bda402fffe5bfe, 0x3339d80809a1d805, 0x73eda753299d7d48)
}

/// The prime order `r` of the curve's main subgroup.
pub open spec fn r() -> int {
    limbs4(0x74fd06b52876e7e1, 0xff8f870074190471, 0x0cce760202687600, 0x1cfb69d4ca675f52)
}

/// The weight of one 64-bit limb.
pub open spec fn limb_base() -> int {
    0x1_0000_0000_0000_0000
}

/// The integer with little-endian 64-bit limbs `l0`, `l1`, `l2`, `l3`.
pub open spec fn limbs4(l0: int, l1: int, l2: int, l3: int) -> int {
    l0 + limb_base() * (l1 + limb_base() * (l2 + limb_base() * l3))
}

/// The integer held by four little-endian 64-bit limbs.
pub open spec fn limbs_val(l: [u64; 4]) -> int {
    limbs4(l[0] as int, l[1] as int, l[2] as int, l[3] as int)
}

/// The integer held by little-endian 32-bit digits.
pub open spec fn digits_val(d: Seq<u32>) -> int
    decreases d.len(),
{
    if d.len() == 0 {
        0
    } else {
        d[0] as int + 0x1_0000_0000 * digits_val(d.drop_first())
    }
}

/// Bit `i` of a nonnegative integer, counting from the least significant.
pub open spec fn bit(n: int, i: nat) -> bool {
    (n / (pow2(i) as int)) % 2 == 1
}

/// An element of the base field, held as its canonical representative in
/// little-endian limbs.
#[derive(Clone, Copy, Debug, PartialEq, Eq)]
pub struct Base {
    pub limbs: [u64; 4],
}

/// An element of the scalar field, held as its canonical representative in
/// little-endian limbs.
#[derive(Clone, Copy, Debug, PartialEq, Eq)]
pub struct Scalar {
    pub limbs: [u64; 4],
}

impl Base {
    pub open spec fn val(self) -> int {
        limbs_val(self.limbs)
    }

    /// The representative is reduced modulo `q`.
    pub open spec fn wf(self) -> bool {
        self.val() < q()
    }

    pub fn zero() -> (z: Base)
        ensures
            z.wf(),
            z.val() == 0,
    {
        Base { limbs: [0, 0, 0, 0] }
    }

    pub fn one() -> (z: Base)
        ensures
            z.wf(),
            z.val() == 1,
    {
        Base { limbs: [1, 0, 0, 0] }
    }
}

impl Scalar {
    pub open spec fn val(self) -> int {
        limbs_val(self.limbs)
    }

    /// The representative is reduced modulo `r`.
    pub open spec fn wf(self) -> bool {
        self.val() < r()
    }

    pub fn zero() -> (z: Scalar)
        ensures
            z.wf(),
            z.val() == 0,
    {
        Scalar { limbs: [0, 0, 0, 0] }
    }
}

/// Relies on `Add` of ark-ff's prime field: the sum modulo `q`.
#[verifier::external_body]
pub(crate) fn base_add(a: Base, b: Base) -> (s: Base)
    requires
        a.wf(),
        b.wf(),
    ensures
        s.wf(),
        s.val() == (a.val() + b.val()) % q(),
{
    let x = bandersnatch::Fq::from(BigInteger256(a.limbs));
    let y = bandersnatch::Fq::from(BigInteger256(b.limbs));
    let s: BigInteger256 = (x + y).into();
    Base { limbs: s.0 }
}

/// Relies on `Mul` of ark-ff's prime field: the product modulo `q`.
#[verifier::external_body]
pub(crate) fn base_mul(a: Base, b: Base) -> (p: Base)
    requires
        a.wf(),
        b.wf(),
    ensures
        p.wf(),
        p.val() == (a.val() * b.val()) % q(),
{
    let x = bandersnatch::Fq::from(BigInteger256(a.limbs));
    let y = bandersnatch::Fq::from(BigInteger256(b.limbs));
    let p: BigInteger256 = (x * y).into();
    Base { limbs: p.0 }
}

/// Relies on `Neg` of ark-ff's prime field: the additive inverse modulo `q`.
#[verifier::external_body]
pub(crate) fn base_neg(a: Base) -> (n: Base)
    requires
        a.wf(),
    ensures
        n.wf(),
        n.val() == (q() - a.val()) % q(),
{
    let x = bandersnatch::Fq::from(BigInteger256(a.limbs));
    let n: BigInteger256 = (-x).into();
    Base { limbs: n.0 }
}

/// Relies on `Add` of ark-ff's prime field: the sum modulo `r`.
#[verifier::external_body]
pub(crate) fn scalar_add(a: Scalar, b: Scalar) -> (s: Scalar)
    requires
        a.wf(),
        b.wf(),
    ensures
        s.wf(),
        s.val() == (a.val() + b.val()) % r(),
{
    let x = bandersnatch::Fr::from(BigInteger256(a.limbs));
    let y = bandersnatch::Fr::from(BigInteger256(b.limbs));
    let s: BigInteger256 = (x + y).into();
    Scalar { limbs: s.0 }
}

/// Relies on `Sub` of ark-ff's prime field: the difference modulo `r`.
#[verifier::external_body]
pub(crate) fn scalar_sub(a: Scalar, b: Scalar) -> (d: Scalar)
    requires
        a.wf(),
        b.wf(),
    ensures
        d.wf(),
        d.val() == (a.val() - b.val() + r()) % r(),
{
    let x = bandersnatch::Fr::from(BigInteger256(a.limbs));
    let y = bandersnatch::Fr::from(BigInteger256(b.limbs));
    let d: BigInteger256 = (x - y).into();
    Scalar { limbs: d.0 }
}

/// Relies on `Mul` of ark-ff's prime field: the product modulo `r`.
#[verifier::external_body]
pub(crate) fn scalar_mul(a: Scalar, b: Scalar) -> (p: Scalar)
    requires
        a.wf(),
        b.wf(),
    ensures
        p.wf(),
        p.val() == (a.val() * b.val()) % r(),
{
    let x = bandersnatch::Fr::from(BigInteger256(a.limbs));
    let y = bandersnatch::Fr::from(BigInteger256(b.limbs));
    let p: BigInteger256 = (x * y).into();
    Scalar { limbs: p.0 }
}

/// Relies on `Neg` of ark-ff's prime field: the additive inverse modulo `r`.
#[verifier::external_body]
pub(crate) fn scalar_neg(a: Scalar) -> (n: Scalar)
    requires
        a.wf(),
    ensures
        n.wf(),
        n.val() == (r() - a.val()) % r(),
{
    let x = bandersnatch::Fr::from(BigInteger256(a.limbs));
    let n: BigInteger256 = (-x).into();
    Scalar { limbs: n.0 }
}

/// Relies on `Ord` of ark-ff's prime field, which compares canonical
/// representatives as integers.
#[verifier::external_body]
pub(crate) fn scalar_gt(a: Scalar, b: Scalar) -> (g: bool)
    requires
        a.wf(),
        b.wf(),
    ensures
        g == (a.val() > b.val()),
{
    let x = bandersnatch::Fr::from(BigInteger256(a.limbs));
    let y = bandersnatch::Fr::from(BigInteger256(b.limbs));
    x > y
}

/// Relies on ark-ff's `BigInteger::to_bits_le`: 256 bits, least significant
/// first.
#[verifier::external_body]
pub(crate) fn bits_le(a: Scalar) -> (bits: Vec<bool>)
    ensures
        bits@.len() == 256,
        forall|i: int| 0 <= i < 256 ==> bits@[i] == bit(a.val(), i as nat),
{
    BigInteger256(a.limbs).to_bits_le()
}

/// Relies on num-bigint's `Mul` for `BigUint`: the exact product.
#[verifier::external_body]
pub(crate) fn big_mul(a: Scalar, b: Scalar) -> (p: Vec<u32>)
    ensures
        digits_val(p@) == a.val() * b.val(),
{
    let x: BigUint = BigInteger256(a.limbs).into();
    let y: BigUint = BigInteger256(b.limbs).into();
    (x * y).to_u32_digits()
}

/// Relies on num-bigint's `Div` for `BigUint`: floor division, which panics
/// on a zero divisor.
#[verifier::external_body]
pub(crate) fn big_div(a: &Vec<u32>, m: [u64; 4]) -> (d: Vec<u32>)
    requires
        limbs_val(m) > 0,
    ensures
        digits_val(d@) == digits_val(a@) / limbs_val(m),
{
    let x = BigUint::new(a.clone());
    let y: BigUint = BigInteger256(m).into();
    (x / y).to_u32_digits()
}

/// Relies on ark-ff's `From<BigUint>` for its prime field: reduction
/// modulo `r`.
#[verifier::external_body]
pub(crate) fn scalar_from_digits(a: &Vec<u32>) -> (s: Scalar)
    ensures
        s.wf(),
        s.val() == digits_val(a@) % r(),
{
    let x = bandersnatch::Fr::from(BigUint::new(a.clone()));
    let s: BigInteger256 = x.into();
    Scalar { limbs: s.0 }
}

} // verus!
