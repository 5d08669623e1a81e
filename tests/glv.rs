use ark_ec::{AffineCurve, ProjectiveCurve};
use ark_ff::{BigInteger256, PrimeField, Zero};
use bandersnatch::{EdwardsAffine, EdwardsProjective, Fq, Fr};
use glv_mul::{
    get_bits, get_decomposition, multi_scalar_mul, poor_man_glv, psi, Affine, Base, Projective,
    Scalar,
};
use std::str::FromStr;

const SCALAR: &str = "4257185345094557079734489188109952172285839137338142340240392707284963971010";
const K1: &str = "30417741863887432744214758610616508258";
const K2_NEG: &str = "6406990765953933188067911864924578940";
const PSI_G: &str = "(3995099504672814451457646880854530097687530507181962222512229786736061793535, \
     33370049900732270411777328808452912493896532385897059012214433666611661340894)";
const K_G: &str = "(6018810645516749504657411940673266094850700554607419759628157493373766067122, \
     13929928331741974885869757126422340790588975043986274897468601817898742989376)";
const LAMBDA: &str = "8913659658109529928382530854484400854125314752504019737736543920008458395397";

fn base(f: Fq) -> Base {
    Base { limbs: f.into_repr().0 }
}

fn fq(b: Base) -> Fq {
    Fq::from_repr(BigInteger256(b.limbs)).unwrap()
}

fn scalar(f: Fr) -> Scalar {
    Scalar { limbs: f.into_repr().0 }
}

fn fr(s: &str) -> Fr {
    Fr::from_str(s).unwrap()
}

fn affine(p: EdwardsAffine) -> Affine {
    Affine { x: base(p.x), y: base(p.y) }
}

fn projective(p: EdwardsProjective) -> Projective {
    Projective { x: base(p.x), y: base(p.y), t: base(p.t), z: base(p.z) }
}

fn to_ark(p: Projective) -> EdwardsProjective {
    EdwardsProjective::new(fq(p.x), fq(p.y), fq(p.t), fq(p.z))
}

fn point(s: &str) -> EdwardsAffine {
    EdwardsAffine::from_str(s).unwrap()
}

fn generator() -> EdwardsAffine {
    EdwardsAffine::prime_subgroup_generator()
}

#[test]
fn test_psi() {
    let base_point = generator();
    let psi_point = point(PSI_G);
    let t = psi(&affine(base_point));
    assert_eq!(to_ark(t).into_affine(), psi_point);
}

#[test]
fn test_decomp() {
    let k1 = fr(K1);
    let k2 = -fr(K2_NEG);
    assert_eq!(get_decomposition(scalar(fr(SCALAR))), (scalar(k1), scalar(k2)))
}

#[test]
fn test_msm() {
    let base_point = generator();
    let psi_point = point(PSI_G);
    let t = psi(&affine(base_point));
    assert_eq!(to_ark(t).into_affine(), psi_point);

    let s = fr(SCALAR);
    let k1 = fr(K1);
    let k2 = -fr(K2_NEG);
    assert_eq!(get_decomposition(scalar(s)), (scalar(k1), scalar(k2)));

    let res = point(K_G);
    let tmp = base_point.mul(s);
    let res2 = multi_scalar_mul(
        &affine(base_point),
        &scalar(k1),
        &projective(psi_point.into_projective()),
        &scalar(k2),
    );
    assert_eq!(tmp.into_affine(), res);
    assert_eq!(res, to_ark(res2).into_affine());
}

#[test]
fn glv_matches_known_answer() {
    let r = poor_man_glv(affine(generator()), scalar(fr(SCALAR)));
    assert_eq!(to_ark(r).into_affine(), point(K_G));
}

#[test]
fn glv_matches_direct_multiplication() {
    let g = generator();
    let p = g.mul(fr("987654321987654321")).into_affine();
    for s in ["1", "2", "3", "255", "340282366920938463463374607431768211457", SCALAR, LAMBDA] {
        let k = fr(s);
        for b in [g, p] {
            let r = poor_man_glv(affine(b), scalar(k));
            assert_eq!(to_ark(r).into_affine(), b.mul(k).into_affine());
        }
    }
}

#[test]
fn glv_largest_scalar() {
    let g = generator();
    let k = -Fr::from(1u64);
    let r = poor_man_glv(affine(g), scalar(k));
    assert_eq!(to_ark(r).into_affine(), g.mul(k).into_affine());
    assert_eq!(to_ark(r).into_affine(), -g);
}

#[test]
fn zero_scalar_gives_identity() {
    let g = generator();
    let zero = Scalar::zero();
    assert!(to_ark(poor_man_glv(affine(g), zero)).is_zero());
    assert_eq!(get_decomposition(zero), (zero, zero));
    let q = projective(g.mul(fr("17")));
    assert!(to_ark(multi_scalar_mul(&affine(g), &zero, &q, &zero)).is_zero());
    assert_eq!(multi_scalar_mul(&affine(g), &zero, &q, &zero), Projective::zero());
}

#[test]
fn decomposition_recombines() {
    let lambda = fr(LAMBDA);
    for s in ["0", "1", "12345678901234567890", SCALAR, LAMBDA] {
        let k = fr(s);
        let (k1, k2) = get_decomposition(scalar(k));
        let k1 = Fr::from_repr(BigInteger256(k1.limbs)).unwrap();
        let k2 = Fr::from_repr(BigInteger256(k2.limbs)).unwrap();
        assert_eq!(k1 + k2 * lambda, k);
    }
}

#[test]
fn endomorphism_acts_as_lambda() {
    let g = generator();
    let p = g.mul(fr("4242")).into_affine();
    let t = psi(&affine(p));
    assert_eq!(to_ark(t).into_affine(), p.mul(fr(LAMBDA)).into_affine());
}

#[test]
fn joint_multiplication_matches_sum() {
    let g = generator();
    let q = g.mul(fr("99991")).into_affine();
    let pairs = [("5", "7"), ("0", "11"), ("13", "0"), (K1, "3"), ("1", LAMBDA)];
    for (a, b) in pairs {
        for (s1, s2) in [(fr(a), fr(b)), (-fr(a), fr(b)), (fr(a), -fr(b)), (-fr(a), -fr(b))] {
            let r = multi_scalar_mul(&affine(g), &scalar(s1), &projective(q.into_projective()), &scalar(s2));
            let expect = g.mul(s1) + q.mul(s2);
            assert_eq!(to_ark(r).into_affine(), expect.into_affine());
        }
    }
}

#[test]
fn double_negation_keeps_contribution() {
    let g = generator();
    let q = projective(g.mul(fr("31337")));
    let s = fr("123456789");
    let once = multi_scalar_mul(&affine(g), &scalar(s), &q, &scalar(fr("2")));
    let twice = multi_scalar_mul(&affine(-(-g)), &scalar(-(-s)), &q, &scalar(fr("2")));
    assert_eq!(once, twice);
    let neg = multi_scalar_mul(&affine(-g), &scalar(-s), &q, &scalar(fr("2")));
    assert_eq!(to_ark(neg).into_affine(), to_ark(once).into_affine());
}

#[test]
fn bit_length() {
    let mut bits = vec![false; 256];
    assert_eq!(get_bits(&bits), 0);
    bits[0] = true;
    assert_eq!(get_bits(&bits), 1);
    bits[130] = true;
    assert_eq!(get_bits(&bits), 131);
    bits[255] = true;
    assert_eq!(get_bits(&bits), 256);
}

#[test]
fn projective_helpers() {
    let g = generator();
    let p = affine(g).into_projective();
    assert_eq!(to_ark(p).into_affine(), g);
    assert_eq!(to_ark(p.neg()).into_affine(), -g);
    assert!(to_ark(Projective::zero()).is_zero());
    assert_eq!(fq(Base::one()), Fq::from(1u64));
    assert_eq!(fq(Base::zero()), Fq::from(0u64));
}
