//! GLV scalar multiplication on the Bandersnatch curve: an efficiently
//! computable endomorphism, a lattice decomposition of the scalar into two
//! half-width scalars, and a joint double-and-add over both.

mod field;
mod curve;
mod msm;
mod endo;
mod decomp;
mod glv;

pub use field::{Base, Scalar};
pub use curve::{Affine, Projective};
pub use msm::{get_bits, multi_scalar_mul};
pub use endo::psi;
pub use decomp::get_decomposition;
pub use glv::poor_man_glv;

