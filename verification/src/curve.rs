//! Opaque curve points of BN254 and the multi-scalar multiplication the work
//! queue performs.  The group arithmetic is entirely the outside library's;
//! nothing is claimed of the computed points — the queue's own guarantees
//! are about which requests are performed, and when.

use vstd::prelude::*;

use crate::field::FieldElem;

verus! {

/// Opaque holder for an affine point of the BN254 G1 group.
#[verifier::external_body]
pub struct G1Point(pub(crate) ark_bn254::G1Affine);

impl Clone for G1Point {
    /// Relies on `ark_ec`'s `Copy` impl for affine points.
    #[verifier::external_body]
    fn clone(&self) -> (r: Self) {
        G1Point(self.0)
    }
}

impl Copy for G1Point {

}

/// Relies on `ark_ec::AffineRepr::generator`: the group's fixed generator.
#[verifier::external_body]
pub fn g1_generator() -> (r: G1Point) {
    G1Point(<ark_bn254::G1Affine as ark_ec::AffineRepr>::generator())
}

/// One (base point, scalar) pair of a multi-scalar-multiplication request.
#[derive(Clone, Copy)]
pub struct MsmPair {
    pub base: G1Point,
    pub scalar: FieldElem,
}

/// The multi-scalar multiplication of a pair sequence: the sum of each base
/// point scaled by its scalar.  The point itself is opaque here; the name
/// records that it is a function of the pairs alone.
pub uninterp spec fn msm_of(pairs: Seq<MsmPair>) -> G1Point;

/// Relies on `ark_ec::VariableBaseMSM::msm_unchecked`: the sum of each base
/// point scaled by its scalar, a deterministic function of the pairs.
#[verifier::external_body]
pub fn msm_points(pairs: &Vec<MsmPair>) -> (r: G1Point)
    ensures
        r == msm_of(pairs@),
{
    let bases: std::vec::Vec<ark_bn254::G1Affine> = pairs.iter().map(|p| p.base.0).collect();
    let scalars: std::vec::Vec<ark_bn254::Fr> = pairs.iter().map(|p| p.scalar.inner.0).collect();
    let acc = <ark_bn254::G1Projective as ark_ec::VariableBaseMSM>::msm_unchecked(
        &bases,
        &scalars,
    );
    G1Point(ark_ec::CurveGroup::into_affine(acc))
}

} // verus!
