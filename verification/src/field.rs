//! The scalar field of the BN254 curve, modelled as the integers modulo its
//! prime order.  The arithmetic itself is done by the `ark_ff` backend; every
//! operation is exposed through a trusted wrapper whose contract states the
//! result over the model.

use vstd::prelude::*;

verus! {

/// Order of the BN254 scalar field, as declared by `ark_bn254::FrConfig`.
pub open spec fn field_order() -> nat {
    21888242871839275222246405745257275088548364400416034343698204186575808495617nat
}

/// A value is a canonical representative of the field.
pub open spec fn in_field(a: nat) -> bool {
    a < field_order()
}

/// Field addition on canonical representatives.
pub open spec fn fadd(a: nat, b: nat) -> nat {
    (a + b) % field_order()
}

/// Field multiplication on canonical representatives.
pub open spec fn fmul(a: nat, b: nat) -> nat {
    (a * b) % field_order()
}

/// Field negation on canonical representatives.
pub open spec fn fneg(a: nat) -> nat {
    ((field_order() - (a % field_order())) % (field_order() as int)) as nat
}

/// Field subtraction on canonical representatives.
pub open spec fn fsub(a: nat, b: nat) -> nat {
    fadd(a, fneg(b))
}

/// Opaque holder for the backend's field-element representation, which the
/// verifier cannot look into (its type is generic over backend traits).
#[verifier::external_body]
pub struct ScalarRepr(pub(crate) ark_bn254::Fr);

impl Clone for ScalarRepr {
    /// Relies on `ark_ff`'s `Copy` impl for field elements.
    #[verifier::external_body]
    fn clone(&self) -> (r: Self) {
        ScalarRepr(self.0)
    }
}

impl Copy for ScalarRepr {

}

/// The integer represented by four little-endian 64-bit limbs.
pub open spec fn limbs_value(l: [u64; 4]) -> nat {
    l[0] as nat + l[1] as nat * 0x10000000000000000nat + l[2] as nat
        * 0x100000000000000000000000000000000nat + l[3] as nat
        * 0x1000000000000000000000000000000000000000000000000nat
}

/// An element of the BN254 scalar field together with the limbs of its
/// canonical representative.
///
/// The backing `ark_bn254::Fr` is opaque to the verifier; the limbs are what
/// `into_bigint` yields for it, kept in step by the trusted wrappers below,
/// and they are what the verifier reasons about.
#[derive(Clone, Copy)]
pub struct FieldElem {
    pub(crate) inner: ScalarRepr,
    limbs: [u64; 4],
}

impl View for FieldElem {
    type V = nat;

    closed spec fn view(&self) -> nat {
        limbs_value(self.limbs)
    }
}

impl FieldElem {
    /// Every field element carries a canonical representative.
    #[verifier::type_invariant]
    pub closed spec fn inv(self) -> bool {
        in_field(self@)
    }
}

/// Relies on `ark_ff`: the additive identity of the field.
#[verifier::external_body]
pub fn fe_zero() -> (r: FieldElem)
    ensures
        r@ == 0,
{
    FieldElem { inner: ScalarRepr(<ark_bn254::Fr as ark_ff::Zero>::zero()), limbs: [0, 0, 0, 0] }
}

/// Relies on `ark_ff`: the multiplicative identity of the field.
#[verifier::external_body]
pub fn fe_one() -> (r: FieldElem)
    ensures
        r@ == 1,
{
    FieldElem { inner: ScalarRepr(<ark_bn254::Fr as ark_ff::One>::one()), limbs: [1, 0, 0, 0] }
}

/// Relies on `ark_ff::Fp::from`: a `u64` embeds into the field unchanged,
/// since the field order exceeds `u64::MAX`.
#[verifier::external_body]
pub fn fe_from_u64(x: u64) -> (r: FieldElem)
    ensures
        r@ == x as nat,
{
    FieldElem { inner: ScalarRepr(ark_bn254::Fr::from(x)), limbs: [x, 0, 0, 0] }
}

/// Relies on `ark_ff`'s `Add` impl: addition modulo the field order.
#[verifier::external_body]
pub fn fe_add(a: &FieldElem, b: &FieldElem) -> (r: FieldElem)
    ensures
        r@ == fadd(a@, b@),
{
    let inner = a.inner.0 + b.inner.0;
    FieldElem { inner: ScalarRepr(inner), limbs: ark_ff::PrimeField::into_bigint(inner).0 }
}

/// Relies on `ark_ff`'s `Mul` impl: multiplication modulo the field order.
#[verifier::external_body]
pub fn fe_mul(a: &FieldElem, b: &FieldElem) -> (r: FieldElem)
    ensures
        r@ == fmul(a@, b@),
{
    let inner = a.inner.0 * b.inner.0;
    FieldElem { inner: ScalarRepr(inner), limbs: ark_ff::PrimeField::into_bigint(inner).0 }
}

/// Relies on `ark_ff`'s `Sub` impl: subtraction modulo the field order.
#[verifier::external_body]
pub fn fe_sub(a: &FieldElem, b: &FieldElem) -> (r: FieldElem)
    ensures
        r@ == fsub(a@, b@),
{
    let inner = a.inner.0 - b.inner.0;
    FieldElem { inner: ScalarRepr(inner), limbs: ark_ff::PrimeField::into_bigint(inner).0 }
}

/// Relies on `ark_ff`'s `Neg` impl: negation modulo the field order.
#[verifier::external_body]
pub fn fe_neg(a: &FieldElem) -> (r: FieldElem)
    ensures
        r@ == fneg(a@),
{
    let inner = -a.inner.0;
    FieldElem { inner: ScalarRepr(inner), limbs: ark_ff::PrimeField::into_bigint(inner).0 }
}

/// Relies on `ark_ff::Field::inverse`: `None` exactly on zero, otherwise the
/// multiplicative inverse.
#[verifier::external_body]
pub fn fe_inv(a: &FieldElem) -> (r: Option<FieldElem>)
    ensures
        r is Some <==> a@ != 0,
        r is Some ==> fmul(a@, r->0@) == 1,
{
    match ark_ff::Field::inverse(&a.inner.0) {
        Option::Some(inner) => Option::Some(
            FieldElem { inner: ScalarRepr(inner), limbs: ark_ff::PrimeField::into_bigint(inner).0 },
        ),
        Option::None => Option::None,
    }
}

/// Relies on `ark_ff`'s `PartialEq` impl: canonical representations are equal
/// exactly when the represented values are.
#[verifier::external_body]
pub fn fe_eq(a: &FieldElem, b: &FieldElem) -> (r: bool)
    ensures
        r <==> a@ == b@,
{
    a.inner.0 == b.inner.0
}

} // verus!
