//! The arithmetic-gate kernel: the relation
//! `q_m·w1·w2 + q_1·w1 + q_2·w2 + q_3·w3 + q_c`, scaled by the first alpha
//! power.  The linear terms are computed once and shared verbatim between the
//! quotient check and the opening-scalar accumulation, so both use identical
//! arithmetic.

use vstd::prelude::*;

use crate::containers::{ChallengeSet, CoefficientArray, ScalarAccumulator, CHALLENGE_BIT_ALPHA};
use crate::errors::ProofError;
use crate::field::{fadd, fmul, fe_add, fe_mul, FieldElem};
use crate::getter::{container_wf, get_value, has_value, index_ok, value_spec, PolyContainer};
use crate::manifest::{label_index, EvaluationType, PolynomialIndex, PolynomialManifest,
    NUM_POLY_LABELS};

verus! {

/// The value the container holds for `id`, non-shifted, at index `i`.
pub open spec fn nsv(c: PolyContainer, id: PolynomialIndex, i: int) -> nat {
    value_spec(c, EvaluationType::NonShifted, id, i)
}

/// The read-set the arithmetic kernel declares.
pub open spec fn arith_read_set() -> Seq<PolynomialIndex> {
    seq![
        PolynomialIndex::Q1,
        PolynomialIndex::Q2,
        PolynomialIndex::Q3,
        PolynomialIndex::QM,
        PolynomialIndex::QC,
        PolynomialIndex::W1,
        PolynomialIndex::W2,
        PolynomialIndex::W3,
    ]
}

/// All the kernel's reads resolve in the container at index `i`.
pub open spec fn arith_inputs_ready(c: PolyContainer, i: int) -> bool {
    &&& has_value(c, EvaluationType::NonShifted, PolynomialIndex::W1)
    &&& has_value(c, EvaluationType::NonShifted, PolynomialIndex::W2)
    &&& has_value(c, EvaluationType::NonShifted, PolynomialIndex::W3)
    &&& has_value(c, EvaluationType::NonShifted, PolynomialIndex::Q1)
    &&& has_value(c, EvaluationType::NonShifted, PolynomialIndex::Q2)
    &&& has_value(c, EvaluationType::NonShifted, PolynomialIndex::Q3)
    &&& has_value(c, EvaluationType::NonShifted, PolynomialIndex::QM)
    &&& has_value(c, EvaluationType::NonShifted, PolynomialIndex::QC)
    &&& index_ok(c, i)
}

/// The linear terms of the arithmetic gate at index `i`:
/// `{w1·w2, w1, w2, w3}`.
pub open spec fn arith_linear_terms_spec(c: PolyContainer, i: int) -> Seq<nat> {
    let w1 = nsv(c, PolynomialIndex::W1, i);
    let w2 = nsv(c, PolynomialIndex::W2, i);
    let w3 = nsv(c, PolynomialIndex::W3, i);
    seq![fmul(w1, w2), w1, w2, w3]
}

/// The linear terms combined with the selector values at index `i` and
/// scaled by `alpha`:
/// `(lt0·q_m + lt1·q_1 + lt2·q_2 + lt3·q_3 + q_c)·alpha`.
pub open spec fn arith_sum_spec(c: PolyContainer, lt: Seq<nat>, alpha: nat, i: int) -> nat {
    fmul(
        fadd(
            fadd(
                fadd(
                    fadd(
                        fmul(lt[0], nsv(c, PolynomialIndex::QM, i)),
                        fmul(lt[1], nsv(c, PolynomialIndex::Q1, i)),
                    ),
                    fmul(lt[2], nsv(c, PolynomialIndex::Q2, i)),
                ),
                fmul(lt[3], nsv(c, PolynomialIndex::Q3, i)),
            ),
            nsv(c, PolynomialIndex::QC, i),
        ),
        alpha,
    )
}

/// The arithmetic gate's full quotient addition at index `i`.
pub open spec fn arith_gate_value(c: PolyContainer, alpha: nat, i: int) -> nat {
    arith_sum_spec(c, arith_linear_terms_spec(c, i), alpha, i)
}

/// The scalar-map deltas of the arithmetic kernel: each coefficient scaled
/// by `alpha` lands on the selector it pairs with, and `alpha` itself on the
/// constant selector.
pub open spec fn arith_scalar_updates(s: Seq<nat>, lt: Seq<nat>, alpha: nat) -> Seq<nat> {
    let qm = label_index(PolynomialIndex::QM);
    let q1 = label_index(PolynomialIndex::Q1);
    let q2 = label_index(PolynomialIndex::Q2);
    let q3 = label_index(PolynomialIndex::Q3);
    let qc = label_index(PolynomialIndex::QC);
    s.update(qm, fadd(s[qm], fmul(lt[0], alpha))).update(q1, fadd(s[q1], fmul(lt[1], alpha)))
        .update(q2, fadd(s[q2], fmul(lt[2], alpha))).update(
        q3,
        fadd(s[q3], fmul(lt[3], alpha)),
    ).update(qc, fadd(s[qc], alpha))
}

/// Per-relation arithmetic of the arithmetic gate.  One independent
/// relation; quotient and opening updates both need only the first alpha
/// power.
pub struct ArithmeticKernel {
}

impl ArithmeticKernel {
    /// Number of independent relations the kernel contributes.
    pub open spec fn num_independent_relations() -> int {
        1
    }

    /// Declares the kernel's exact read-set.
    pub fn get_required_polynomial_ids() -> (r: Vec<PolynomialIndex>)
        ensures
            r@ == arith_read_set(),
    {
        let mut r: Vec<PolynomialIndex> = Vec::new();
        r.push(PolynomialIndex::Q1);
        r.push(PolynomialIndex::Q2);
        r.push(PolynomialIndex::Q3);
        r.push(PolynomialIndex::QM);
        r.push(PolynomialIndex::QC);
        r.push(PolynomialIndex::W1);
        r.push(PolynomialIndex::W2);
        r.push(PolynomialIndex::W3);
        proof {
            assert(r@ =~= arith_read_set());
        }
        r
    }

    /// Validates the declared read-set against the manifest universe, once
    /// at setup; a failure here is a hard setup error, never deferred into
    /// the per-index hot loop.
    pub fn validate_read_set(m: &PolynomialManifest) -> (r: Result<(), ProofError>)
        requires
            m.wf(),
        ensures
            r is Ok <==> m.valid_read_set(arith_read_set()),
            r is Err ==> r->Err_0 == ProofError::ContractViolation,
    {
        let ids = Self::get_required_polynomial_ids();
        if m.validate_read_set(&ids) {
            Ok(())
        } else {
            Err(ProofError::ContractViolation)
        }
    }

    /// Challenges the quotient computation needs.
    pub fn quotient_required_challenges() -> (r: u8)
        ensures
            r == CHALLENGE_BIT_ALPHA,
    {
        CHALLENGE_BIT_ALPHA
    }

    /// Challenges the opening-scalar update needs.
    pub fn update_required_challenges() -> (r: u8)
        ensures
            r == CHALLENGE_BIT_ALPHA,
    {
        CHALLENGE_BIT_ALPHA
    }

    /// Computes the per-term coefficients from the witness values at `i`.
    pub fn compute_linear_terms(c: &PolyContainer, i: usize) -> (r: Result<
        CoefficientArray,
        ProofError,
    >)
        requires
            container_wf(*c),
        ensures
            r is Ok <==> (has_value(*c, EvaluationType::NonShifted, PolynomialIndex::W1)
                && has_value(*c, EvaluationType::NonShifted, PolynomialIndex::W2) && has_value(
                *c,
                EvaluationType::NonShifted,
                PolynomialIndex::W3,
            ) && index_ok(*c, i as int)),
            r is Ok ==> r->Ok_0@ == arith_linear_terms_spec(*c, i as int),
            r is Err ==> r->Err_0 == ProofError::MissingPolynomial,
    {
        let allowed = Self::get_required_polynomial_ids();
        proof {
            assert(arith_read_set()[5] == PolynomialIndex::W1);
            assert(arith_read_set()[6] == PolynomialIndex::W2);
            assert(arith_read_set()[7] == PolynomialIndex::W3);
        }
        let w1 = match get_value(c, &allowed, EvaluationType::NonShifted, PolynomialIndex::W1, i) {
            Ok(v) => v,
            Err(e) => {
                return Err(e);
            },
        };
        let w2 = match get_value(c, &allowed, EvaluationType::NonShifted, PolynomialIndex::W2, i) {
            Ok(v) => v,
            Err(e) => {
                return Err(e);
            },
        };
        let w3 = match get_value(c, &allowed, EvaluationType::NonShifted, PolynomialIndex::W3, i) {
            Ok(v) => v,
            Err(e) => {
                return Err(e);
            },
        };
        let mut terms: Vec<FieldElem> = Vec::new();
        terms.push(fe_mul(&w1, &w2));
        terms.push(w1);
        terms.push(w2);
        terms.push(w3);
        let r = CoefficientArray { terms };
        proof {
            assert(r@ =~= arith_linear_terms_spec(*c, i as int));
        }
        Ok(r)
    }

    /// Combines the coefficients with the selector values at `i` into this
    /// relation's scalar addition to the quotient numerator.
    pub fn sum_linear_terms(
        c: &PolyContainer,
        challenges: &ChallengeSet,
        lt: &CoefficientArray,
        i: usize,
    ) -> (r: Result<FieldElem, ProofError>)
        requires
            container_wf(*c),
            lt@.len() == 4,
        ensures
            r is Ok <==> (challenges.has(CHALLENGE_BIT_ALPHA) && challenges.alpha_powers@.len()
                >= 1 && arith_inputs_ready(*c, i as int)),
            r is Ok ==> r->Ok_0@ == arith_sum_spec(*c, lt@, challenges.alpha(), i as int),
            !(challenges.has(CHALLENGE_BIT_ALPHA) && challenges.alpha_powers@.len() >= 1) ==> r
                == Err::<FieldElem, ProofError>(ProofError::ChallengeUnavailable),
            r is Err ==> (r->Err_0 == ProofError::ChallengeUnavailable || r->Err_0
                == ProofError::MissingPolynomial),
    {
        if !challenges.has_challenges(CHALLENGE_BIT_ALPHA) || challenges.alpha_powers.len() < 1 {
            return Err(ProofError::ChallengeUnavailable);
        }
        let allowed = Self::get_required_polynomial_ids();
        proof {
            assert(arith_read_set()[0] == PolynomialIndex::Q1);
            assert(arith_read_set()[1] == PolynomialIndex::Q2);
            assert(arith_read_set()[2] == PolynomialIndex::Q3);
            assert(arith_read_set()[3] == PolynomialIndex::QM);
            assert(arith_read_set()[4] == PolynomialIndex::QC);
            assert(arith_read_set()[5] == PolynomialIndex::W1);
            assert(arith_read_set()[6] == PolynomialIndex::W2);
            assert(arith_read_set()[7] == PolynomialIndex::W3);
        }
        let q1 = match get_value(c, &allowed, EvaluationType::NonShifted, PolynomialIndex::Q1, i) {
            Ok(v) => v,
            Err(e) => {
                return Err(e);
            },
        };
        let q2 = match get_value(c, &allowed, EvaluationType::NonShifted, PolynomialIndex::Q2, i) {
            Ok(v) => v,
            Err(e) => {
                return Err(e);
            },
        };
        let q3 = match get_value(c, &allowed, EvaluationType::NonShifted, PolynomialIndex::Q3, i) {
            Ok(v) => v,
            Err(e) => {
                return Err(e);
            },
        };
        let qm = match get_value(c, &allowed, EvaluationType::NonShifted, PolynomialIndex::QM, i) {
            Ok(v) => v,
            Err(e) => {
                return Err(e);
            },
        };
        let qc = match get_value(c, &allowed, EvaluationType::NonShifted, PolynomialIndex::QC, i) {
            Ok(v) => v,
            Err(e) => {
                return Err(e);
            },
        };
        // The witness reads must also resolve for the kernel's inputs to be
        // ready; probe them so failure surfaces here, not silently.
        match get_value(c, &allowed, EvaluationType::NonShifted, PolynomialIndex::W1, i) {
            Ok(_) => (),
            Err(e) => {
                return Err(e);
            },
        };
        match get_value(c, &allowed, EvaluationType::NonShifted, PolynomialIndex::W2, i) {
            Ok(_) => (),
            Err(e) => {
                return Err(e);
            },
        };
        match get_value(c, &allowed, EvaluationType::NonShifted, PolynomialIndex::W3, i) {
            Ok(_) => (),
            Err(e) => {
                return Err(e);
            },
        };
        let alpha = challenges.alpha_powers[0];
        let mut acc = fe_mul(&lt.terms[0], &qm);
        acc = fe_add(&acc, &fe_mul(&lt.terms[1], &q1));
        acc = fe_add(&acc, &fe_mul(&lt.terms[2], &q2));
        acc = fe_add(&acc, &fe_mul(&lt.terms[3], &q3));
        acc = fe_add(&acc, &qc);
        Ok(fe_mul(&acc, &alpha))
    }

    /// The arithmetic gate has no non-linear terms; invoking this operation
    /// is a wiring defect and is reported as such, never silently ignored.
    pub fn compute_non_linear_terms(
        c: &PolyContainer,
        challenges: &ChallengeSet,
        quotient_term: &mut FieldElem,
        i: usize,
    ) -> (r: Result<(), ProofError>)
        ensures
            r == Err::<(), ProofError>(ProofError::ContractViolation),
            final(quotient_term)@ == old(quotient_term)@,
    {
        Err(ProofError::ContractViolation)
    }

    /// Adds each coefficient, scaled by alpha, into the scalar of the
    /// selector it pairs with (and alpha itself for the constant selector),
    /// for the combined opening check.
    pub fn update_kate_opening_scalars(
        lt: &CoefficientArray,
        scalars: &mut ScalarAccumulator,
        challenges: &ChallengeSet,
    ) -> (r: Result<(), ProofError>)
        requires
            old(scalars)@.len() == NUM_POLY_LABELS,
            lt@.len() == 4,
        ensures
            r is Ok <==> (challenges.has(CHALLENGE_BIT_ALPHA) && challenges.alpha_powers@.len()
                >= 1),
            r is Ok ==> final(scalars)@ == arith_scalar_updates(
                old(scalars)@,
                lt@,
                challenges.alpha(),
            ),
            r is Err ==> r->Err_0 == ProofError::ChallengeUnavailable && final(scalars)@ == old(
                scalars,
            )@,
    {
        if !challenges.has_challenges(CHALLENGE_BIT_ALPHA) || challenges.alpha_powers.len() < 1 {
            return Err(ProofError::ChallengeUnavailable);
        }
        let alpha = challenges.alpha_powers[0];
        scalars.accumulate(PolynomialIndex::QM, &fe_mul(&lt.terms[0], &alpha));
        scalars.accumulate(PolynomialIndex::Q1, &fe_mul(&lt.terms[1], &alpha));
        scalars.accumulate(PolynomialIndex::Q2, &fe_mul(&lt.terms[2], &alpha));
        scalars.accumulate(PolynomialIndex::Q3, &fe_mul(&lt.terms[3], &alpha));
        scalars.accumulate(PolynomialIndex::QC, &alpha);
        Ok(())
    }
}

} // verus!
