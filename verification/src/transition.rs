//! The transition widget: it drives one kernel against one container over
//! the whole evaluation domain (prover) or at a single challenge point
//! (verifier), accumulating into the shared quotient numerator and, on the
//! verifier side, into the opening-scalar map.  After a widget finishes, the
//! returned value advances the caller's running `alpha_base` by the kernel's
//! independent-relation count, which keeps distinct relations on disjoint
//! alpha-power ranges.

use vstd::prelude::*;

use crate::algebra::{lemma_fadd_zero, lemma_fmul_assoc, lemma_fmul_zero};
use crate::arithmetic::{arith_gate_value, arith_inputs_ready, arith_linear_terms_spec,
    arith_scalar_updates, nsv, ArithmeticKernel};
use crate::containers::{ChallengeSet, ScalarAccumulator, CHALLENGE_BIT_ALPHA};
use crate::errors::ProofError;
use crate::field::{fadd, fe_add, fe_mul, fmul, in_field, FieldElem};
use crate::getter::{container_wf, domain_size, PolyContainer};
use crate::manifest::{PolynomialIndex, NUM_POLY_LABELS};

verus! {

/// Prover-side transition widget for the arithmetic kernel.
pub struct ProverArithmeticWidget {
}

impl ProverArithmeticWidget {
    /// A fresh widget; it carries no state of its own.
    pub fn new() -> (r: ProverArithmeticWidget) {
        ProverArithmeticWidget {  }
    }

    /// Accumulates `alpha_base · gate(i)` into `quotient[i]` for every
    /// domain index `i`, and returns the advanced alpha base
    /// `alpha_base · alpha` for the next widget.  On any failure the
    /// quotient is left untouched.
    pub fn compute_quotient_contribution(
        &self,
        c: &PolyContainer,
        challenges: &ChallengeSet,
        alpha_base: &FieldElem,
        quotient: &mut Vec<FieldElem>,
    ) -> (r: Result<FieldElem, ProofError>)
        requires
            container_wf(*c),
            old(quotient)@.len() == domain_size(*c),
        ensures
            r is Ok <==> (challenges.has(CHALLENGE_BIT_ALPHA) && challenges.alpha_powers@.len()
                >= 1 && arith_inputs_ready(*c, 0)),
            r is Ok ==> final(quotient)@.len() == old(quotient)@.len() && forall|i: int|
                0 <= i < domain_size(*c) ==> (#[trigger] final(quotient)@[i])@ == fadd(
                    old(quotient)@[i]@,
                    fmul(alpha_base@, arith_gate_value(*c, challenges.alpha(), i)),
                ),
            r is Ok ==> r->Ok_0@ == fmul(alpha_base@, challenges.alpha()),
            r is Err ==> final(quotient)@ == old(quotient)@,
            !(challenges.has(CHALLENGE_BIT_ALPHA) && challenges.alpha_powers@.len() >= 1) ==> r
                == Err::<FieldElem, ProofError>(ProofError::ChallengeUnavailable),
            r is Err ==> (r->Err_0 == ProofError::ChallengeUnavailable || r->Err_0
                == ProofError::MissingPolynomial),
    {
        if !challenges.has_challenges(CHALLENGE_BIT_ALPHA) || challenges.alpha_powers.len() < 1 {
            return Err(ProofError::ChallengeUnavailable);
        }
        // Probe index 0 so that a missing polynomial surfaces before any
        // quotient slot is touched.
        let probe = match ArithmeticKernel::compute_linear_terms(c, 0) {
            Ok(lt) => lt,
            Err(e) => {
                return Err(e);
            },
        };
        match ArithmeticKernel::sum_linear_terms(c, challenges, &probe, 0) {
            Ok(_) => (),
            Err(e) => {
                return Err(e);
            },
        };
        let n: usize = match c {
            PolyContainer::Evaluations { circuit_size, columns } => *circuit_size,
            PolyContainer::Claims { values, shifted } => 1,
        };
        let mut i: usize = 0;
        while i < n
            invariant
                container_wf(*c),
                n == domain_size(*c),
                i <= n,
                challenges.has(CHALLENGE_BIT_ALPHA),
                challenges.alpha_powers@.len() >= 1,
                arith_inputs_ready(*c, 0),
                quotient@.len() == n,
                old(quotient)@.len() == n,
                forall|j: int|
                    0 <= j < i ==> (#[trigger] quotient@[j])@ == fadd(
                        old(quotient)@[j]@,
                        fmul(alpha_base@, arith_gate_value(*c, challenges.alpha(), j)),
                    ),
                forall|j: int| i <= j < n ==> quotient@[j] == old(quotient)@[j],
            decreases n - i,
        {
            let lt = match ArithmeticKernel::compute_linear_terms(c, i) {
                Ok(lt) => lt,
                Err(e) => {
                    proof {
                        assert(false);
                    }
                    return Err(e);
                },
            };
            let s = match ArithmeticKernel::sum_linear_terms(c, challenges, &lt, i) {
                Ok(v) => v,
                Err(e) => {
                    proof {
                        assert(false);
                    }
                    return Err(e);
                },
            };
            let term = fe_mul(alpha_base, &s);
            let updated = fe_add(&quotient[i], &term);
            quotient[i] = updated;
            i = i + 1;
        }
        Ok(fe_mul(alpha_base, &challenges.alpha_powers[0]))
    }
}

/// Verifier-side transition widget for the arithmetic kernel: the identical
/// algebra, evaluated once at the opened claims, plus the opening-scalar
/// accumulation for the combined multi-scalar-multiplication check.
pub struct VerifierArithmeticWidget {
}

impl VerifierArithmeticWidget {
    /// A fresh widget; it carries no state of its own.
    pub fn new() -> (r: VerifierArithmeticWidget) {
        VerifierArithmeticWidget {  }
    }

    /// Accumulates `alpha_base · gate(0)` into the single quotient-numerator
    /// evaluation, and returns the advanced alpha base.
    pub fn compute_quotient_evaluation_contribution(
        &self,
        c: &PolyContainer,
        challenges: &ChallengeSet,
        alpha_base: &FieldElem,
        quotient_numerator_eval: &mut FieldElem,
    ) -> (r: Result<FieldElem, ProofError>)
        requires
            container_wf(*c),
        ensures
            r is Ok <==> (challenges.has(CHALLENGE_BIT_ALPHA) && challenges.alpha_powers@.len()
                >= 1 && arith_inputs_ready(*c, 0)),
            r is Ok ==> final(quotient_numerator_eval)@ == fadd(
                old(quotient_numerator_eval)@,
                fmul(alpha_base@, arith_gate_value(*c, challenges.alpha(), 0)),
            ),
            r is Ok ==> r->Ok_0@ == fmul(alpha_base@, challenges.alpha()),
            r is Err ==> final(quotient_numerator_eval)@ == old(quotient_numerator_eval)@,
            r is Err ==> (r->Err_0 == ProofError::ChallengeUnavailable || r->Err_0
                == ProofError::MissingPolynomial),
    {
        if !challenges.has_challenges(CHALLENGE_BIT_ALPHA) || challenges.alpha_powers.len() < 1 {
            return Err(ProofError::ChallengeUnavailable);
        }
        let lt = match ArithmeticKernel::compute_linear_terms(c, 0) {
            Ok(lt) => lt,
            Err(e) => {
                return Err(e);
            },
        };
        let s = match ArithmeticKernel::sum_linear_terms(c, challenges, &lt, 0) {
            Ok(v) => v,
            Err(e) => {
                return Err(e);
            },
        };
        let term = fe_mul(alpha_base, &s);
        let updated = fe_add(quotient_numerator_eval, &term);
        *quotient_numerator_eval = updated;
        Ok(fe_mul(alpha_base, &challenges.alpha_powers[0]))
    }

    /// Adds the kernel's opening-scalar deltas, computed from the opened
    /// claims, into the scalar map.
    pub fn append_scalar_multiplication_inputs(
        &self,
        c: &PolyContainer,
        challenges: &ChallengeSet,
        scalars: &mut ScalarAccumulator,
    ) -> (r: Result<(), ProofError>)
        requires
            container_wf(*c),
            old(scalars)@.len() == NUM_POLY_LABELS,
        ensures
            r is Ok <==> (challenges.has(CHALLENGE_BIT_ALPHA) && challenges.alpha_powers@.len()
                >= 1 && arith_inputs_ready(*c, 0)),
            r is Ok ==> final(scalars)@ == arith_scalar_updates(
                old(scalars)@,
                arith_linear_terms_spec(*c, 0),
                challenges.alpha(),
            ),
            r is Err ==> final(scalars)@ == old(scalars)@,
            r is Err ==> (r->Err_0 == ProofError::ChallengeUnavailable || r->Err_0
                == ProofError::MissingPolynomial),
    {
        if !challenges.has_challenges(CHALLENGE_BIT_ALPHA) || challenges.alpha_powers.len() < 1 {
            return Err(ProofError::ChallengeUnavailable);
        }
        let lt = match ArithmeticKernel::compute_linear_terms(c, 0) {
            Ok(lt) => lt,
            Err(e) => {
                return Err(e);
            },
        };
        // The quotient evaluation and the scalar update must agree on the
        // inputs they need; probe the selector reads too.
        match ArithmeticKernel::sum_linear_terms(c, challenges, &lt, 0) {
            Ok(_) => (),
            Err(e) => {
                return Err(e);
            },
        };
        match ArithmeticKernel::update_kate_opening_scalars(&lt, scalars, challenges) {
            Ok(()) => Ok(()),
            Err(e) => {
                proof {
                    assert(false);
                }
                Err(e)
            },
        }
    }
}

/// Prover/verifier consistency: the arithmetic gate computes the same value
/// from a claims container as from an evaluations container wherever the two
/// resolve the kernel's reads to the same values.
pub proof fn lemma_arith_prover_verifier_agree(
    ce: PolyContainer,
    cc: PolyContainer,
    alpha: nat,
    i: int,
)
    requires
        nsv(cc, PolynomialIndex::W1, 0) == nsv(ce, PolynomialIndex::W1, i),
        nsv(cc, PolynomialIndex::W2, 0) == nsv(ce, PolynomialIndex::W2, i),
        nsv(cc, PolynomialIndex::W3, 0) == nsv(ce, PolynomialIndex::W3, i),
        nsv(cc, PolynomialIndex::Q1, 0) == nsv(ce, PolynomialIndex::Q1, i),
        nsv(cc, PolynomialIndex::Q2, 0) == nsv(ce, PolynomialIndex::Q2, i),
        nsv(cc, PolynomialIndex::Q3, 0) == nsv(ce, PolynomialIndex::Q3, i),
        nsv(cc, PolynomialIndex::QM, 0) == nsv(ce, PolynomialIndex::QM, i),
        nsv(cc, PolynomialIndex::QC, 0) == nsv(ce, PolynomialIndex::QC, i),
    ensures
        arith_gate_value(cc, alpha, 0) == arith_gate_value(ce, alpha, i),
{
    assert(arith_linear_terms_spec(cc, 0) =~= arith_linear_terms_spec(ce, i));
}

/// Linearity of the opening-scalar update: scaling every linear-term
/// coefficient by a constant `k` scales the delta of every
/// coefficient-paired selector by `k`.  (The constant selector's delta is
/// `alpha` itself and carries no coefficient.)
pub proof fn lemma_kate_update_linear(lt: Seq<nat>, ltk: Seq<nat>, k: nat, alpha: nat)
    requires
        lt.len() == 4,
        ltk.len() == 4,
        forall|j: int| 0 <= j < 4 ==> ltk[j] == fmul(k, lt[j]),
    ensures
        forall|j: int| 0 <= j < 4 ==> #[trigger] fmul(ltk[j], alpha) == fmul(
            k,
            fmul(lt[j], alpha),
        ),
{
    assert forall|j: int| 0 <= j < 4 implies #[trigger] fmul(ltk[j], alpha) == fmul(
        k,
        fmul(lt[j], alpha),
    ) by {
        lemma_fmul_assoc(k, lt[j], alpha);
    }
}

/// Where the relation `q_m·w1·w2 + q_1·w1 + q_2·w2 + q_3·w3 + q_c` vanishes
/// at an index, nothing lands in the quotient numerator: the slot keeps its
/// old value.
pub proof fn lemma_satisfied_gate_contributes_zero(
    c: PolyContainer,
    alpha: nat,
    alpha_base: nat,
    q: nat,
    i: int,
)
    requires
        fadd(
            fadd(
                fadd(
                    fadd(
                        fmul(
                            fmul(nsv(c, PolynomialIndex::W1, i), nsv(c, PolynomialIndex::W2, i)),
                            nsv(c, PolynomialIndex::QM, i),
                        ),
                        fmul(nsv(c, PolynomialIndex::W1, i), nsv(c, PolynomialIndex::Q1, i)),
                    ),
                    fmul(nsv(c, PolynomialIndex::W2, i), nsv(c, PolynomialIndex::Q2, i)),
                ),
                fmul(nsv(c, PolynomialIndex::W3, i), nsv(c, PolynomialIndex::Q3, i)),
            ),
            nsv(c, PolynomialIndex::QC, i),
        ) == 0,
        in_field(q),
    ensures
        arith_gate_value(c, alpha, i) == 0,
        fadd(q, fmul(alpha_base, arith_gate_value(c, alpha, i))) == q,
{
    lemma_fmul_zero(alpha);
    lemma_fmul_zero(alpha_base);
    lemma_fadd_zero(q);
}

} // verus!
