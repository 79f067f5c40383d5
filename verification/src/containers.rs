//! Per-invocation containers of the widget machinery: the derived challenge
//! powers a kernel may read, the per-index coefficient array a kernel
//! produces, and the scalar accumulator of the combined opening check.

use vstd::prelude::*;

use crate::algebra::{lemma_fadd_assoc, lemma_fadd_comm};
use crate::field::{fadd, fmul, fe_add, fe_mul, fe_zero, FieldElem};
use crate::manifest::{label_index, label_index_exec, PolynomialIndex, NUM_POLY_LABELS};

verus! {

/// Bit marking that the alpha powers are derived.
pub const CHALLENGE_BIT_ALPHA: u8 = 1;

/// Bit marking that beta is derived.
pub const CHALLENGE_BIT_BETA: u8 = 2;

/// Bit marking that gamma is derived.
pub const CHALLENGE_BIT_GAMMA: u8 = 4;

/// Bit marking that eta is derived.
pub const CHALLENGE_BIT_ETA: u8 = 8;

/// Bit marking that zeta is derived.
pub const CHALLENGE_BIT_ZETA: u8 = 16;

/// The values of a sequence of field elements.
pub open spec fn vals(s: Seq<FieldElem>) -> Seq<nat> {
    s.map_values(|x: FieldElem| x@)
}

/// The Fiat-Shamir challenges available to a kernel, with bit-flags saying
/// which of them the transcript has derived so far.  `alpha_powers[k]` holds
/// the `k+1`-th power of alpha.
pub struct ChallengeSet {
    pub alpha_powers: Vec<FieldElem>,
    pub beta: FieldElem,
    pub gamma: FieldElem,
    pub eta: FieldElem,
    pub zeta: FieldElem,
    pub flags: u8,
}

impl ChallengeSet {
    /// All challenges marked by `bits` are derived.
    pub open spec fn has(&self, bits: u8) -> bool {
        self.flags & bits == bits
    }

    /// At least `k` alpha powers are available, and consecutive entries
    /// differ by a factor of alpha.
    pub open spec fn alpha_ready(&self, k: int) -> bool {
        &&& self.has(CHALLENGE_BIT_ALPHA)
        &&& self.alpha_powers@.len() >= k
        &&& forall|j: int|
            1 <= j < self.alpha_powers@.len() ==> (#[trigger] self.alpha_powers@[j])@ == fmul(
                self.alpha_powers@[j - 1]@,
                self.alpha_powers@[0]@,
            )
    }

    /// The first power of alpha.
    pub open spec fn alpha(&self) -> nat {
        self.alpha_powers@[0]@
    }

    /// The `k+1`-th power of alpha.
    pub open spec fn alpha_power(&self, k: int) -> nat {
        self.alpha_powers@[k]@
    }

    /// Checks availability of the challenges marked by `bits`.
    pub fn has_challenges(&self, bits: u8) -> (r: bool)
        ensures
            r == self.has(bits),
    {
        self.flags & bits == bits
    }

    /// Derives a full challenge set from given challenge values, computing
    /// `count` consecutive powers of alpha.
    pub fn assemble(
        alpha: &FieldElem,
        beta: FieldElem,
        gamma: FieldElem,
        eta: FieldElem,
        zeta: FieldElem,
        count: usize,
    ) -> (r: ChallengeSet)
        requires
            count >= 1,
        ensures
            r.alpha_ready(count as int),
            r.alpha() == alpha@,
            r.beta@ == beta@,
            r.gamma@ == gamma@,
            r.eta@ == eta@,
            r.zeta@ == zeta@,
            r.has(CHALLENGE_BIT_ALPHA),
            r.has(CHALLENGE_BIT_BETA),
            r.has(CHALLENGE_BIT_GAMMA),
            r.has(CHALLENGE_BIT_ETA),
            r.has(CHALLENGE_BIT_ZETA),
    {
        let mut alpha_powers: Vec<FieldElem> = Vec::new();
        alpha_powers.push(*alpha);
        let mut k: usize = 1;
        while k < count
            invariant
                1 <= k,
                alpha_powers@.len() == k,
                alpha_powers@[0]@ == alpha@,
                forall|j: int|
                    1 <= j < k ==> (#[trigger] alpha_powers@[j])@ == fmul(
                        alpha_powers@[j - 1]@,
                        alpha_powers@[0]@,
                    ),
            decreases count - k,
        {
            let next = fe_mul(&alpha_powers[k - 1], alpha);
            alpha_powers.push(next);
            k = k + 1;
        }
        let flags: u8 = CHALLENGE_BIT_ALPHA | CHALLENGE_BIT_BETA | CHALLENGE_BIT_GAMMA
            | CHALLENGE_BIT_ETA | CHALLENGE_BIT_ZETA;
        proof {
            assert((1u8 | 2 | 4 | 8 | 16) & 1 == 1) by (bit_vector);
            assert((1u8 | 2 | 4 | 8 | 16) & 2 == 2) by (bit_vector);
            assert((1u8 | 2 | 4 | 8 | 16) & 4 == 4) by (bit_vector);
            assert((1u8 | 2 | 4 | 8 | 16) & 8 == 8) by (bit_vector);
            assert((1u8 | 2 | 4 | 8 | 16) & 16 == 16) by (bit_vector);
        }
        ChallengeSet { alpha_powers, beta, gamma, eta, zeta, flags }
    }
}

/// The per-term coefficients a kernel computes at one domain index; fresh at
/// every index, never reused across indices.
pub struct CoefficientArray {
    pub terms: Vec<FieldElem>,
}

impl View for CoefficientArray {
    type V = Seq<nat>;

    open spec fn view(&self) -> Seq<nat> {
        vals(self.terms@)
    }
}

/// The label-indexed scalar map of the combined opening check, pre-populated
/// with a zero for every label.  Entries change by read-modify-add only: a
/// kernel contributing to a label another kernel already touched adds to it,
/// it never overwrites.
pub struct ScalarAccumulator {
    entries: Vec<FieldElem>,
}

impl View for ScalarAccumulator {
    type V = Seq<nat>;

    closed spec fn view(&self) -> Seq<nat> {
        vals(self.entries@)
    }
}

impl ScalarAccumulator {
    /// One zero entry per label of the universe.
    pub fn new() -> (r: ScalarAccumulator)
        ensures
            r@.len() == NUM_POLY_LABELS,
            forall|k: int| 0 <= k < NUM_POLY_LABELS ==> r@[k] == 0,
    {
        let mut entries: Vec<FieldElem> = Vec::new();
        let mut k: usize = 0;
        while k < NUM_POLY_LABELS
            invariant
                k <= NUM_POLY_LABELS,
                entries@.len() == k,
                forall|j: int| 0 <= j < k ==> (#[trigger] entries@[j])@ == 0,
            decreases NUM_POLY_LABELS - k,
        {
            entries.push(fe_zero());
            k = k + 1;
        }
        proof {
            assert(vals(entries@).len() == entries@.len());
            assert(forall|j: int|
                0 <= j < NUM_POLY_LABELS ==> #[trigger] vals(entries@)[j] == entries@[j]@);
        }
        ScalarAccumulator { entries }
    }

    /// Adds `delta` into the scalar of `id`, leaving every other entry alone.
    pub fn accumulate(&mut self, id: PolynomialIndex, delta: &FieldElem)
        requires
            old(self)@.len() == NUM_POLY_LABELS,
        ensures
            final(self)@ == old(self)@.update(
                label_index(id),
                fadd(old(self)@[label_index(id)], delta@),
            ),
    {
        let idx = label_index_exec(id);
        let updated = fe_add(&self.entries[idx], delta);
        self.entries[idx] = updated;
        proof {
            assert(final(self)@ =~= old(self)@.update(
                label_index(id),
                fadd(old(self)@[label_index(id)], delta@),
            ));
        }
    }

    /// Reads the scalar of `id`.
    pub fn get(&self, id: PolynomialIndex) -> (r: FieldElem)
        requires
            self@.len() == NUM_POLY_LABELS,
        ensures
            r@ == self@[label_index(id)],
    {
        self.entries[label_index_exec(id)]
    }
}

/// Scalar-map accumulation is additive across kernels: two deltas added to
/// the same label compose to their sum, in either order — the second never
/// overwrites the first.
pub proof fn lemma_accumulate_additive(x: nat, d1: nat, d2: nat)
    ensures
        fadd(fadd(x, d1), d2) == fadd(x, fadd(d1, d2)),
        fadd(fadd(x, d1), d2) == fadd(fadd(x, d2), d1),
{
    lemma_fadd_assoc(x, d1, d2);
    lemma_fadd_assoc(x, d2, d1);
    lemma_fadd_comm(d1, d2);
}

} // verus!
