//! Key material the widgets consume.  The verification key is the immutable
//! per-circuit record of the verifier: sizes, domain data, one commitment
//! slot per manifest label, and the reference-string points needed for
//! opening verification.  The proving-key data carries the evaluated
//! polynomial columns, the domain elements, and the reference string the
//! prover commits with.  Both are read-only during widget execution.

use vstd::prelude::*;

use crate::curve::G1Point;
use crate::field::{fe_zero, FieldElem};
use crate::getter::{container_wf, PolyContainer};
use crate::manifest::{label_index, label_index_exec, PolynomialIndex, PolynomialManifest,
    NUM_POLY_LABELS};

verus! {

/// Ceiling of the base-two logarithm, by the recurrence
/// `ceil(log2(n)) == 1 + ceil(log2(ceil(n/2)))` for `n > 1`.
pub open spec fn log2_ceil(n: nat) -> nat
    decreases n,
{
    if n <= 1 {
        0
    } else {
        1 + log2_ceil((n + 1) / 2)
    }
}

/// Computes the ceiling of the base-two logarithm.
pub fn log2_ceil_exec(n: usize) -> (r: usize)
    requires
        n >= 1,
    ensures
        r == log2_ceil(n as nat),
{
    let mut v: usize = n;
    let mut r: usize = 0;
    while v > 1
        invariant
            v >= 1,
            r + v <= n + 1,
            log2_ceil(n as nat) == r + log2_ceil(v as nat),
        decreases v,
    {
        v = v / 2 + v % 2;
        r = r + 1;
    }
    r
}

/// What the prover-side widgets read: the circuit size, the evaluated
/// polynomial columns over the domain, the domain elements themselves (the
/// roots of unity, for the implicit-identity mode), and the reference-string
/// points commitments are formed over.
pub struct ProvingKeyData {
    pub circuit_size: usize,
    pub polys: PolyContainer,
    pub domain_elems: Vec<FieldElem>,
    pub srs_points: Vec<G1Point>,
}

impl ProvingKeyData {
    /// The columns cover the circuit's domain, and the domain and reference
    /// data cover it too.
    pub open spec fn wf(&self) -> bool {
        &&& container_wf(self.polys)
        &&& self.polys matches PolyContainer::Evaluations { circuit_size, columns }
            && circuit_size == self.circuit_size
        &&& self.domain_elems@.len() == self.circuit_size
        &&& self.srs_points@.len() >= self.circuit_size
        &&& self.circuit_size >= 1
    }
}

/// The immutable per-circuit record of the verifier.  Commitment slots
/// populate incrementally as the composer finalizes each precomputed
/// polynomial; nothing else ever changes after construction.
pub struct VerificationKey {
    pub composer_type: u32,
    pub circuit_size: usize,
    pub log_circuit_size: usize,
    pub num_public_inputs: usize,
    pub domain_generator: FieldElem,
    pub commitments: Vec<Option<G1Point>>,
    pub polynomial_manifest: PolynomialManifest,
    pub z_pow_n: FieldElem,
    pub contains_recursive_proof: bool,
    pub recursive_proof_public_input_indices: Vec<u32>,
    pub program_width: usize,
    pub reference_string: Vec<G1Point>,
}

impl Default for VerificationKey {
    /// An empty placeholder record: zero sizes, no commitments, no
    /// reference string.
    fn default() -> (r: VerificationKey)
        ensures
            r.circuit_size == 0,
            r.log_circuit_size == 0,
            r.num_public_inputs == 0,
            r.composer_type == 0,
            r.program_width == 0,
            r.commitments@.len() == 0,
            r.reference_string@.len() == 0,
            !r.contains_recursive_proof,
            r.recursive_proof_public_input_indices@.len() == 0,
            r.z_pow_n@ == 0,
            r.domain_generator@ == 0,
    {
        VerificationKey {
            composer_type: 0,
            circuit_size: 0,
            log_circuit_size: 0,
            num_public_inputs: 0,
            domain_generator: fe_zero(),
            commitments: Vec::new(),
            polynomial_manifest: PolynomialManifest::new(),
            z_pow_n: fe_zero(),
            contains_recursive_proof: false,
            recursive_proof_public_input_indices: Vec::new(),
            program_width: 0,
            reference_string: Vec::new(),
        }
    }
}

impl VerificationKey {
    /// One commitment slot per manifest label, a coherent size logarithm,
    /// and the full manifest.
    pub open spec fn wf(&self) -> bool {
        &&& self.commitments@.len() == NUM_POLY_LABELS
        &&& self.polynomial_manifest.wf()
        &&& self.circuit_size >= 1
        &&& self.log_circuit_size == log2_ceil(self.circuit_size as nat)
    }

    /// Builds the record from the circuit dimensions, the reference string
    /// and the composer tag; every commitment slot starts empty.
    pub fn new(
        circuit_size: usize,
        num_public_inputs: usize,
        reference_string: Vec<G1Point>,
        composer_type: u32,
    ) -> (r: VerificationKey)
        requires
            circuit_size >= 1,
        ensures
            r.wf(),
            r.circuit_size == circuit_size,
            r.num_public_inputs == num_public_inputs,
            r.composer_type == composer_type,
            r.reference_string@ == reference_string@,
            r.z_pow_n@ == 0,
            r.domain_generator@ == 0,
            !r.contains_recursive_proof,
            r.recursive_proof_public_input_indices@.len() == 0,
            r.program_width == 0,
            forall|k: int| 0 <= k < NUM_POLY_LABELS ==> r.commitments@[k] is None,
    {
        let log_circuit_size = log2_ceil_exec(circuit_size);
        let mut commitments: Vec<Option<G1Point>> = Vec::new();
        let mut k: usize = 0;
        while k < NUM_POLY_LABELS
            invariant
                k <= NUM_POLY_LABELS,
                commitments@.len() == k,
                forall|j: int| 0 <= j < k ==> commitments@[j] is None,
            decreases NUM_POLY_LABELS - k,
        {
            commitments.push(None);
            k = k + 1;
        }
        VerificationKey {
            composer_type,
            circuit_size,
            log_circuit_size,
            num_public_inputs,
            domain_generator: fe_zero(),
            commitments,
            polynomial_manifest: PolynomialManifest::new(),
            z_pow_n: fe_zero(),
            contains_recursive_proof: false,
            recursive_proof_public_input_indices: Vec::new(),
            program_width: 0,
            reference_string,
        }
    }

    /// Records the commitment of one finalized precomputed polynomial.
    pub fn set_commitment(&mut self, id: PolynomialIndex, point: G1Point)
        requires
            old(self).wf(),
        ensures
            final(self).wf(),
            final(self).commitments@ == old(self).commitments@.update(
                label_index(id),
                Some(point),
            ),
            final(self).circuit_size == old(self).circuit_size,
            final(self).log_circuit_size == old(self).log_circuit_size,
            final(self).num_public_inputs == old(self).num_public_inputs,
            final(self).composer_type == old(self).composer_type,
            final(self).program_width == old(self).program_width,
            final(self).polynomial_manifest == old(self).polynomial_manifest,
            final(self).reference_string@ == old(self).reference_string@,
    {
        let idx = label_index_exec(id);
        self.commitments[idx] = Some(point);
    }

    /// Reads the commitment slot of a label.
    pub fn commitment(&self, id: PolynomialIndex) -> (r: &Option<G1Point>)
        requires
            self.wf(),
        ensures
            *r == self.commitments@[label_index(id)],
    {
        &self.commitments[label_index_exec(id)]
    }
}

} // verus!
