use plonk_core::containers::ChallengeSet;
use plonk_core::curve::{g1_generator, MsmPair};
use plonk_core::errors::ProofError;
use plonk_core::field::{fe_add, fe_eq, fe_from_u64, fe_mul, fe_one, fe_zero, FieldElem};
use plonk_core::getter::{get_value, PolyContainer};
use plonk_core::keys::{log2_ceil_exec, ProvingKeyData, VerificationKey};
use plonk_core::manifest::{label_index_exec, EvaluationType, PolynomialIndex,
    PolynomialManifest, NUM_POLY_LABELS};
use plonk_core::permutation::{perm_read_set_exec, ProverPermutationWidget,
    VerifierPermutationWidget};
use plonk_core::work_queue::WorkQueue;

fn gp_fe(x: u64) -> FieldElem {
    fe_from_u64(x)
}

fn gp_empty_columns() -> Vec<Option<Vec<FieldElem>>> {
    let mut v = Vec::new();
    for _ in 0..NUM_POLY_LABELS {
        v.push(None);
    }
    v
}

fn gp_set_col(cols: &mut Vec<Option<Vec<FieldElem>>>, id: PolynomialIndex, vals: &[u64]) {
    let mut c = Vec::new();
    for &x in vals {
        c.push(gp_fe(x));
    }
    cols[label_index_exec(id)] = Some(c);
}

fn gp_challenges() -> ChallengeSet {
    ChallengeSet::assemble(&gp_fe(2), gp_fe(3), gp_fe(4), gp_fe(0), gp_fe(9), 3)
}

/// A width-1 instance with explicit identity polynomials whose copy
/// constraints hold: wires 0 and 3 carry one value, wires 1 and 2 another,
/// and Sigma swaps them, so the numerator and denominator factor multisets
/// are equal.
fn gp_satisfying_key(w1: &[u64]) -> ProvingKeyData {
    let mut cols = gp_empty_columns();
    gp_set_col(&mut cols, PolynomialIndex::W1, w1);
    gp_set_col(&mut cols, PolynomialIndex::Id1, &[1, 2, 3, 4]);
    gp_set_col(&mut cols, PolynomialIndex::Sigma1, &[4, 3, 2, 1]);
    gp_set_col(&mut cols, PolynomialIndex::LagrangeFirst, &[1, 0, 0, 0]);
    gp_set_col(&mut cols, PolynomialIndex::LagrangeLast, &[0, 0, 0, 1]);
    let polys = PolyContainer::Evaluations { circuit_size: 4, columns: cols };
    ProvingKeyData {
        circuit_size: 4,
        polys,
        domain_elems: vec![gp_fe(1), gp_fe(1), gp_fe(1), gp_fe(1)],
        srs_points: vec![g1_generator(), g1_generator(), g1_generator(), g1_generator()],
    }
}

fn gp_factor(w: u64, idx: u64, beta: &FieldElem, gamma: &FieldElem) -> FieldElem {
    fe_add(&fe_add(&gp_fe(w), &fe_mul(beta, &gp_fe(idx))), gamma)
}

#[test]
fn grand_product_closes_for_satisfying_witness() {
    let ch = gp_challenges();
    let widget = ProverPermutationWidget::new(1, true);
    let mut key = gp_satisfying_key(&[5, 6, 6, 5]);
    let mut queue = WorkQueue::new();
    widget
        .compute_round_commitments(&mut key, &ch, 3, &mut queue)
        .unwrap();
    let allowed = perm_read_set_exec();
    let z0 = get_value(&key.polys, &allowed, EvaluationType::NonShifted, PolynomialIndex::Z, 0)
        .unwrap();
    assert!(fe_eq(&z0, &fe_one()));
    let z3 = get_value(&key.polys, &allowed, EvaluationType::NonShifted, PolynomialIndex::Z, 3)
        .unwrap();
    // Closure at the last domain point: Z wraps back to one, that is
    // Z[3]·num(3) == den(3).
    let num3 = gp_factor(5, 4, &ch.beta, &ch.gamma);
    let den3 = gp_factor(5, 1, &ch.beta, &ch.gamma);
    assert!(fe_eq(&fe_mul(&z3, &num3), &den3));
    // The commitment request was deferred, not computed.
    assert_eq!(queue.results().len(), 0);
    queue.flush();
    assert_eq!(queue.results().len(), 1);
    assert_eq!(queue.results()[0].label, PolynomialIndex::Z);
}

#[test]
fn grand_product_closure_breaks_on_perturbed_witness() {
    let ch = gp_challenges();
    let widget = ProverPermutationWidget::new(1, true);
    // One wire value changed: the multisets no longer match.
    let mut key = gp_satisfying_key(&[5, 6, 7, 5]);
    let mut queue = WorkQueue::new();
    widget
        .compute_round_commitments(&mut key, &ch, 3, &mut queue)
        .unwrap();
    let allowed = perm_read_set_exec();
    let z3 = get_value(&key.polys, &allowed, EvaluationType::NonShifted, PolynomialIndex::Z, 3)
        .unwrap();
    let num3 = gp_factor(5, 4, &ch.beta, &ch.gamma);
    let den3 = gp_factor(5, 1, &ch.beta, &ch.gamma);
    assert!(!fe_eq(&fe_mul(&z3, &num3), &den3));
}

#[test]
fn permutation_quotient_vanishes_on_satisfying_witness() {
    let ch = gp_challenges();
    let widget = ProverPermutationWidget::new(1, true);
    let mut key = gp_satisfying_key(&[5, 6, 6, 5]);
    let mut queue = WorkQueue::new();
    widget
        .compute_round_commitments(&mut key, &ch, 3, &mut queue)
        .unwrap();
    let mut quotient = vec![fe_zero(), fe_zero(), fe_zero(), fe_zero()];
    let advanced = widget
        .compute_quotient_contribution(&key, &ch, &fe_one(), &mut quotient)
        .unwrap();
    for q in &quotient {
        assert!(fe_eq(q, &fe_zero()));
    }
    // Three independent relations: the alpha base advances by alpha^3 = 8.
    assert!(fe_eq(&advanced, &gp_fe(8)));
}

#[test]
fn prover_and_verifier_permutation_contributions_agree() {
    let ch = gp_challenges();
    let widget = ProverPermutationWidget::new(1, true);
    let mut key = gp_satisfying_key(&[5, 6, 7, 5]);
    let mut queue = WorkQueue::new();
    widget
        .compute_round_commitments(&mut key, &ch, 3, &mut queue)
        .unwrap();
    // Prover-side contribution at index 1, with alpha base one.
    let mut quotient = vec![fe_zero(), fe_zero(), fe_zero(), fe_zero()];
    widget
        .compute_quotient_contribution(&key, &ch, &fe_one(), &mut quotient)
        .unwrap();
    // Verifier side: opened claims equal to the evaluations at index 1.
    let allowed = perm_read_set_exec();
    let mut values = Vec::new();
    let mut shifted = Vec::new();
    for _ in 0..NUM_POLY_LABELS {
        values.push(None);
        shifted.push(None);
    }
    for id in [
        PolynomialIndex::W1,
        PolynomialIndex::Sigma1,
        PolynomialIndex::Id1,
        PolynomialIndex::Z,
        PolynomialIndex::LagrangeFirst,
        PolynomialIndex::LagrangeLast,
    ] {
        let v = get_value(&key.polys, &allowed, EvaluationType::NonShifted, id, 1).unwrap();
        values[label_index_exec(id)] = Some(v);
    }
    let zs = get_value(&key.polys, &allowed, EvaluationType::Shifted, PolynomialIndex::Z, 1)
        .unwrap();
    shifted[label_index_exec(PolynomialIndex::Z)] = Some(zs);
    let claims = PolyContainer::Claims { values, shifted };
    let mut vkey = VerificationKey::new(4, 0, Vec::new(), 0);
    vkey.program_width = 1;
    let vw = VerifierPermutationWidget::new();
    let mut eval = fe_zero();
    let advanced = vw
        .compute_quotient_evaluation_contribution(&vkey, &claims, &ch, &fe_one(), &mut eval, true)
        .unwrap();
    assert!(fe_eq(&eval, &quotient[1]));
    assert!(fe_eq(&advanced, &gp_fe(8)));
}

#[test]
fn verifier_scalars_accumulate_for_z_and_sigma() {
    let ch = gp_challenges();
    let widget = ProverPermutationWidget::new(1, true);
    let mut key = gp_satisfying_key(&[5, 6, 6, 5]);
    let mut queue = WorkQueue::new();
    widget
        .compute_round_commitments(&mut key, &ch, 3, &mut queue)
        .unwrap();
    let allowed = perm_read_set_exec();
    let mut values = Vec::new();
    let mut shifted = Vec::new();
    for _ in 0..NUM_POLY_LABELS {
        values.push(None);
        shifted.push(None);
    }
    for id in [
        PolynomialIndex::W1,
        PolynomialIndex::Sigma1,
        PolynomialIndex::Id1,
        PolynomialIndex::Z,
        PolynomialIndex::LagrangeFirst,
        PolynomialIndex::LagrangeLast,
    ] {
        let v = get_value(&key.polys, &allowed, EvaluationType::NonShifted, id, 0).unwrap();
        values[label_index_exec(id)] = Some(v);
    }
    let zs = get_value(&key.polys, &allowed, EvaluationType::Shifted, PolynomialIndex::Z, 0)
        .unwrap();
    shifted[label_index_exec(PolynomialIndex::Z)] = Some(zs);
    let claims = PolyContainer::Claims { values, shifted };
    let mut vkey = VerificationKey::new(4, 0, Vec::new(), 0);
    vkey.program_width = 1;
    let vw = VerifierPermutationWidget::new();
    let mut scalars = plonk_core::containers::ScalarAccumulator::new();
    vw.append_scalar_multiplication_inputs(&vkey, &claims, &ch, &fe_one(), &mut scalars, true)
        .unwrap();
    // The Z scalar is num(0)·alpha + L1(0)·alpha^2, with alpha base one:
    // num(0) = 5 + 3·1 + 4 = 12, L1(0) = 1, alpha = 2.
    let expected_z = fe_add(&fe_mul(&gp_fe(12), &gp_fe(2)), &fe_mul(&gp_fe(1), &gp_fe(4)));
    assert!(fe_eq(&scalars.get(PolynomialIndex::Z), &expected_z));
    // The Sigma scalar is -beta·Z(shifted)·(partial denominator = 1)·alpha.
    let expected_sigma = plonk_core::field::fe_neg(
        &fe_mul(&fe_mul(&ch.beta, &zs), &fe_mul(&fe_one(), &gp_fe(2))),
    );
    assert!(fe_eq(&scalars.get(PolynomialIndex::Sigma1), &expected_sigma));
}

#[test]
fn zero_denominator_is_an_arithmetic_failure() {
    // gamma = 0, beta = 0 and a zero wire make a denominator factor zero.
    let bare = ChallengeSet {
        alpha_powers: vec![gp_fe(1), gp_fe(1), gp_fe(1)],
        beta: fe_zero(),
        gamma: fe_zero(),
        eta: fe_zero(),
        zeta: fe_zero(),
        flags: 31,
    };
    let widget = ProverPermutationWidget::new(1, true);
    let mut key = gp_satisfying_key(&[0, 6, 6, 5]);
    let mut queue = WorkQueue::new();
    let r = widget.compute_round_commitments(&mut key, &bare, 3, &mut queue);
    assert_eq!(r, Err(ProofError::ArithmeticFailure));
}

#[test]
fn other_rounds_are_a_no_op() {
    let ch = gp_challenges();
    let widget = ProverPermutationWidget::new(1, true);
    let mut key = gp_satisfying_key(&[5, 6, 6, 5]);
    let mut queue = WorkQueue::new();
    widget
        .compute_round_commitments(&mut key, &ch, 2, &mut queue)
        .unwrap();
    assert_eq!(queue.len(), 0);
    let allowed = perm_read_set_exec();
    let r = get_value(&key.polys, &allowed, EvaluationType::NonShifted, PolynomialIndex::Z, 0);
    assert!(matches!(r, Err(ProofError::MissingPolynomial)));
}

#[test]
fn flushing_an_empty_queue_is_a_no_op() {
    let mut queue = WorkQueue::new();
    queue.flush();
    assert_eq!(queue.results().len(), 0);
    assert_eq!(queue.len(), 0);
}

#[test]
fn flush_yields_one_result_per_request_and_is_idempotent() {
    let mut queue = WorkQueue::new();
    let pair = MsmPair { base: g1_generator(), scalar: gp_fe(2) };
    queue.enqueue(PolynomialIndex::Z, vec![pair]);
    queue.enqueue(PolynomialIndex::W1, vec![pair, pair]);
    queue.enqueue(PolynomialIndex::ZLookup, vec![]);
    queue.flush();
    assert_eq!(queue.results().len(), 3);
    assert_eq!(queue.results()[0].label, PolynomialIndex::Z);
    assert_eq!(queue.results()[1].label, PolynomialIndex::W1);
    assert_eq!(queue.results()[2].label, PolynomialIndex::ZLookup);
    // Processed requests are not recomputed on a re-flush.
    queue.flush();
    assert_eq!(queue.results().len(), 3);
    // A later request flushes alone.
    queue.enqueue(PolynomialIndex::S, vec![pair]);
    queue.flush();
    assert_eq!(queue.results().len(), 4);
    assert_eq!(queue.results()[3].label, PolynomialIndex::S);
}

#[test]
fn manifest_covers_the_fixed_universe() {
    let m = PolynomialManifest::new();
    assert_eq!(m.len(), NUM_POLY_LABELS);
    assert!(ProverPermutationWidget::validate_read_set(&m).is_ok());
    assert!(m.contains(PolynomialIndex::QElliptic));
    let ok_set = vec![PolynomialIndex::W1, PolynomialIndex::Q1];
    assert!(m.validate_read_set(&ok_set));
    let dup_set = vec![PolynomialIndex::W1, PolynomialIndex::W1];
    assert!(!m.validate_read_set(&dup_set));
}

#[test]
fn verification_key_records_sizes_and_commitments() {
    let vkey = VerificationKey::new(8, 2, vec![g1_generator()], 1);
    assert_eq!(vkey.circuit_size, 8);
    assert_eq!(vkey.log_circuit_size, 3);
    assert_eq!(vkey.num_public_inputs, 2);
    assert!(vkey.commitment(PolynomialIndex::QM).is_none());
    let mut vkey = vkey;
    vkey.set_commitment(PolynomialIndex::QM, g1_generator());
    assert!(vkey.commitment(PolynomialIndex::QM).is_some());
    assert!(vkey.commitment(PolynomialIndex::Q1).is_none());
    assert_eq!(log2_ceil_exec(1), 0);
    assert_eq!(log2_ceil_exec(8), 3);
    assert_eq!(log2_ceil_exec(9), 4);
}
