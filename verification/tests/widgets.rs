use plonk_core::arithmetic::ArithmeticKernel;
use plonk_core::containers::{ChallengeSet, CoefficientArray, ScalarAccumulator};
use plonk_core::errors::ProofError;
use plonk_core::field::{fe_add, fe_eq, fe_from_u64, fe_inv, fe_mul, fe_neg, fe_one, fe_sub,
    fe_zero, FieldElem};
use plonk_core::getter::{get_value, PolyContainer};
use plonk_core::manifest::{label_index_exec, EvaluationType, PolynomialIndex, NUM_POLY_LABELS};
use plonk_core::transition::{ProverArithmeticWidget, VerifierArithmeticWidget};

fn fe(x: u64) -> FieldElem {
    fe_from_u64(x)
}

fn empty_columns() -> Vec<Option<Vec<FieldElem>>> {
    let mut v = Vec::new();
    for _ in 0..NUM_POLY_LABELS {
        v.push(None);
    }
    v
}

fn empty_claims() -> Vec<Option<FieldElem>> {
    let mut v = Vec::new();
    for _ in 0..NUM_POLY_LABELS {
        v.push(None);
    }
    v
}

fn set_col(cols: &mut Vec<Option<Vec<FieldElem>>>, id: PolynomialIndex, vals: &[u64]) {
    let mut c = Vec::new();
    for &x in vals {
        c.push(fe(x));
    }
    cols[label_index_exec(id)] = Some(c);
}

fn set_claim(vals: &mut Vec<Option<FieldElem>>, id: PolynomialIndex, v: FieldElem) {
    vals[label_index_exec(id)] = Some(v);
}

/// A 4-gate circuit satisfying `q_m·w1·w2 + q_1·w1 + q_2·w2 + q_3·w3 + q_c = 0`
/// at every gate: q_m = q_1 = q_2 = 1, q_3 = -1, q_c = 0, w3 = w1·w2 + w1 + w2.
fn satisfying_arith_container() -> PolyContainer {
    let mut cols = empty_columns();
    set_col(&mut cols, PolynomialIndex::W1, &[3, 1, 0, 7]);
    set_col(&mut cols, PolynomialIndex::W2, &[4, 2, 5, 1]);
    set_col(&mut cols, PolynomialIndex::W3, &[19, 5, 5, 15]);
    set_col(&mut cols, PolynomialIndex::QM, &[1, 1, 1, 1]);
    set_col(&mut cols, PolynomialIndex::Q1, &[1, 1, 1, 1]);
    set_col(&mut cols, PolynomialIndex::Q2, &[1, 1, 1, 1]);
    let minus_one = fe_neg(&fe_one());
    let q3 = vec![minus_one, minus_one, minus_one, minus_one];
    cols[label_index_exec(PolynomialIndex::Q3)] = Some(q3);
    set_col(&mut cols, PolynomialIndex::QC, &[0, 0, 0, 0]);
    PolyContainer::Evaluations { circuit_size: 4, columns: cols }
}

fn challenges() -> ChallengeSet {
    ChallengeSet::assemble(&fe(2), fe(3), fe(4), fe(0), fe(9), 3)
}

#[test]
fn field_ops_exact_values() {
    assert!(fe_eq(&fe_add(&fe(3), &fe(4)), &fe(7)));
    assert!(fe_eq(&fe_mul(&fe(3), &fe(4)), &fe(12)));
    assert!(fe_eq(&fe_sub(&fe(10), &fe(4)), &fe(6)));
    assert!(fe_eq(&fe_add(&fe(5), &fe_neg(&fe(5))), &fe_zero()));
    let inv = fe_inv(&fe(37)).unwrap();
    assert!(fe_eq(&fe_mul(&fe(37), &inv), &fe_one()));
    assert!(fe_inv(&fe_zero()).is_none());
    assert!(!fe_eq(&fe(1), &fe(2)));
}

#[test]
fn kernel_read_set_validates_at_setup() {
    let m = plonk_core::manifest::PolynomialManifest::new();
    assert!(ArithmeticKernel::validate_read_set(&m).is_ok());
}

#[test]
fn arith_linear_terms_exact() {
    let c = satisfying_arith_container();
    let lt = ArithmeticKernel::compute_linear_terms(&c, 0).unwrap();
    assert!(fe_eq(&lt.terms[0], &fe(12)));
    assert!(fe_eq(&lt.terms[1], &fe(3)));
    assert!(fe_eq(&lt.terms[2], &fe(4)));
    assert!(fe_eq(&lt.terms[3], &fe(19)));
}

#[test]
fn arith_sum_is_zero_on_satisfying_gates() {
    let c = satisfying_arith_container();
    let ch = challenges();
    for i in 0..4 {
        let lt = ArithmeticKernel::compute_linear_terms(&c, i).unwrap();
        let s = ArithmeticKernel::sum_linear_terms(&c, &ch, &lt, i).unwrap();
        assert!(fe_eq(&s, &fe_zero()));
    }
}

#[test]
fn prover_widget_zero_quotient_and_perturbation_rejects() {
    let ch = challenges();
    let widget = ProverArithmeticWidget::new();
    let c = satisfying_arith_container();
    let mut quotient = vec![fe_zero(), fe_zero(), fe_zero(), fe_zero()];
    let advanced = widget
        .compute_quotient_contribution(&c, &ch, &fe_one(), &mut quotient)
        .unwrap();
    for q in &quotient {
        assert!(fe_eq(q, &fe_zero()));
    }
    // The next widget's alpha base advances by one relation: 1 · alpha.
    assert!(fe_eq(&advanced, &fe(2)));

    // Perturbing a single witness makes the covered point nonzero and the
    // verifier-side check reject.
    let mut cols = empty_columns();
    set_col(&mut cols, PolynomialIndex::W1, &[3, 1, 9, 7]);
    set_col(&mut cols, PolynomialIndex::W2, &[4, 2, 5, 1]);
    set_col(&mut cols, PolynomialIndex::W3, &[19, 5, 5, 15]);
    set_col(&mut cols, PolynomialIndex::QM, &[1, 1, 1, 1]);
    set_col(&mut cols, PolynomialIndex::Q1, &[1, 1, 1, 1]);
    set_col(&mut cols, PolynomialIndex::Q2, &[1, 1, 1, 1]);
    let minus_one = fe_neg(&fe_one());
    cols[label_index_exec(PolynomialIndex::Q3)] =
        Some(vec![minus_one, minus_one, minus_one, minus_one]);
    set_col(&mut cols, PolynomialIndex::QC, &[0, 0, 0, 0]);
    let bad = PolyContainer::Evaluations { circuit_size: 4, columns: cols };
    let mut quotient2 = vec![fe_zero(), fe_zero(), fe_zero(), fe_zero()];
    widget
        .compute_quotient_contribution(&bad, &ch, &fe_one(), &mut quotient2)
        .unwrap();
    assert!(fe_eq(&quotient2[0], &fe_zero()));
    assert!(fe_eq(&quotient2[1], &fe_zero()));
    assert!(!fe_eq(&quotient2[2], &fe_zero()));
    assert!(fe_eq(&quotient2[3], &fe_zero()));

    // Verifier side on the perturbed gate's claims: nonzero evaluation.
    let mut values = empty_claims();
    let shifted = empty_claims();
    for id in [
        PolynomialIndex::W1,
        PolynomialIndex::W2,
        PolynomialIndex::W3,
        PolynomialIndex::QM,
        PolynomialIndex::Q1,
        PolynomialIndex::Q2,
        PolynomialIndex::Q3,
        PolynomialIndex::QC,
    ] {
        let v = get_value(
            &bad,
            &ArithmeticKernel::get_required_polynomial_ids(),
            EvaluationType::NonShifted,
            id,
            2,
        )
        .unwrap();
        set_claim(&mut values, id, v);
    }
    let claims = PolyContainer::Claims { values, shifted };
    let vw = VerifierArithmeticWidget::new();
    let mut eval = fe_zero();
    vw.compute_quotient_evaluation_contribution(&claims, &ch, &fe_one(), &mut eval)
        .unwrap();
    assert!(!fe_eq(&eval, &fe_zero()));
}

#[test]
fn prover_and_verifier_arith_contributions_agree() {
    // The same gate read through full evaluations and through opened claims
    // yields exactly the same contribution.
    let c = satisfying_arith_container();
    let ch = challenges();
    let i = 3;
    let allowed = ArithmeticKernel::get_required_polynomial_ids();
    let mut values = empty_claims();
    let shifted = empty_claims();
    for id in [
        PolynomialIndex::W1,
        PolynomialIndex::W2,
        PolynomialIndex::W3,
        PolynomialIndex::QM,
        PolynomialIndex::Q1,
        PolynomialIndex::Q2,
        PolynomialIndex::Q3,
        PolynomialIndex::QC,
    ] {
        let v = get_value(&c, &allowed, EvaluationType::NonShifted, id, i).unwrap();
        set_claim(&mut values, id, v);
    }
    let claims = PolyContainer::Claims { values, shifted };
    let lt_p = ArithmeticKernel::compute_linear_terms(&c, i).unwrap();
    let s_p = ArithmeticKernel::sum_linear_terms(&c, &ch, &lt_p, i).unwrap();
    let lt_v = ArithmeticKernel::compute_linear_terms(&claims, 0).unwrap();
    let s_v = ArithmeticKernel::sum_linear_terms(&claims, &ch, &lt_v, 0).unwrap();
    assert!(fe_eq(&s_p, &s_v));
}

#[test]
fn kate_update_is_linear_in_the_coefficients() {
    let ch = challenges();
    let k = fe(11);
    let lt = CoefficientArray { terms: vec![fe(12), fe(3), fe(4), fe(19)] };
    let lt_scaled = CoefficientArray {
        terms: vec![
            fe_mul(&k, &fe(12)),
            fe_mul(&k, &fe(3)),
            fe_mul(&k, &fe(4)),
            fe_mul(&k, &fe(19)),
        ],
    };
    let mut acc1 = ScalarAccumulator::new();
    let mut acc2 = ScalarAccumulator::new();
    ArithmeticKernel::update_kate_opening_scalars(&lt, &mut acc1, &ch).unwrap();
    ArithmeticKernel::update_kate_opening_scalars(&lt_scaled, &mut acc2, &ch).unwrap();
    for id in [
        PolynomialIndex::QM,
        PolynomialIndex::Q1,
        PolynomialIndex::Q2,
        PolynomialIndex::Q3,
    ] {
        let d1 = acc1.get(id);
        let d2 = acc2.get(id);
        assert!(fe_eq(&d2, &fe_mul(&k, &d1)));
    }
    // The constant selector's delta carries no coefficient: it is alpha on
    // both sides.
    assert!(fe_eq(&acc1.get(PolynomialIndex::QC), &acc2.get(PolynomialIndex::QC)));
}

#[test]
fn scalar_accumulation_is_additive_across_kernels() {
    // Two kernels touching the same label add their contributions; neither
    // overwrites the other.
    let ch = challenges();
    let lt1 = CoefficientArray { terms: vec![fe(12), fe(3), fe(4), fe(19)] };
    let lt2 = CoefficientArray { terms: vec![fe(2), fe(5), fe(8), fe(1)] };
    let mut acc = ScalarAccumulator::new();
    ArithmeticKernel::update_kate_opening_scalars(&lt1, &mut acc, &ch).unwrap();
    ArithmeticKernel::update_kate_opening_scalars(&lt2, &mut acc, &ch).unwrap();
    let alpha = fe(2);
    let expected_qm = fe_add(&fe_mul(&fe(12), &alpha), &fe_mul(&fe(2), &alpha));
    assert!(fe_eq(&acc.get(PolynomialIndex::QM), &expected_qm));
    let expected_qc = fe_add(&alpha, &alpha);
    assert!(fe_eq(&acc.get(PolynomialIndex::QC), &expected_qc));
}

#[test]
fn non_linear_terms_signal_contract_violation() {
    let c = satisfying_arith_container();
    let ch = challenges();
    let mut term = fe_zero();
    let r = ArithmeticKernel::compute_non_linear_terms(&c, &ch, &mut term, 0);
    assert_eq!(r, Err(ProofError::ContractViolation));
}

#[test]
fn getter_refuses_missing_polynomial_and_foreign_label() {
    let c = satisfying_arith_container();
    let allowed = ArithmeticKernel::get_required_polynomial_ids();
    // Q4 is not in the container, and also outside the declared read-set.
    let r = get_value(&c, &allowed, EvaluationType::NonShifted, PolynomialIndex::Q4, 0);
    assert!(matches!(r, Err(ProofError::MissingPolynomial)));
    // QArithmetic is outside the read-set even if the container had it.
    let r2 = get_value(
        &c,
        &allowed,
        EvaluationType::NonShifted,
        PolynomialIndex::QArithmetic,
        0,
    );
    assert!(matches!(r2, Err(ProofError::MissingPolynomial)));
    // An index beyond the domain fails too.
    let r3 = get_value(&c, &allowed, EvaluationType::NonShifted, PolynomialIndex::W1, 4);
    assert!(matches!(r3, Err(ProofError::MissingPolynomial)));
}

#[test]
fn missing_challenge_is_reported() {
    let c = satisfying_arith_container();
    let bare = ChallengeSet {
        alpha_powers: Vec::new(),
        beta: fe_zero(),
        gamma: fe_zero(),
        eta: fe_zero(),
        zeta: fe_zero(),
        flags: 0,
    };
    let lt = ArithmeticKernel::compute_linear_terms(&c, 0).unwrap();
    let r = ArithmeticKernel::sum_linear_terms(&c, &bare, &lt, 0);
    assert!(matches!(r, Err(ProofError::ChallengeUnavailable)));
}

#[test]
fn shifted_reads_wrap_only_at_the_final_point() {
    let mut cols = empty_columns();
    set_col(&mut cols, PolynomialIndex::W1, &[10, 20, 30, 40]);
    let c = PolyContainer::Evaluations { circuit_size: 4, columns: cols };
    let mut allowed = Vec::new();
    allowed.push(PolynomialIndex::W1);
    let s0 = get_value(&c, &allowed, EvaluationType::Shifted, PolynomialIndex::W1, 0).unwrap();
    let s3 = get_value(&c, &allowed, EvaluationType::Shifted, PolynomialIndex::W1, 3).unwrap();
    assert!(fe_eq(&s0, &fe(20)));
    assert!(fe_eq(&s3, &fe(10)));
}
