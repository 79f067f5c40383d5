//! The permutation (copy-constraint) widget: the grand-product argument.
//! The prover builds the running-product polynomial Z from the wire values
//! and the permutation polynomials Sigma (against identity polynomials Id,
//! or the implicit coset identities), defers Z's commitment to the work
//! queue, and contributes the identity
//! `Z(x)·numerator(x) − Z(x·ω)·denominator(x)` plus the LagrangeFirst /
//! LagrangeLast boundary terms to the quotient.  The verifier mirrors the
//! same algebra on opened claims and accumulates opening scalars.

use vstd::prelude::*;

use crate::algebra::{lemma_fmul_cancel, lemma_fprod_multiset, lemma_grand_product_step,
    lemma_seq_fprod_invertible, seq_fprod};
use crate::arithmetic::nsv;
use crate::containers::{vals, ChallengeSet, ScalarAccumulator, CHALLENGE_BIT_ALPHA,
    CHALLENGE_BIT_BETA, CHALLENGE_BIT_GAMMA};
use crate::errors::ProofError;
use crate::field::{fadd, fmul, fneg, fsub, fe_add, fe_from_u64, fe_inv, fe_mul, fe_neg, fe_one,
    fe_sub, field_order, in_field, FieldElem};
use crate::curve::MsmPair;
use crate::getter::{container_wf, get_value, has_value, index_ok, set_column, value_spec,
    PolyContainer};
use crate::work_queue::WorkQueue;
use crate::keys::{ProvingKeyData, VerificationKey};
use crate::manifest::{label_index, EvaluationType, PolynomialIndex, PolynomialManifest,
    NUM_POLY_LABELS};

verus! {

/// The ghost parameters of one permutation-argument instance: which identity
/// mode is active, how many wires take part, the beta and gamma challenges,
/// and the per-index identity base (the domain elements for a prover, the
/// evaluation challenge for a verifier).
pub struct PermContext {
    pub idpolys: bool,
    pub width: int,
    pub beta: nat,
    pub gamma: nat,
    pub dom: Seq<nat>,
}

/// The wire label of column `j`.
pub open spec fn wire_label(j: int) -> PolynomialIndex {
    if j == 0 {
        PolynomialIndex::W1
    } else if j == 1 {
        PolynomialIndex::W2
    } else if j == 2 {
        PolynomialIndex::W3
    } else {
        PolynomialIndex::W4
    }
}

/// The permutation label of column `j`.
pub open spec fn sigma_label(j: int) -> PolynomialIndex {
    if j == 0 {
        PolynomialIndex::Sigma1
    } else if j == 1 {
        PolynomialIndex::Sigma2
    } else if j == 2 {
        PolynomialIndex::Sigma3
    } else {
        PolynomialIndex::Sigma4
    }
}

/// The identity label of column `j`.
pub open spec fn id_label(j: int) -> PolynomialIndex {
    if j == 0 {
        PolynomialIndex::Id1
    } else if j == 1 {
        PolynomialIndex::Id2
    } else if j == 2 {
        PolynomialIndex::Id3
    } else {
        PolynomialIndex::Id4
    }
}

/// The coset shift of column `j` in the implicit-identity mode.
pub open spec fn coset_shift(j: int) -> nat {
    if j == 0 {
        1
    } else if j == 1 {
        5
    } else if j == 2 {
        6
    } else {
        7
    }
}

/// The identity value of column `j` at index `i`: the Id polynomial when
/// identity polynomials are active, the shifted identity base otherwise.
pub open spec fn id_value(c: PolyContainer, px: PermContext, j: int, i: int) -> nat {
    if px.idpolys {
        nsv(c, id_label(j), i)
    } else {
        fmul(coset_shift(j), px.dom[i])
    }
}

/// One numerator factor: `w_j + beta·id_j + gamma`.
pub open spec fn num_factor(c: PolyContainer, px: PermContext, j: int, i: int) -> nat {
    fadd(fadd(nsv(c, wire_label(j), i), fmul(px.beta, id_value(c, px, j, i))), px.gamma)
}

/// One denominator factor: `w_j + beta·sigma_j + gamma`.
pub open spec fn den_factor(c: PolyContainer, px: PermContext, j: int, i: int) -> nat {
    fadd(fadd(nsv(c, wire_label(j), i), fmul(px.beta, nsv(c, sigma_label(j), i))), px.gamma)
}

/// Product of the first `j` numerator factors at index `i`.
pub open spec fn num_prod(c: PolyContainer, px: PermContext, i: int, j: int) -> nat
    decreases j,
{
    if j <= 0 {
        1
    } else {
        fmul(num_prod(c, px, i, j - 1), num_factor(c, px, j - 1, i))
    }
}

/// Product of the first `j` denominator factors at index `i`.
pub open spec fn den_prod(c: PolyContainer, px: PermContext, i: int, j: int) -> nat
    decreases j,
{
    if j <= 0 {
        1
    } else {
        fmul(den_prod(c, px, i, j - 1), den_factor(c, px, j - 1, i))
    }
}

/// The full numerator of row `i`.
pub open spec fn num_row(c: PolyContainer, px: PermContext, i: int) -> nat {
    num_prod(c, px, i, px.width)
}

/// The full denominator of row `i`.
pub open spec fn den_row(c: PolyContainer, px: PermContext, i: int) -> nat {
    den_prod(c, px, i, px.width)
}

/// Product of the row numerators of the first `k` rows.
pub open spec fn num_prefix(c: PolyContainer, px: PermContext, k: int) -> nat
    decreases k,
{
    if k <= 0 {
        1
    } else {
        fmul(num_prefix(c, px, k - 1), num_row(c, px, k - 1))
    }
}

/// Product of the row denominators of the first `k` rows.
pub open spec fn den_prefix(c: PolyContainer, px: PermContext, k: int) -> nat
    decreases k,
{
    if k <= 0 {
        1
    } else {
        fmul(den_prefix(c, px, k - 1), den_row(c, px, k - 1))
    }
}

/// Some field value inverts row `k`'s denominator.
pub open spec fn row_invertible(c: PolyContainer, px: PermContext, k: int) -> bool {
    exists|e: nat| #[trigger] fmul(den_row(c, px, k), e) == 1
}

/// The wire, sigma and (when active) identity reads of the first `width`
/// columns all resolve, and the index lies in the domain.
pub open spec fn perm_row_inputs_ready(c: PolyContainer, px: PermContext, i: int) -> bool {
    &&& index_ok(c, i)
    &&& forall|j: int|
        0 <= j < px.width ==> has_value(c, EvaluationType::NonShifted, #[trigger] wire_label(j))
    &&& forall|j: int|
        0 <= j < px.width ==> has_value(c, EvaluationType::NonShifted, #[trigger] sigma_label(j))
    &&& px.idpolys ==> forall|j: int|
        0 <= j < px.width ==> has_value(c, EvaluationType::NonShifted, #[trigger] id_label(j))
}

/// The read-set the permutation widget declares.
pub open spec fn perm_read_set() -> Seq<PolynomialIndex> {
    seq![
        PolynomialIndex::W1,
        PolynomialIndex::W2,
        PolynomialIndex::W3,
        PolynomialIndex::W4,
        PolynomialIndex::Sigma1,
        PolynomialIndex::Sigma2,
        PolynomialIndex::Sigma3,
        PolynomialIndex::Sigma4,
        PolynomialIndex::Id1,
        PolynomialIndex::Id2,
        PolynomialIndex::Id3,
        PolynomialIndex::Id4,
        PolynomialIndex::Z,
        PolynomialIndex::LagrangeFirst,
        PolynomialIndex::LagrangeLast,
    ]
}

/// Each per-column label of the read-set is present in it.
pub proof fn lemma_perm_read_set_has(j: int)
    requires
        0 <= j < 4,
    ensures
        perm_read_set().contains(wire_label(j)),
        perm_read_set().contains(sigma_label(j)),
        perm_read_set().contains(id_label(j)),
{
    assert(perm_read_set()[j] == wire_label(j));
    assert(perm_read_set()[j + 4] == sigma_label(j));
    assert(perm_read_set()[j + 8] == id_label(j));
}

/// The boundary and running-product labels of the read-set.
pub proof fn lemma_perm_read_set_has_aux()
    ensures
        perm_read_set().contains(PolynomialIndex::Z),
        perm_read_set().contains(PolynomialIndex::LagrangeFirst),
        perm_read_set().contains(PolynomialIndex::LagrangeLast),
{
    assert(perm_read_set()[12] == PolynomialIndex::Z);
    assert(perm_read_set()[13] == PolynomialIndex::LagrangeFirst);
    assert(perm_read_set()[14] == PolynomialIndex::LagrangeLast);
}

/// Builds the declared read-set.
pub fn perm_read_set_exec() -> (r: Vec<PolynomialIndex>)
    ensures
        r@ == perm_read_set(),
{
    let mut r: Vec<PolynomialIndex> = Vec::new();
    r.push(PolynomialIndex::W1);
    r.push(PolynomialIndex::W2);
    r.push(PolynomialIndex::W3);
    r.push(PolynomialIndex::W4);
    r.push(PolynomialIndex::Sigma1);
    r.push(PolynomialIndex::Sigma2);
    r.push(PolynomialIndex::Sigma3);
    r.push(PolynomialIndex::Sigma4);
    r.push(PolynomialIndex::Id1);
    r.push(PolynomialIndex::Id2);
    r.push(PolynomialIndex::Id3);
    r.push(PolynomialIndex::Id4);
    r.push(PolynomialIndex::Z);
    r.push(PolynomialIndex::LagrangeFirst);
    r.push(PolynomialIndex::LagrangeLast);
    proof {
        assert(r@ =~= perm_read_set());
    }
    r
}

/// The wire label of a column, by value.
pub fn wire_label_exec(j: usize) -> (r: PolynomialIndex)
    requires
        j < 4,
    ensures
        r == wire_label(j as int),
{
    if j == 0 {
        PolynomialIndex::W1
    } else if j == 1 {
        PolynomialIndex::W2
    } else if j == 2 {
        PolynomialIndex::W3
    } else {
        PolynomialIndex::W4
    }
}

/// The permutation label of a column, by value.
pub fn sigma_label_exec(j: usize) -> (r: PolynomialIndex)
    requires
        j < 4,
    ensures
        r == sigma_label(j as int),
{
    if j == 0 {
        PolynomialIndex::Sigma1
    } else if j == 1 {
        PolynomialIndex::Sigma2
    } else if j == 2 {
        PolynomialIndex::Sigma3
    } else {
        PolynomialIndex::Sigma4
    }
}

/// The identity label of a column, by value.
pub fn id_label_exec(j: usize) -> (r: PolynomialIndex)
    requires
        j < 4,
    ensures
        r == id_label(j as int),
{
    if j == 0 {
        PolynomialIndex::Id1
    } else if j == 1 {
        PolynomialIndex::Id2
    } else if j == 2 {
        PolynomialIndex::Id3
    } else {
        PolynomialIndex::Id4
    }
}

/// The coset shift of a column, by value.
pub fn coset_shift_exec(j: usize) -> (r: FieldElem)
    requires
        j < 4,
    ensures
        r@ == coset_shift(j as int),
{
    if j == 0 {
        fe_from_u64(1)
    } else if j == 1 {
        fe_from_u64(5)
    } else if j == 2 {
        fe_from_u64(6)
    } else {
        fe_from_u64(7)
    }
}

/// Computes one row's numerator and denominator products.
pub(crate) fn compute_row(
    c: &PolyContainer,
    allowed: &Vec<PolynomialIndex>,
    beta: &FieldElem,
    gamma: &FieldElem,
    dom_i: &FieldElem,
    width: usize,
    idpolys: bool,
    i: usize,
    px: Ghost<PermContext>,
) -> (r: Result<(FieldElem, FieldElem), ProofError>)
    requires
        container_wf(*c),
        allowed@ == perm_read_set(),
        1 <= width <= 4,
        px@.width == width,
        px@.idpolys == idpolys,
        px@.beta == beta@,
        px@.gamma == gamma@,
        !idpolys ==> px@.dom[i as int] == dom_i@,
    ensures
        r is Ok <==> perm_row_inputs_ready(*c, px@, i as int),
        r is Ok ==> (r->Ok_0).0@ == num_row(*c, px@, i as int) && (r->Ok_0).1@ == den_row(
            *c,
            px@,
            i as int,
        ),
        r is Err ==> r->Err_0 == ProofError::MissingPolynomial,
{
    let mut nf = fe_one();
    let mut df = fe_one();
    let mut j: usize = 0;
    while j < width
        invariant
            container_wf(*c),
            allowed@ == perm_read_set(),
            1 <= width <= 4,
            j <= width,
            px@.width == width,
            px@.idpolys == idpolys,
            px@.beta == beta@,
            px@.gamma == gamma@,
            !idpolys ==> px@.dom[i as int] == dom_i@,
            nf@ == num_prod(*c, px@, i as int, j as int),
            df@ == den_prod(*c, px@, i as int, j as int),
            index_ok(*c, i as int) || j == 0,
            j > 0 ==> index_ok(*c, i as int),
            forall|j2: int|
                0 <= j2 < j ==> has_value(*c, EvaluationType::NonShifted, #[trigger] wire_label(
                    j2,
                )),
            forall|j2: int|
                0 <= j2 < j ==> has_value(*c, EvaluationType::NonShifted, #[trigger] sigma_label(
                    j2,
                )),
            idpolys ==> forall|j2: int|
                0 <= j2 < j ==> has_value(*c, EvaluationType::NonShifted, #[trigger] id_label(j2)),
        decreases width - j,
    {
        proof {
            lemma_perm_read_set_has(j as int);
        }
        let wl = wire_label_exec(j);
        let sl = sigma_label_exec(j);
        let wv = match get_value(c, allowed, EvaluationType::NonShifted, wl, i) {
            Ok(v) => v,
            Err(e) => {
                return Err(e);
            },
        };
        let sv = match get_value(c, allowed, EvaluationType::NonShifted, sl, i) {
            Ok(v) => v,
            Err(e) => {
                return Err(e);
            },
        };
        let idv = if idpolys {
            let il = id_label_exec(j);
            match get_value(c, allowed, EvaluationType::NonShifted, il, i) {
                Ok(v) => v,
                Err(e) => {
                    return Err(e);
                },
            }
        } else {
            fe_mul(&coset_shift_exec(j), dom_i)
        };
        let nfact = fe_add(&fe_add(&wv, &fe_mul(beta, &idv)), gamma);
        let dfact = fe_add(&fe_add(&wv, &fe_mul(beta, &sv)), gamma);
        nf = fe_mul(&nf, &nfact);
        df = fe_mul(&df, &dfact);
        j = j + 1;
    }
    Ok((nf, df))
}

/// The Z column and the boundary indicators resolve too.
pub open spec fn perm_quotient_ready(c: PolyContainer, px: PermContext, i: int) -> bool {
    &&& perm_row_inputs_ready(c, px, i)
    &&& has_value(c, EvaluationType::NonShifted, PolynomialIndex::Z)
    &&& has_value(c, EvaluationType::Shifted, PolynomialIndex::Z)
    &&& has_value(c, EvaluationType::NonShifted, PolynomialIndex::LagrangeFirst)
    &&& has_value(c, EvaluationType::NonShifted, PolynomialIndex::LagrangeLast)
}

/// The permutation relation's addition to the quotient numerator at index
/// `i`: the grand-product identity scaled by the first alpha power, plus the
/// LagrangeFirst boundary term (`Z = 1` at the first point) on the second
/// and the LagrangeLast boundary term (`Z` wraps to one) on the third.
pub open spec fn perm_row_term(
    c: PolyContainer,
    px: PermContext,
    a1: nat,
    a2: nat,
    a3: nat,
    i: int,
) -> nat {
    let zc = nsv(c, PolynomialIndex::Z, i);
    let zs = value_spec(c, EvaluationType::Shifted, PolynomialIndex::Z, i);
    let t1 = fsub(fmul(zc, num_row(c, px, i)), fmul(zs, den_row(c, px, i)));
    let t2 = fmul(nsv(c, PolynomialIndex::LagrangeFirst, i), fsub(zc, 1));
    let t3 = fmul(nsv(c, PolynomialIndex::LagrangeLast, i), fsub(zs, 1));
    fadd(fadd(fmul(t1, a1), fmul(t2, a2)), fmul(t3, a3))
}

/// The row prefixes are canonical representatives.
pub proof fn lemma_prefix_in_field(c: PolyContainer, px: PermContext, k: int)
    ensures
        in_field(num_prefix(c, px, k)),
        in_field(den_prefix(c, px, k)),
    decreases k,
{
    if k <= 0 {
    } else {
        vstd::arithmetic::div_mod::lemma_mod_bound(
            (num_prefix(c, px, k - 1) * num_row(c, px, k - 1)) as int,
            field_order() as int,
        );
        vstd::arithmetic::div_mod::lemma_mod_bound(
            (den_prefix(c, px, k - 1) * den_row(c, px, k - 1)) as int,
            field_order() as int,
        );
    }
}

/// Computes one row's full quotient term.
pub(crate) fn compute_row_term(
    c: &PolyContainer,
    allowed: &Vec<PolynomialIndex>,
    challenges: &ChallengeSet,
    dom_i: &FieldElem,
    width: usize,
    idpolys: bool,
    i: usize,
    px: Ghost<PermContext>,
) -> (r: Result<FieldElem, ProofError>)
    requires
        container_wf(*c),
        allowed@ == perm_read_set(),
        1 <= width <= 4,
        px@.width == width,
        px@.idpolys == idpolys,
        px@.beta == challenges.beta@,
        px@.gamma == challenges.gamma@,
        !idpolys ==> px@.dom[i as int] == dom_i@,
        challenges.alpha_powers@.len() >= 3,
    ensures
        r is Ok <==> perm_quotient_ready(*c, px@, i as int),
        r is Ok ==> r->Ok_0@ == perm_row_term(
            *c,
            px@,
            challenges.alpha_powers@[0]@,
            challenges.alpha_powers@[1]@,
            challenges.alpha_powers@[2]@,
            i as int,
        ),
        r is Err ==> r->Err_0 == ProofError::MissingPolynomial,
{
    let row = match compute_row(
        c,
        allowed,
        &challenges.beta,
        &challenges.gamma,
        dom_i,
        width,
        idpolys,
        i,
        px,
    ) {
        Ok(v) => v,
        Err(e) => {
            return Err(e);
        },
    };
    let nf = row.0;
    let df = row.1;
    proof {
        lemma_perm_read_set_has_aux();
    }
    let zc = match get_value(c, allowed, EvaluationType::NonShifted, PolynomialIndex::Z, i) {
        Ok(v) => v,
        Err(e) => {
            return Err(e);
        },
    };
    let zs = match get_value(c, allowed, EvaluationType::Shifted, PolynomialIndex::Z, i) {
        Ok(v) => v,
        Err(e) => {
            return Err(e);
        },
    };
    let l1 = match get_value(
        c,
        allowed,
        EvaluationType::NonShifted,
        PolynomialIndex::LagrangeFirst,
        i,
    ) {
        Ok(v) => v,
        Err(e) => {
            return Err(e);
        },
    };
    let ll = match get_value(
        c,
        allowed,
        EvaluationType::NonShifted,
        PolynomialIndex::LagrangeLast,
        i,
    ) {
        Ok(v) => v,
        Err(e) => {
            return Err(e);
        },
    };
    let one = fe_one();
    let t1 = fe_sub(&fe_mul(&zc, &nf), &fe_mul(&zs, &df));
    let t2 = fe_mul(&l1, &fe_sub(&zc, &one));
    let t3 = fe_mul(&ll, &fe_sub(&zs, &one));
    let a1 = challenges.alpha_powers[0];
    let a2 = challenges.alpha_powers[1];
    let a3 = challenges.alpha_powers[2];
    Ok(fe_add(&fe_add(&fe_mul(&t1, &a1), &fe_mul(&t2, &a2)), &fe_mul(&t3, &a3)))
}

/// Prover-side permutation widget: builds the running product Z, defers its
/// commitment to the work queue, and contributes the grand-product identity
/// to the quotient numerator.
pub struct ProverPermutationWidget {
    pub program_width: usize,
    pub idpolys: bool,
}

impl ProverPermutationWidget {
    /// The wire count is one of the supported widths.
    pub open spec fn wf(&self) -> bool {
        1 <= self.program_width <= 4
    }

    /// The ghost permutation parameters this widget works under, for a
    /// prover key: the identity base is the sequence of domain elements.
    pub open spec fn prover_ctx(&self, ch: ChallengeSet, key: ProvingKeyData) -> PermContext {
        PermContext {
            idpolys: self.idpolys,
            width: self.program_width as int,
            beta: ch.beta@,
            gamma: ch.gamma@,
            dom: vals(key.domain_elems@),
        }
    }

    /// Validates the widget's declared read-set against the manifest
    /// universe, once at setup.
    pub fn validate_read_set(m: &PolynomialManifest) -> (r: Result<(), ProofError>)
        requires
            m.wf(),
        ensures
            r is Ok <==> m.valid_read_set(perm_read_set()),
            r is Err ==> r->Err_0 == ProofError::ContractViolation,
    {
        let ids = perm_read_set_exec();
        if m.validate_read_set(&ids) {
            Ok(())
        } else {
            Err(ProofError::ContractViolation)
        }
    }

    /// A widget for the given wire count and identity mode.
    pub fn new(program_width: usize, idpolys: bool) -> (r: ProverPermutationWidget)
        requires
            1 <= program_width <= 4,
        ensures
            r.wf(),
            r.program_width == program_width,
            r.idpolys == idpolys,
    {
        ProverPermutationWidget { program_width, idpolys }
    }

    /// Builds the running-product column: entry 0 is one, and each entry,
    /// multiplied by the denominator-row prefix, equals the numerator-row
    /// prefix.  Fails with `MissingPolynomial` where a read cannot resolve
    /// and with `ArithmeticFailure` where a row denominator is zero.
    #[verifier::rlimit(80)]
    fn compute_grand_product(&self, key: &ProvingKeyData, challenges: &ChallengeSet) -> (r:
        Result<Vec<FieldElem>, ProofError>)
        requires
            key.wf(),
            self.wf(),
        ensures
            r is Ok <==> (perm_row_inputs_ready(
                key.polys,
                self.prover_ctx(*challenges, *key),
                0,
            ) && forall|k: int|
                0 <= k < key.circuit_size ==> den_row(
                    key.polys,
                    self.prover_ctx(*challenges, *key),
                    k,
                ) != 0),
            !perm_row_inputs_ready(key.polys, self.prover_ctx(*challenges, *key), 0) ==> r
                == Err::<Vec<FieldElem>, ProofError>(ProofError::MissingPolynomial),
            r is Err ==> (r->Err_0 == ProofError::MissingPolynomial || r->Err_0
                == ProofError::ArithmeticFailure),
            r is Ok ==> r->Ok_0@.len() == key.circuit_size,
            r is Ok ==> r->Ok_0@[0]@ == 1,
            r is Ok ==> forall|k: int|
                0 <= k < key.circuit_size ==> fmul(
                    (#[trigger] r->Ok_0@[k])@,
                    den_prefix(key.polys, self.prover_ctx(*challenges, *key), k),
                ) == num_prefix(key.polys, self.prover_ctx(*challenges, *key), k),
            r is Ok ==> forall|k: int|
                0 <= k < key.circuit_size ==> #[trigger] row_invertible(
                    key.polys,
                    self.prover_ctx(*challenges, *key),
                    k,
                ),
    {
        let ghost px = self.prover_ctx(*challenges, *key);
        let c = &key.polys;
        let allowed = perm_read_set_exec();
        let n = key.circuit_size;
        let mut z: Vec<FieldElem> = Vec::new();
        z.push(fe_one());
        proof {
            crate::algebra::lemma_fmul_one(1);
            assert(fmul(z@[0]@, den_prefix(key.polys, px, 0)) == num_prefix(key.polys, px, 0));
        }
        let mut i: usize = 0;
        while i < n
            invariant
                key.wf(),
                self.wf(),
                px == self.prover_ctx(*challenges, *key),
                c == &key.polys,
                allowed@ == perm_read_set(),
                n == key.circuit_size,
                i <= n,
                z@.len() == if i < n { i + 1 } else { n as int },
                z@[0]@ == 1,
                forall|k: int|
                    0 <= k < z@.len() ==> fmul((#[trigger] z@[k])@, den_prefix(*c, px, k))
                        == num_prefix(*c, px, k),
                forall|k: int| 0 <= k < i ==> #[trigger] row_invertible(*c, px, k),
                i > 0 ==> perm_row_inputs_ready(*c, px, 0),
            decreases n - i,
        {
            let dom_i = &key.domain_elems[i];
            proof {
                assert(vals(key.domain_elems@)[i as int] == key.domain_elems@[i as int]@);
            }
            let row = match compute_row(
                c,
                &allowed,
                &challenges.beta,
                &challenges.gamma,
                dom_i,
                self.program_width,
                self.idpolys,
                i,
                Ghost(px),
            ) {
                Ok(v) => v,
                Err(e) => {
                    proof {
                        if i > 0 {
                            assert(perm_row_inputs_ready(*c, px, i as int));
                            assert(false);
                        }
                    }
                    return Err(e);
                },
            };
            let nf = row.0;
            let df = row.1;
            proof {
                assert(nf@ == num_row(*c, px, i as int));
                assert(df@ == den_row(*c, px, i as int));
            }
            let dinv = match fe_inv(&df) {
                Some(v) => v,
                None => {
                    return Err(ProofError::ArithmeticFailure);
                },
            };
            if i + 1 < n {
                let zi = z[i];
                let znext = fe_mul(&fe_mul(&zi, &nf), &dinv);
                proof {
                    use_type_invariant(&nf);
                    lemma_prefix_in_field(*c, px, i as int);
                    lemma_grand_product_step(
                        z@[i as int]@,
                        num_prefix(*c, px, i as int),
                        den_prefix(*c, px, i as int),
                        nf@,
                        df@,
                        dinv@,
                    );
                }
                z.push(znext);
            }
            proof {
                assert(fmul(den_row(*c, px, i as int), dinv@) == 1);
                assert(row_invertible(*c, px, i as int));
            }
            i = i + 1;
        }
        proof {
            assert forall|k: int|
                0 <= k < n implies #[trigger] den_row(*c, px, k) != 0 by {
                assert(row_invertible(*c, px, k));
                let e = choose|e: nat| #[trigger] fmul(den_row(*c, px, k), e) == 1;
                if den_row(*c, px, k) == 0 {
                    crate::algebra::lemma_fmul_zero(e);
                }
            }
        }
        Ok(z)
    }

    /// In the round that commits the grand product, builds Z from the key's
    /// columns, stores it under the Z label, and enqueues its commitment
    /// (over the reference string, one pair per domain point) on the work
    /// queue.  Any other round is a no-op.
    pub fn compute_round_commitments(
        &self,
        key: &mut ProvingKeyData,
        challenges: &ChallengeSet,
        round_number: usize,
        queue: &mut WorkQueue,
    ) -> (r: Result<(), ProofError>)
        requires
            old(key).wf(),
            old(queue).wf(),
            self.wf(),
        ensures
            final(key).wf(),
            final(queue).wf(),
            round_number != 3 ==> r is Ok && *final(key) == *old(key) && final(queue).labels_seq()
                == old(queue).labels_seq() && final(queue).results_seq() == old(
                queue,
            ).results_seq() && final(queue).processed_seq() == old(queue).processed_seq(),
            r is Err ==> *final(key) == *old(key) && final(queue).labels_seq() == old(
                queue,
            ).labels_seq() && final(queue).results_seq() == old(queue).results_seq(),
            round_number == 3 && !(challenges.has(CHALLENGE_BIT_BETA) && challenges.has(
                CHALLENGE_BIT_GAMMA,
            )) ==> r == Err::<(), ProofError>(ProofError::ChallengeUnavailable),
            r is Ok <==> (round_number != 3 || (challenges.has(CHALLENGE_BIT_BETA)
                && challenges.has(CHALLENGE_BIT_GAMMA) && perm_row_inputs_ready(
                old(key).polys,
                self.prover_ctx(*challenges, *old(key)),
                0,
            ) && (forall|k: int|
                0 <= k < old(key).circuit_size ==> den_row(
                    old(key).polys,
                    self.prover_ctx(*challenges, *old(key)),
                    k,
                ) != 0))),
            round_number == 3 && r is Ok ==> {
                &&& has_value(final(key).polys, EvaluationType::NonShifted, PolynomialIndex::Z)
                &&& nsv(final(key).polys, PolynomialIndex::Z, 0) == 1
                &&& forall|k: int|
                    0 <= k < old(key).circuit_size ==> fmul(
                        #[trigger] nsv(final(key).polys, PolynomialIndex::Z, k),
                        den_prefix(old(key).polys, self.prover_ctx(*challenges, *old(key)), k),
                    ) == num_prefix(old(key).polys, self.prover_ctx(*challenges, *old(key)), k)
                &&& forall|ty: EvaluationType, id2: PolynomialIndex, i: int|
                    label_index(id2) != label_index(PolynomialIndex::Z) ==> #[trigger] value_spec(
                        final(key).polys,
                        ty,
                        id2,
                        i,
                    ) == value_spec(old(key).polys, ty, id2, i)
                &&& final(key).circuit_size == old(key).circuit_size
                &&& final(key).domain_elems == old(key).domain_elems
                &&& final(key).srs_points == old(key).srs_points
                &&& final(queue).labels_seq() == old(queue).labels_seq().push(PolynomialIndex::Z)
                &&& final(queue).processed_seq() == old(queue).processed_seq().push(false)
                &&& final(queue).results_seq() == old(queue).results_seq()
                &&& final(queue).pairs_seq().len() == old(queue).pairs_seq().len() + 1
                &&& final(queue).pairs_seq().last().len() == old(key).circuit_size
                &&& forall|i: int|
                    0 <= i < old(key).circuit_size ==> (#[trigger] final(queue).pairs_seq().last()[i]).scalar@
                        == nsv(final(key).polys, PolynomialIndex::Z, i)
                &&& forall|i: int|
                    0 <= i < old(key).circuit_size ==> (#[trigger] final(queue).pairs_seq().last()[i]).base
                        == old(key).srs_points@[i]
                &&& forall|k: int|
                    0 <= k < old(key).circuit_size ==> #[trigger] row_invertible(
                        old(key).polys,
                        self.prover_ctx(*challenges, *old(key)),
                        k,
                    )
            },
    {
        if round_number != 3 {
            return Ok(());
        }
        if !challenges.has_challenges(CHALLENGE_BIT_BETA) || !challenges.has_challenges(
            CHALLENGE_BIT_GAMMA,
        ) {
            return Err(ProofError::ChallengeUnavailable);
        }
        let z = match self.compute_grand_product(key, challenges) {
            Ok(z) => z,
            Err(e) => {
                return Err(e);
            },
        };
        let n = key.circuit_size;
        let mut pairs: Vec<MsmPair> = Vec::new();
        let mut i: usize = 0;
        while i < n
            invariant
                key.wf(),
                n == key.circuit_size,
                i <= n,
                z@.len() == n,
                pairs@.len() == i,
                forall|k: int| 0 <= k < i ==> (#[trigger] pairs@[k]).scalar == z@[k],
                forall|k: int| 0 <= k < i ==> (#[trigger] pairs@[k]).base == key.srs_points@[k],
            decreases n - i,
        {
            pairs.push(MsmPair { base: key.srs_points[i], scalar: z[i] });
            i = i + 1;
        }
        match set_column(&mut key.polys, PolynomialIndex::Z, z) {
            Ok(()) => (),
            Err(e) => {
                proof {
                    assert(false);
                }
                return Err(e);
            },
        };
        queue.enqueue(PolynomialIndex::Z, pairs);
        Ok(())
    }

    /// Accumulates `alpha_base · row(i)` into `quotient[i]` for every domain
    /// index, and returns the advanced alpha base `alpha_base · alpha^3`:
    /// the relation occupies three alpha powers.  On any failure the
    /// quotient is left untouched.
    pub fn compute_quotient_contribution(
        &self,
        key: &ProvingKeyData,
        challenges: &ChallengeSet,
        alpha_base: &FieldElem,
        quotient: &mut Vec<FieldElem>,
    ) -> (r: Result<FieldElem, ProofError>)
        requires
            key.wf(),
            self.wf(),
            old(quotient)@.len() == key.circuit_size,
        ensures
            r is Ok <==> (challenges.has(CHALLENGE_BIT_ALPHA) && challenges.has(
                CHALLENGE_BIT_BETA,
            ) && challenges.has(CHALLENGE_BIT_GAMMA) && challenges.alpha_powers@.len() >= 3
                && perm_quotient_ready(key.polys, self.prover_ctx(*challenges, *key), 0)),
            r is Ok ==> final(quotient)@.len() == old(quotient)@.len() && forall|i: int|
                0 <= i < key.circuit_size ==> (#[trigger] final(quotient)@[i])@ == fadd(
                    old(quotient)@[i]@,
                    fmul(
                        alpha_base@,
                        perm_row_term(
                            key.polys,
                            self.prover_ctx(*challenges, *key),
                            challenges.alpha_powers@[0]@,
                            challenges.alpha_powers@[1]@,
                            challenges.alpha_powers@[2]@,
                            i,
                        ),
                    ),
                ),
            r is Ok ==> r->Ok_0@ == fmul(alpha_base@, challenges.alpha_powers@[2]@),
            r is Err ==> final(quotient)@ == old(quotient)@,
            r is Err ==> (r->Err_0 == ProofError::ChallengeUnavailable || r->Err_0
                == ProofError::MissingPolynomial),
    {
        if !challenges.has_challenges(CHALLENGE_BIT_ALPHA) || !challenges.has_challenges(
            CHALLENGE_BIT_BETA,
        ) || !challenges.has_challenges(CHALLENGE_BIT_GAMMA) || challenges.alpha_powers.len()
            < 3 {
            return Err(ProofError::ChallengeUnavailable);
        }
        let ghost px = self.prover_ctx(*challenges, *key);
        let c = &key.polys;
        let allowed = perm_read_set_exec();
        let n = key.circuit_size;
        proof {
            assert(vals(key.domain_elems@)[0] == key.domain_elems@[0]@);
        }
        match compute_row_term(
            c,
            &allowed,
            challenges,
            &key.domain_elems[0],
            self.program_width,
            self.idpolys,
            0,
            Ghost(px),
        ) {
            Ok(_) => (),
            Err(e) => {
                return Err(e);
            },
        };
        let mut i: usize = 0;
        while i < n
            invariant
                key.wf(),
                self.wf(),
                px == self.prover_ctx(*challenges, *key),
                c == &key.polys,
                allowed@ == perm_read_set(),
                n == key.circuit_size,
                i <= n,
                challenges.alpha_powers@.len() >= 3,
                perm_quotient_ready(*c, px, 0),
                quotient@.len() == n,
                old(quotient)@.len() == n,
                forall|j: int|
                    0 <= j < i ==> (#[trigger] quotient@[j])@ == fadd(
                        old(quotient)@[j]@,
                        fmul(
                            alpha_base@,
                            perm_row_term(
                                *c,
                                px,
                                challenges.alpha_powers@[0]@,
                                challenges.alpha_powers@[1]@,
                                challenges.alpha_powers@[2]@,
                                j,
                            ),
                        ),
                    ),
                forall|j: int| i <= j < n ==> quotient@[j] == old(quotient)@[j],
            decreases n - i,
        {
            proof {
                assert(vals(key.domain_elems@)[i as int] == key.domain_elems@[i as int]@);
            }
            let term = match compute_row_term(
                c,
                &allowed,
                challenges,
                &key.domain_elems[i],
                self.program_width,
                self.idpolys,
                i,
                Ghost(px),
            ) {
                Ok(v) => v,
                Err(e) => {
                    proof {
                        assert(false);
                    }
                    return Err(e);
                },
            };
            let scaled = fe_mul(alpha_base, &term);
            let updated = fe_add(&quotient[i], &scaled);
            quotient[i] = updated;
            i = i + 1;
        }
        Ok(fe_mul(alpha_base, &challenges.alpha_powers[2]))
    }
}

/// The ghost permutation parameters of a verifier: the identity base is the
/// evaluation challenge zeta at every position.
pub open spec fn verifier_ctx(width: int, idpolys: bool, ch: ChallengeSet) -> PermContext {
    PermContext {
        idpolys,
        width,
        beta: ch.beta@,
        gamma: ch.gamma@,
        dom: Seq::new(1, |k: int| ch.zeta@),
    }
}

/// The scalar the combined opening check pairs with the grand-product
/// commitment Z: the row numerator scaled by the first alpha power plus the
/// LagrangeFirst claim scaled by the second, all times the alpha base.
pub open spec fn perm_z_scalar(c: PolyContainer, px: PermContext, ch: ChallengeSet, ab: nat) -> nat {
    fmul(
        ab,
        fadd(
            fmul(num_row(c, px, 0), ch.alpha_powers@[0]@),
            fmul(nsv(c, PolynomialIndex::LagrangeFirst, 0), ch.alpha_powers@[1]@),
        ),
    )
}

/// The scalar paired with the last active Sigma commitment: minus beta times
/// the shifted Z claim times the partial denominator (every active column
/// but the last), scaled by the first alpha power and the alpha base.
pub open spec fn perm_sigma_scalar(
    c: PolyContainer,
    px: PermContext,
    ch: ChallengeSet,
    ab: nat,
) -> nat {
    fneg(
        fmul(
            ab,
            fmul(
                fmul(ch.beta@, value_spec(c, EvaluationType::Shifted, PolynomialIndex::Z, 0)),
                fmul(den_prod(c, px, 0, px.width - 1), ch.alpha_powers@[0]@),
            ),
        ),
    )
}

/// Verifier-side permutation widget: the identical algebra on the opened
/// evaluation claims, plus the opening-scalar accumulation.
pub struct VerifierPermutationWidget {
}

impl VerifierPermutationWidget {
    /// A fresh widget; it carries no state of its own.
    pub fn new() -> (r: VerifierPermutationWidget) {
        VerifierPermutationWidget {  }
    }

    /// Accumulates `alpha_base · row(0)` — the same row term the prover
    /// computes, over the opened claims — into the quotient-numerator
    /// evaluation, and returns the advanced alpha base `alpha_base · alpha^3`.
    pub fn compute_quotient_evaluation_contribution(
        &self,
        key: &VerificationKey,
        c: &PolyContainer,
        challenges: &ChallengeSet,
        alpha_base: &FieldElem,
        quotient_numerator_eval: &mut FieldElem,
        idpolys: bool,
    ) -> (r: Result<FieldElem, ProofError>)
        requires
            container_wf(*c),
            1 <= key.program_width <= 4,
        ensures
            r is Ok <==> (challenges.has(CHALLENGE_BIT_ALPHA) && challenges.has(
                CHALLENGE_BIT_BETA,
            ) && challenges.has(CHALLENGE_BIT_GAMMA) && challenges.alpha_powers@.len() >= 3
                && perm_quotient_ready(
                *c,
                verifier_ctx(key.program_width as int, idpolys, *challenges),
                0,
            )),
            r is Ok ==> final(quotient_numerator_eval)@ == fadd(
                old(quotient_numerator_eval)@,
                fmul(
                    alpha_base@,
                    perm_row_term(
                        *c,
                        verifier_ctx(key.program_width as int, idpolys, *challenges),
                        challenges.alpha_powers@[0]@,
                        challenges.alpha_powers@[1]@,
                        challenges.alpha_powers@[2]@,
                        0,
                    ),
                ),
            ),
            r is Ok ==> r->Ok_0@ == fmul(alpha_base@, challenges.alpha_powers@[2]@),
            r is Err ==> final(quotient_numerator_eval)@ == old(quotient_numerator_eval)@,
            r is Err ==> (r->Err_0 == ProofError::ChallengeUnavailable || r->Err_0
                == ProofError::MissingPolynomial),
    {
        if !challenges.has_challenges(CHALLENGE_BIT_ALPHA) || !challenges.has_challenges(
            CHALLENGE_BIT_BETA,
        ) || !challenges.has_challenges(CHALLENGE_BIT_GAMMA) || challenges.alpha_powers.len()
            < 3 {
            return Err(ProofError::ChallengeUnavailable);
        }
        let ghost px = verifier_ctx(key.program_width as int, idpolys, *challenges);
        let allowed = perm_read_set_exec();
        let term = match compute_row_term(
            c,
            &allowed,
            challenges,
            &challenges.zeta,
            key.program_width,
            idpolys,
            0,
            Ghost(px),
        ) {
            Ok(v) => v,
            Err(e) => {
                return Err(e);
            },
        };
        let scaled = fe_mul(alpha_base, &term);
        let updated = fe_add(quotient_numerator_eval, &scaled);
        *quotient_numerator_eval = updated;
        Ok(fe_mul(alpha_base, &challenges.alpha_powers[2]))
    }

    /// Adds this relation's scalars for the combined opening check: onto the
    /// grand-product commitment Z, the row numerator scaled by the first
    /// alpha power plus the LagrangeFirst claim scaled by the second, all
    /// times the alpha base; onto the last active Sigma commitment, minus
    /// `beta` times the shifted Z claim times the partial denominator (all
    /// columns but the last), scaled likewise.  Returns the advanced alpha
    /// base.
    pub fn append_scalar_multiplication_inputs(
        &self,
        key: &VerificationKey,
        c: &PolyContainer,
        challenges: &ChallengeSet,
        alpha_base: &FieldElem,
        scalars: &mut ScalarAccumulator,
        idpolys: bool,
    ) -> (r: Result<FieldElem, ProofError>)
        requires
            container_wf(*c),
            1 <= key.program_width <= 4,
            old(scalars)@.len() == NUM_POLY_LABELS,
        ensures
            r is Ok <==> (challenges.has(CHALLENGE_BIT_ALPHA) && challenges.has(
                CHALLENGE_BIT_BETA,
            ) && challenges.has(CHALLENGE_BIT_GAMMA) && challenges.alpha_powers@.len() >= 3
                && perm_quotient_ready(
                *c,
                verifier_ctx(key.program_width as int, idpolys, *challenges),
                0,
            )),
            r is Ok ==> final(scalars)@ == old(scalars)@.update(
                label_index(PolynomialIndex::Z),
                fadd(
                    old(scalars)@[label_index(PolynomialIndex::Z)],
                    perm_z_scalar(
                        *c,
                        verifier_ctx(key.program_width as int, idpolys, *challenges),
                        *challenges,
                        alpha_base@,
                    ),
                ),
            ).update(
                label_index(sigma_label(key.program_width as int - 1)),
                fadd(
                    old(scalars)@.update(
                        label_index(PolynomialIndex::Z),
                        fadd(
                            old(scalars)@[label_index(PolynomialIndex::Z)],
                            perm_z_scalar(
                                *c,
                                verifier_ctx(key.program_width as int, idpolys, *challenges),
                                *challenges,
                                alpha_base@,
                            ),
                        ),
                    )[label_index(sigma_label(key.program_width as int - 1))],
                    perm_sigma_scalar(
                        *c,
                        verifier_ctx(key.program_width as int, idpolys, *challenges),
                        *challenges,
                        alpha_base@,
                    ),
                ),
            ),
            r is Ok ==> r->Ok_0@ == fmul(alpha_base@, challenges.alpha_powers@[2]@),
            r is Err ==> final(scalars)@ == old(scalars)@,
            r is Err ==> (r->Err_0 == ProofError::ChallengeUnavailable || r->Err_0
                == ProofError::MissingPolynomial),
    {
        if !challenges.has_challenges(CHALLENGE_BIT_ALPHA) || !challenges.has_challenges(
            CHALLENGE_BIT_BETA,
        ) || !challenges.has_challenges(CHALLENGE_BIT_GAMMA) || challenges.alpha_powers.len()
            < 3 {
            return Err(ProofError::ChallengeUnavailable);
        }
        let ghost px = verifier_ctx(key.program_width as int, idpolys, *challenges);
        let allowed = perm_read_set_exec();
        // Probe the same reads the quotient evaluation makes, so both agree
        // on when they are owed.
        match compute_row_term(
            c,
            &allowed,
            challenges,
            &challenges.zeta,
            key.program_width,
            idpolys,
            0,
            Ghost(px),
        ) {
            Ok(_) => (),
            Err(e) => {
                return Err(e);
            },
        };
        let row = match compute_row(
            c,
            &allowed,
            &challenges.beta,
            &challenges.gamma,
            &challenges.zeta,
            key.program_width,
            idpolys,
            0,
            Ghost(px),
        ) {
            Ok(v) => v,
            Err(e) => {
                proof {
                    assert(false);
                }
                return Err(e);
            },
        };
        let nf = row.0;
        proof {
            lemma_perm_read_set_has_aux();
        }
        let l1 = match get_value(
            c,
            &allowed,
            EvaluationType::NonShifted,
            PolynomialIndex::LagrangeFirst,
            0,
        ) {
            Ok(v) => v,
            Err(e) => {
                proof {
                    assert(false);
                }
                return Err(e);
            },
        };
        let zs = match get_value(c, &allowed, EvaluationType::Shifted, PolynomialIndex::Z, 0) {
            Ok(v) => v,
            Err(e) => {
                proof {
                    assert(false);
                }
                return Err(e);
            },
        };
        // Partial denominator: all active columns but the last.
        let width = key.program_width;
        let mut dpart = fe_one();
        let mut j: usize = 0;
        while j + 1 < width
            invariant
                container_wf(*c),
                allowed@ == perm_read_set(),
                1 <= width <= 4,
                width == key.program_width,
                j < width,
                px == verifier_ctx(width as int, idpolys, *challenges),
                px.beta == challenges.beta@,
                px.gamma == challenges.gamma@,
                px.width == width,
                px.idpolys == idpolys,
                perm_row_inputs_ready(*c, px, 0),
                dpart@ == den_prod(*c, px, 0, j as int),
            decreases width - j,
        {
            proof {
                lemma_perm_read_set_has(j as int);
            }
            let wl = wire_label_exec(j);
            let sl = sigma_label_exec(j);
            let wv = match get_value(c, &allowed, EvaluationType::NonShifted, wl, 0) {
                Ok(v) => v,
                Err(e) => {
                    proof {
                        assert(false);
                    }
                    return Err(e);
                },
            };
            let sv = match get_value(c, &allowed, EvaluationType::NonShifted, sl, 0) {
                Ok(v) => v,
                Err(e) => {
                    proof {
                        assert(false);
                    }
                    return Err(e);
                },
            };
            let dfact = fe_add(&fe_add(&wv, &fe_mul(&challenges.beta, &sv)), &challenges.gamma);
            dpart = fe_mul(&dpart, &dfact);
            j = j + 1;
        }
        let a1 = challenges.alpha_powers[0];
        let a2 = challenges.alpha_powers[1];
        let s_z = fe_mul(alpha_base, &fe_add(&fe_mul(&nf, &a1), &fe_mul(&l1, &a2)));
        let s_sig = fe_neg(
            &fe_mul(alpha_base, &fe_mul(&fe_mul(&challenges.beta, &zs), &fe_mul(&dpart, &a1))),
        );
        scalars.accumulate(PolynomialIndex::Z, &s_z);
        scalars.accumulate(sigma_label_exec(width - 1), &s_sig);
        Ok(fe_mul(alpha_base, &challenges.alpha_powers[2]))
    }
}

/// The row products depend only on the fetched values: two containers (and
/// parameter sets) resolving the wires, sigmas and identities to the same
/// values yield the same numerator and denominator products.
pub proof fn lemma_perm_prods_congruent(
    c1: PolyContainer,
    c2: PolyContainer,
    px1: PermContext,
    px2: PermContext,
    i1: int,
    i2: int,
    j: int,
)
    requires
        px1.width == px2.width,
        px1.beta == px2.beta,
        px1.gamma == px2.gamma,
        forall|j2: int|
            0 <= j2 < px1.width ==> nsv(c1, #[trigger] wire_label(j2), i1) == nsv(
                c2,
                wire_label(j2),
                i2,
            ),
        forall|j2: int|
            0 <= j2 < px1.width ==> nsv(c1, #[trigger] sigma_label(j2), i1) == nsv(
                c2,
                sigma_label(j2),
                i2,
            ),
        forall|j2: int|
            0 <= j2 < px1.width ==> id_value(c1, px1, j2, i1) == #[trigger] id_value(
                c2,
                px2,
                j2,
                i2,
            ),
        j <= px1.width,
    ensures
        num_prod(c1, px1, i1, j) == num_prod(c2, px2, i2, j),
        den_prod(c1, px1, i1, j) == den_prod(c2, px2, i2, j),
    decreases j,
{
    if j > 0 {
        lemma_perm_prods_congruent(c1, c2, px1, px2, i1, i2, j - 1);
    }
}

/// Prover/verifier consistency of the permutation relation: where the
/// opened claims equal the prover's evaluations — wires, sigmas, identity
/// values, the running product and its shift, and the boundary indicators —
/// the verifier's row term equals the prover's, for the same challenges.
pub proof fn lemma_perm_prover_verifier_agree(
    ce: PolyContainer,
    cc: PolyContainer,
    pxe: PermContext,
    pxc: PermContext,
    a1: nat,
    a2: nat,
    a3: nat,
    i: int,
)
    requires
        pxe.width == pxc.width,
        pxe.beta == pxc.beta,
        pxe.gamma == pxc.gamma,
        forall|j2: int|
            0 <= j2 < pxe.width ==> nsv(ce, #[trigger] wire_label(j2), i) == nsv(
                cc,
                wire_label(j2),
                0,
            ),
        forall|j2: int|
            0 <= j2 < pxe.width ==> nsv(ce, #[trigger] sigma_label(j2), i) == nsv(
                cc,
                sigma_label(j2),
                0,
            ),
        forall|j2: int|
            0 <= j2 < pxe.width ==> id_value(ce, pxe, j2, i) == #[trigger] id_value(
                cc,
                pxc,
                j2,
                0,
            ),
        nsv(ce, PolynomialIndex::Z, i) == nsv(cc, PolynomialIndex::Z, 0),
        value_spec(ce, EvaluationType::Shifted, PolynomialIndex::Z, i) == value_spec(
            cc,
            EvaluationType::Shifted,
            PolynomialIndex::Z,
            0,
        ),
        nsv(ce, PolynomialIndex::LagrangeFirst, i) == nsv(cc, PolynomialIndex::LagrangeFirst, 0),
        nsv(ce, PolynomialIndex::LagrangeLast, i) == nsv(cc, PolynomialIndex::LagrangeLast, 0),
    ensures
        perm_row_term(ce, pxe, a1, a2, a3, i) == perm_row_term(cc, pxc, a1, a2, a3, 0),
{
    lemma_perm_prods_congruent(ce, cc, pxe, pxc, i, 0, pxe.width);
}

/// Grand-product closure.  Take the row numerators and denominators of a
/// satisfying assignment: correct Sigma and Id polynomials make the two
/// factor multisets equal.  Take a running product `zs` that starts at one
/// and satisfies the telescoping identity (each entry times the denominator
/// prefix equals the numerator prefix), with every row denominator
/// invertible.  Then the quotient identity closes at the last domain point:
/// the last entry times the last numerator equals the last denominator,
/// which is the statement that Z wraps back to one.
pub proof fn lemma_grand_product_closure(
    nums: Seq<nat>,
    dens: Seq<nat>,
    zs: Seq<nat>,
    invs: Seq<nat>,
)
    requires
        nums.len() >= 1,
        dens.len() == nums.len(),
        zs.len() == nums.len(),
        invs.len() == nums.len(),
        nums.to_multiset() == dens.to_multiset(),
        forall|k: int| 0 <= k < invs.len() ==> #[trigger] fmul(dens[k], invs[k]) == 1,
        forall|k: int|
            0 <= k < zs.len() ==> #[trigger] fmul(zs[k], seq_fprod(dens.subrange(0, k)))
                == seq_fprod(nums.subrange(0, k)),
    ensures
        fmul(zs[nums.len() - 1], nums[nums.len() - 1]) == dens[nums.len() - 1] % field_order(),
{
    let n = nums.len() as int;
    let dpre = seq_fprod(dens.subrange(0, n - 1));
    let npre = seq_fprod(nums.subrange(0, n - 1));
    let zl = zs[n - 1];
    let nl = nums[n - 1];
    let dl = dens[n - 1];
    assert(fmul(zl, dpre) == npre);
    assert(nums.subrange(0, n).drop_last() =~= nums.subrange(0, n - 1));
    assert(nums.subrange(0, n) =~= nums);
    assert(dens.subrange(0, n).drop_last() =~= dens.subrange(0, n - 1));
    assert(dens.subrange(0, n) =~= dens);
    assert(seq_fprod(nums) == fmul(npre, nl));
    assert(seq_fprod(dens) == fmul(dpre, dl));
    lemma_fprod_multiset(nums, dens);
    // Rearrange (zl·dpre)·nl into (zl·nl)·dpre.
    crate::algebra::lemma_fmul_assoc(zl, dpre, nl);
    crate::algebra::lemma_fmul_comm(dpre, nl);
    crate::algebra::lemma_fmul_assoc(zl, nl, dpre);
    assert(fmul(fmul(zl, nl), dpre) == fmul(dpre, dl));
    crate::algebra::lemma_fmul_comm(dpre, dl);
    // The denominator prefix is invertible, so it cancels.
    assert(forall|k: int|
        0 <= k < n - 1 ==> #[trigger] fmul(dens.subrange(0, n - 1)[k], invs.subrange(0, n - 1)[k])
            == 1);
    lemma_seq_fprod_invertible(dens.subrange(0, n - 1), invs.subrange(0, n - 1));
    let epre = seq_fprod(invs.subrange(0, n - 1));
    lemma_fmul_cancel(fmul(zl, nl), dl, dpre, epre);
    vstd::arithmetic::div_mod::lemma_mod_bound((zl * nl) as int, field_order() as int);
    vstd::arithmetic::div_mod::lemma_small_mod(fmul(zl, nl), field_order());
}

/// The recursive row prefixes agree with the sequence products of the row
/// values.
pub proof fn lemma_prefix_products_agree(c: PolyContainer, px: PermContext, n: int, k: int)
    requires
        0 <= k <= n,
    ensures
        seq_fprod(Seq::new(n as nat, |i: int| num_row(c, px, i)).subrange(0, k)) == num_prefix(
            c,
            px,
            k,
        ),
        seq_fprod(Seq::new(n as nat, |i: int| den_row(c, px, i)).subrange(0, k)) == den_prefix(
            c,
            px,
            k,
        ),
    decreases k,
{
    if k > 0 {
        lemma_prefix_products_agree(c, px, n, k - 1);
        let nums = Seq::new(n as nat, |i: int| num_row(c, px, i));
        let dens = Seq::new(n as nat, |i: int| den_row(c, px, i));
        assert(nums.subrange(0, k).drop_last() =~= nums.subrange(0, k - 1));
        assert(dens.subrange(0, k).drop_last() =~= dens.subrange(0, k - 1));
        assert(nums.subrange(0, k).last() == num_row(c, px, k - 1));
        assert(dens.subrange(0, k).last() == den_row(c, px, k - 1));
    }
}

/// Grand-product closure at the widget level: where the container's
/// numerator and denominator row multisets coincide — a satisfying witness
/// against correct Sigma and Id polynomials — a running product meeting the
/// widget's contract (telescoping identity, invertible row denominators)
/// closes at the last domain point: its last entry times the last row
/// numerator equals the last row denominator, which is `Z` wrapping back to
/// one there.
pub proof fn lemma_widget_grand_product_closure(
    c: PolyContainer,
    px: PermContext,
    zs: Seq<nat>,
    n: int,
)
    requires
        n >= 1,
        zs.len() == n,
        Seq::new(n as nat, |i: int| num_row(c, px, i)).to_multiset() == Seq::new(
            n as nat,
            |i: int| den_row(c, px, i),
        ).to_multiset(),
        forall|k: int| 0 <= k < n ==> #[trigger] row_invertible(c, px, k),
        forall|k: int|
            0 <= k < n ==> fmul(#[trigger] zs[k], den_prefix(c, px, k)) == num_prefix(c, px, k),
    ensures
        fmul(zs[n - 1], num_row(c, px, n - 1)) == den_row(c, px, n - 1) % field_order(),
{
    let nums = Seq::new(n as nat, |i: int| num_row(c, px, i));
    let dens = Seq::new(n as nat, |i: int| den_row(c, px, i));
    let invs = Seq::new(n as nat, |k: int| choose|e: nat| fmul(den_row(c, px, k), e) == 1);
    assert forall|k: int| 0 <= k < n implies #[trigger] fmul(dens[k], invs[k]) == 1 by {
        assert(row_invertible(c, px, k));
    }
    assert forall|k: int|
        0 <= k < n implies #[trigger] fmul(zs[k], seq_fprod(dens.subrange(0, k))) == seq_fprod(
        nums.subrange(0, k),
    ) by {
        lemma_prefix_products_agree(c, px, n, k);
    }
    lemma_grand_product_closure(nums, dens, zs, invs);
}

} // verus!
