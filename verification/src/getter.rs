//! Resolution of a (container, evaluation-kind, polynomial, index) query to a
//! field value.  The same kernel code runs unchanged against either source:
//! full evaluation data over the domain (prover) or opened evaluation claims
//! at one challenge point (verifier).  A query outside the requesting
//! kernel's declared read-set, or outside the container's data, fails — it
//! never silently returns zero.

use vstd::prelude::*;

use crate::errors::ProofError;
use vstd::arithmetic::div_mod::{lemma_mod_self_0, lemma_small_mod};
use crate::field::FieldElem;
use crate::manifest::{label_index, label_index_exec, EvaluationType, PolynomialIndex,
    NUM_POLY_LABELS};

verus! {

/// One source of polynomial values.
///
/// `Evaluations` holds, per label, the values over the whole evaluation
/// domain; a shifted read at index `i` resolves to index `(i+1) % n`, wrapping
/// only at the final domain point.  `Claims` holds, per label, a single
/// opened value (and one for the shifted opening), as a verifier reads them
/// from the transcript.
pub enum PolyContainer {
    Evaluations { circuit_size: usize, columns: Vec<Option<Vec<FieldElem>>> },
    Claims { values: Vec<Option<FieldElem>>, shifted: Vec<Option<FieldElem>> },
}

/// The container has one slot per label, and every present column covers the
/// whole domain.
pub open spec fn container_wf(c: PolyContainer) -> bool {
    match c {
        PolyContainer::Evaluations { circuit_size, columns } => {
            &&& columns@.len() == NUM_POLY_LABELS
            &&& circuit_size > 0
            &&& forall|k: int|
                0 <= k < NUM_POLY_LABELS && columns@[k] is Some ==> (
                #[trigger] columns@[k])->0@.len() == circuit_size
        },
        PolyContainer::Claims { values, shifted } => {
            &&& values@.len() == NUM_POLY_LABELS
            &&& shifted@.len() == NUM_POLY_LABELS
        },
    }
}

/// The number of domain points of the container (one for a claims source).
pub open spec fn domain_size(c: PolyContainer) -> int {
    match c {
        PolyContainer::Evaluations { circuit_size, columns } => circuit_size as int,
        PolyContainer::Claims { values, shifted } => 1,
    }
}

/// The container can answer a query for `id` under `ty`.
pub open spec fn has_value(c: PolyContainer, ty: EvaluationType, id: PolynomialIndex) -> bool {
    match c {
        PolyContainer::Evaluations { circuit_size, columns } => columns@[label_index(id)] is Some,
        PolyContainer::Claims { values, shifted } => match ty {
            EvaluationType::NonShifted => values@[label_index(id)] is Some,
            EvaluationType::Shifted => shifted@[label_index(id)] is Some,
        },
    }
}

/// The index lies within the container's domain.
pub open spec fn index_ok(c: PolyContainer, i: int) -> bool {
    match c {
        PolyContainer::Evaluations { circuit_size, columns } => 0 <= i < circuit_size,
        PolyContainer::Claims { values, shifted } => true,
    }
}

/// The value the container holds for `id` under `ty` at index `i`.
pub open spec fn value_spec(
    c: PolyContainer,
    ty: EvaluationType,
    id: PolynomialIndex,
    i: int,
) -> nat {
    match c {
        PolyContainer::Evaluations { circuit_size, columns } => {
            let col = columns@[label_index(id)]->0;
            match ty {
                EvaluationType::NonShifted => col@[i]@,
                EvaluationType::Shifted => col@[(i + 1) % (circuit_size as int)]@,
            }
        },
        PolyContainer::Claims { values, shifted } => match ty {
            EvaluationType::NonShifted => values@[label_index(id)]->0@,
            EvaluationType::Shifted => shifted@[label_index(id)]->0@,
        },
    }
}

/// Whether a read-set names a label.
pub fn read_set_contains(allowed: &Vec<PolynomialIndex>, id: PolynomialIndex) -> (r: bool)
    ensures
        r == allowed@.contains(id),
{
    let mut j: usize = 0;
    while j < allowed.len()
        invariant
            j <= allowed@.len(),
            forall|x: int| 0 <= x < j ==> allowed@[x] != id,
        decreases allowed@.len() - j,
    {
        if allowed[j] == id {
            return true;
        }
        j = j + 1;
    }
    false
}

/// Resolves a query, refusing a label outside the requesting kernel's
/// declared read-set or outside the container's data.
pub fn get_value(
    c: &PolyContainer,
    allowed: &Vec<PolynomialIndex>,
    ty: EvaluationType,
    id: PolynomialIndex,
    i: usize,
) -> (r: Result<FieldElem, ProofError>)
    requires
        container_wf(*c),
    ensures
        r is Ok <==> (allowed@.contains(id) && has_value(*c, ty, id) && index_ok(*c, i as int)),
        r is Ok ==> r->Ok_0@ == value_spec(*c, ty, id, i as int),
        r is Err ==> r->Err_0 == ProofError::MissingPolynomial,
{
    if !read_set_contains(allowed, id) {
        return Err(ProofError::MissingPolynomial);
    }
    let idx = label_index_exec(id);
    match c {
        PolyContainer::Evaluations { circuit_size, columns } => {
            if i >= *circuit_size {
                return Err(ProofError::MissingPolynomial);
            }
            match &columns[idx] {
                Some(col) => {
                    let pos: usize = match ty {
                        EvaluationType::NonShifted => i,
                        EvaluationType::Shifted => {
                            if i + 1 == *circuit_size {
                                proof {
                                    lemma_mod_self_0(*circuit_size as int);
                                }
                                0
                            } else {
                                proof {
                                    lemma_small_mod((i + 1) as nat, *circuit_size as nat);
                                }
                                i + 1
                            }
                        },
                    };
                    Ok(col[pos])
                },
                None => Err(ProofError::MissingPolynomial),
            }
        },
        PolyContainer::Claims { values, shifted } => {
            let slot = match ty {
                EvaluationType::NonShifted => &values[idx],
                EvaluationType::Shifted => &shifted[idx],
            };
            match slot {
                Some(v) => Ok(*v),
                None => Err(ProofError::MissingPolynomial),
            }
        },
    }
}

/// Stores a full column for a label into an evaluations container, leaving
/// every other label's data untouched.  A claims container takes no column.
pub fn set_column(c: &mut PolyContainer, id: PolynomialIndex, col: Vec<FieldElem>) -> (r: Result<
    (),
    ProofError,
>)
    requires
        container_wf(*old(c)),
    ensures
        container_wf(*final(c)),
        r is Ok <==> (*old(c) is Evaluations && col@.len() == domain_size(*old(c))),
        r is Err ==> *final(c) == *old(c) && r->Err_0 == ProofError::ContractViolation,
        r is Ok ==> *final(c) is Evaluations,
        r is Ok ==> domain_size(*final(c)) == domain_size(*old(c)),
        r is Ok ==> forall|ty: EvaluationType| has_value(*final(c), ty, id),
        r is Ok ==> forall|i: int|
            0 <= i < domain_size(*old(c)) ==> value_spec(
                *final(c),
                EvaluationType::NonShifted,
                id,
                i,
            ) == col@[i]@,
        r is Ok ==> forall|i: int|
            0 <= i < domain_size(*old(c)) ==> value_spec(*final(c), EvaluationType::Shifted, id, i)
                == col@[(i + 1) % domain_size(*old(c))]@,
        r is Ok ==> forall|ty: EvaluationType, id2: PolynomialIndex|
            label_index(id2) != label_index(id) ==> has_value(*final(c), ty, id2) == has_value(
                *old(c),
                ty,
                id2,
            ),
        r is Ok ==> forall|ty: EvaluationType, id2: PolynomialIndex, i: int|
            label_index(id2) != label_index(id) ==> #[trigger] value_spec(*final(c), ty, id2, i)
                == value_spec(*old(c), ty, id2, i),
{
    let idx = label_index_exec(id);
    match c {
        PolyContainer::Evaluations { circuit_size, columns } => {
            if col.len() != *circuit_size {
                return Err(ProofError::ContractViolation);
            }
            columns[idx] = Some(col);
            Ok(())
        },
        PolyContainer::Claims { values, shifted } => Err(ProofError::ContractViolation),
    }
}

} // verus!
