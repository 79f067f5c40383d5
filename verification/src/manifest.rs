//! The fixed universe of named circuit polynomials: their labels, provenance
//! tags, and which of them admit a shifted evaluation.  The manifest is built
//! once and never mutated; kernels validate their declared read-sets against
//! it at setup time.

use vstd::prelude::*;

verus! {

/// Provenance of a circuit polynomial.
#[derive(Clone, Copy, PartialEq, Eq, Structural, Debug)]
pub enum PolynomialSource {
    Witness,
    Selector,
    Permutation,
    Other,
}

/// Whether a polynomial is read at the current domain index or at the next
/// one (wrapping at the final point).
#[derive(Clone, Copy, PartialEq, Eq, Structural, Debug)]
pub enum EvaluationType {
    NonShifted,
    Shifted,
}

/// Label of one polynomial of the fixed universe.
#[derive(Clone, Copy, PartialEq, Eq, Structural, Debug)]
pub enum PolynomialIndex {
    Q1,
    Q2,
    Q3,
    Q4,
    Q5,
    QM,
    QC,
    QArithmetic,
    QFixedBase,
    QRange,
    QSort,
    QLogic,
    Table1,
    Table2,
    Table3,
    Table4,
    TableIndex,
    TableType,
    QElliptic,
    QAux,
    Sigma1,
    Sigma2,
    Sigma3,
    Sigma4,
    Id1,
    Id2,
    Id3,
    Id4,
    W1,
    W2,
    W3,
    W4,
    S,
    Z,
    ZLookup,
    LagrangeFirst,
    LagrangeLast,
}

/// Number of labels in the universe.
pub const NUM_POLY_LABELS: usize = 37;

/// Position of a label in the fixed enumeration order.
pub open spec fn label_index(id: PolynomialIndex) -> int {
    match id {
        PolynomialIndex::Q1 => 0,
        PolynomialIndex::Q2 => 1,
        PolynomialIndex::Q3 => 2,
        PolynomialIndex::Q4 => 3,
        PolynomialIndex::Q5 => 4,
        PolynomialIndex::QM => 5,
        PolynomialIndex::QC => 6,
        PolynomialIndex::QArithmetic => 7,
        PolynomialIndex::QFixedBase => 8,
        PolynomialIndex::QRange => 9,
        PolynomialIndex::QSort => 10,
        PolynomialIndex::QLogic => 11,
        PolynomialIndex::Table1 => 12,
        PolynomialIndex::Table2 => 13,
        PolynomialIndex::Table3 => 14,
        PolynomialIndex::Table4 => 15,
        PolynomialIndex::TableIndex => 16,
        PolynomialIndex::TableType => 17,
        PolynomialIndex::QElliptic => 18,
        PolynomialIndex::QAux => 19,
        PolynomialIndex::Sigma1 => 20,
        PolynomialIndex::Sigma2 => 21,
        PolynomialIndex::Sigma3 => 22,
        PolynomialIndex::Sigma4 => 23,
        PolynomialIndex::Id1 => 24,
        PolynomialIndex::Id2 => 25,
        PolynomialIndex::Id3 => 26,
        PolynomialIndex::Id4 => 27,
        PolynomialIndex::W1 => 28,
        PolynomialIndex::W2 => 29,
        PolynomialIndex::W3 => 30,
        PolynomialIndex::W4 => 31,
        PolynomialIndex::S => 32,
        PolynomialIndex::Z => 33,
        PolynomialIndex::ZLookup => 34,
        PolynomialIndex::LagrangeFirst => 35,
        PolynomialIndex::LagrangeLast => 36,
    }
}

/// The label standing at a position of the enumeration order.
pub open spec fn label_at(k: int) -> PolynomialIndex {
    if k == 0 {
        PolynomialIndex::Q1
    } else if k == 1 {
        PolynomialIndex::Q2
    } else if k == 2 {
        PolynomialIndex::Q3
    } else if k == 3 {
        PolynomialIndex::Q4
    } else if k == 4 {
        PolynomialIndex::Q5
    } else if k == 5 {
        PolynomialIndex::QM
    } else if k == 6 {
        PolynomialIndex::QC
    } else if k == 7 {
        PolynomialIndex::QArithmetic
    } else if k == 8 {
        PolynomialIndex::QFixedBase
    } else if k == 9 {
        PolynomialIndex::QRange
    } else if k == 10 {
        PolynomialIndex::QSort
    } else if k == 11 {
        PolynomialIndex::QLogic
    } else if k == 12 {
        PolynomialIndex::Table1
    } else if k == 13 {
        PolynomialIndex::Table2
    } else if k == 14 {
        PolynomialIndex::Table3
    } else if k == 15 {
        PolynomialIndex::Table4
    } else if k == 16 {
        PolynomialIndex::TableIndex
    } else if k == 17 {
        PolynomialIndex::TableType
    } else if k == 18 {
        PolynomialIndex::QElliptic
    } else if k == 19 {
        PolynomialIndex::QAux
    } else if k == 20 {
        PolynomialIndex::Sigma1
    } else if k == 21 {
        PolynomialIndex::Sigma2
    } else if k == 22 {
        PolynomialIndex::Sigma3
    } else if k == 23 {
        PolynomialIndex::Sigma4
    } else if k == 24 {
        PolynomialIndex::Id1
    } else if k == 25 {
        PolynomialIndex::Id2
    } else if k == 26 {
        PolynomialIndex::Id3
    } else if k == 27 {
        PolynomialIndex::Id4
    } else if k == 28 {
        PolynomialIndex::W1
    } else if k == 29 {
        PolynomialIndex::W2
    } else if k == 30 {
        PolynomialIndex::W3
    } else if k == 31 {
        PolynomialIndex::W4
    } else if k == 32 {
        PolynomialIndex::S
    } else if k == 33 {
        PolynomialIndex::Z
    } else if k == 34 {
        PolynomialIndex::ZLookup
    } else if k == 35 {
        PolynomialIndex::LagrangeFirst
    } else {
        PolynomialIndex::LagrangeLast
    }
}

/// Provenance tag of each label.
pub open spec fn source_of(id: PolynomialIndex) -> PolynomialSource {
    match id {
        PolynomialIndex::Q1 => PolynomialSource::Selector,
        PolynomialIndex::Q2 => PolynomialSource::Selector,
        PolynomialIndex::Q3 => PolynomialSource::Selector,
        PolynomialIndex::Q4 => PolynomialSource::Selector,
        PolynomialIndex::Q5 => PolynomialSource::Selector,
        PolynomialIndex::QM => PolynomialSource::Selector,
        PolynomialIndex::QC => PolynomialSource::Selector,
        PolynomialIndex::QArithmetic => PolynomialSource::Selector,
        PolynomialIndex::QFixedBase => PolynomialSource::Selector,
        PolynomialIndex::QRange => PolynomialSource::Selector,
        PolynomialIndex::QSort => PolynomialSource::Selector,
        PolynomialIndex::QLogic => PolynomialSource::Selector,
        PolynomialIndex::Table1 => PolynomialSource::Selector,
        PolynomialIndex::Table2 => PolynomialSource::Selector,
        PolynomialIndex::Table3 => PolynomialSource::Selector,
        PolynomialIndex::Table4 => PolynomialSource::Selector,
        PolynomialIndex::TableIndex => PolynomialSource::Selector,
        PolynomialIndex::TableType => PolynomialSource::Selector,
        PolynomialIndex::QElliptic => PolynomialSource::Selector,
        PolynomialIndex::QAux => PolynomialSource::Selector,
        PolynomialIndex::Sigma1 => PolynomialSource::Permutation,
        PolynomialIndex::Sigma2 => PolynomialSource::Permutation,
        PolynomialIndex::Sigma3 => PolynomialSource::Permutation,
        PolynomialIndex::Sigma4 => PolynomialSource::Permutation,
        PolynomialIndex::Id1 => PolynomialSource::Permutation,
        PolynomialIndex::Id2 => PolynomialSource::Permutation,
        PolynomialIndex::Id3 => PolynomialSource::Permutation,
        PolynomialIndex::Id4 => PolynomialSource::Permutation,
        PolynomialIndex::W1 => PolynomialSource::Witness,
        PolynomialIndex::W2 => PolynomialSource::Witness,
        PolynomialIndex::W3 => PolynomialSource::Witness,
        PolynomialIndex::W4 => PolynomialSource::Witness,
        PolynomialIndex::S => PolynomialSource::Witness,
        PolynomialIndex::Z => PolynomialSource::Witness,
        PolynomialIndex::ZLookup => PolynomialSource::Witness,
        PolynomialIndex::LagrangeFirst => PolynomialSource::Other,
        PolynomialIndex::LagrangeLast => PolynomialSource::Other,
    }
}

/// Whether a label admits a shifted evaluation.
pub open spec fn shiftable(id: PolynomialIndex) -> bool {
    match id {
        PolynomialIndex::Q1 => false,
        PolynomialIndex::Q2 => false,
        PolynomialIndex::Q3 => false,
        PolynomialIndex::Q4 => false,
        PolynomialIndex::Q5 => false,
        PolynomialIndex::QM => false,
        PolynomialIndex::QC => false,
        PolynomialIndex::QArithmetic => false,
        PolynomialIndex::QFixedBase => false,
        PolynomialIndex::QRange => false,
        PolynomialIndex::QSort => false,
        PolynomialIndex::QLogic => false,
        PolynomialIndex::Table1 => true,
        PolynomialIndex::Table2 => true,
        PolynomialIndex::Table3 => true,
        PolynomialIndex::Table4 => true,
        PolynomialIndex::TableIndex => false,
        PolynomialIndex::TableType => false,
        PolynomialIndex::QElliptic => false,
        PolynomialIndex::QAux => false,
        PolynomialIndex::Sigma1 => false,
        PolynomialIndex::Sigma2 => false,
        PolynomialIndex::Sigma3 => false,
        PolynomialIndex::Sigma4 => false,
        PolynomialIndex::Id1 => false,
        PolynomialIndex::Id2 => false,
        PolynomialIndex::Id3 => false,
        PolynomialIndex::Id4 => false,
        PolynomialIndex::W1 => true,
        PolynomialIndex::W2 => true,
        PolynomialIndex::W3 => true,
        PolynomialIndex::W4 => true,
        PolynomialIndex::S => true,
        PolynomialIndex::Z => true,
        PolynomialIndex::ZLookup => true,
        PolynomialIndex::LagrangeFirst => false,
        PolynomialIndex::LagrangeLast => false,
    }
}

pub fn label_index_exec(id: PolynomialIndex) -> (r: usize)
    ensures
        r as int == label_index(id),
        r < NUM_POLY_LABELS,
{
    match id {
        PolynomialIndex::Q1 => 0,
        PolynomialIndex::Q2 => 1,
        PolynomialIndex::Q3 => 2,
        PolynomialIndex::Q4 => 3,
        PolynomialIndex::Q5 => 4,
        PolynomialIndex::QM => 5,
        PolynomialIndex::QC => 6,
        PolynomialIndex::QArithmetic => 7,
        PolynomialIndex::QFixedBase => 8,
        PolynomialIndex::QRange => 9,
        PolynomialIndex::QSort => 10,
        PolynomialIndex::QLogic => 11,
        PolynomialIndex::Table1 => 12,
        PolynomialIndex::Table2 => 13,
        PolynomialIndex::Table3 => 14,
        PolynomialIndex::Table4 => 15,
        PolynomialIndex::TableIndex => 16,
        PolynomialIndex::TableType => 17,
        PolynomialIndex::QElliptic => 18,
        PolynomialIndex::QAux => 19,
        PolynomialIndex::Sigma1 => 20,
        PolynomialIndex::Sigma2 => 21,
        PolynomialIndex::Sigma3 => 22,
        PolynomialIndex::Sigma4 => 23,
        PolynomialIndex::Id1 => 24,
        PolynomialIndex::Id2 => 25,
        PolynomialIndex::Id3 => 26,
        PolynomialIndex::Id4 => 27,
        PolynomialIndex::W1 => 28,
        PolynomialIndex::W2 => 29,
        PolynomialIndex::W3 => 30,
        PolynomialIndex::W4 => 31,
        PolynomialIndex::S => 32,
        PolynomialIndex::Z => 33,
        PolynomialIndex::ZLookup => 34,
        PolynomialIndex::LagrangeFirst => 35,
        PolynomialIndex::LagrangeLast => 36,
    }
}

pub fn label_at_exec(k: usize) -> (r: PolynomialIndex)
    requires
        k < NUM_POLY_LABELS,
    ensures
        r == label_at(k as int),
{
    if k == 0 {
        PolynomialIndex::Q1
    } else if k == 1 {
        PolynomialIndex::Q2
    } else if k == 2 {
        PolynomialIndex::Q3
    } else if k == 3 {
        PolynomialIndex::Q4
    } else if k == 4 {
        PolynomialIndex::Q5
    } else if k == 5 {
        PolynomialIndex::QM
    } else if k == 6 {
        PolynomialIndex::QC
    } else if k == 7 {
        PolynomialIndex::QArithmetic
    } else if k == 8 {
        PolynomialIndex::QFixedBase
    } else if k == 9 {
        PolynomialIndex::QRange
    } else if k == 10 {
        PolynomialIndex::QSort
    } else if k == 11 {
        PolynomialIndex::QLogic
    } else if k == 12 {
        PolynomialIndex::Table1
    } else if k == 13 {
        PolynomialIndex::Table2
    } else if k == 14 {
        PolynomialIndex::Table3
    } else if k == 15 {
        PolynomialIndex::Table4
    } else if k == 16 {
        PolynomialIndex::TableIndex
    } else if k == 17 {
        PolynomialIndex::TableType
    } else if k == 18 {
        PolynomialIndex::QElliptic
    } else if k == 19 {
        PolynomialIndex::QAux
    } else if k == 20 {
        PolynomialIndex::Sigma1
    } else if k == 21 {
        PolynomialIndex::Sigma2
    } else if k == 22 {
        PolynomialIndex::Sigma3
    } else if k == 23 {
        PolynomialIndex::Sigma4
    } else if k == 24 {
        PolynomialIndex::Id1
    } else if k == 25 {
        PolynomialIndex::Id2
    } else if k == 26 {
        PolynomialIndex::Id3
    } else if k == 27 {
        PolynomialIndex::Id4
    } else if k == 28 {
        PolynomialIndex::W1
    } else if k == 29 {
        PolynomialIndex::W2
    } else if k == 30 {
        PolynomialIndex::W3
    } else if k == 31 {
        PolynomialIndex::W4
    } else if k == 32 {
        PolynomialIndex::S
    } else if k == 33 {
        PolynomialIndex::Z
    } else if k == 34 {
        PolynomialIndex::ZLookup
    } else if k == 35 {
        PolynomialIndex::LagrangeFirst
    } else {
        PolynomialIndex::LagrangeLast
    }
}

/// Positions and labels are inverse to one another.
pub proof fn lemma_label_roundtrip(k: int)
    requires
        0 <= k < NUM_POLY_LABELS,
    ensures
        label_index(label_at(k)) == k,
{
}

/// One entry of the manifest.
#[derive(Clone, Copy, PartialEq, Eq, Structural, Debug)]
pub struct PolynomialDescriptor {
    pub id: PolynomialIndex,
    pub source: PolynomialSource,
    pub supports_shift: bool,
}

/// The canonical descriptor for a label.
pub open spec fn descriptor_of(id: PolynomialIndex) -> PolynomialDescriptor {
    PolynomialDescriptor { id, source: source_of(id), supports_shift: shiftable(id) }
}

/// The fixed descriptor list, in enumeration order.
pub struct PolynomialManifest {
    pub descriptors: Vec<PolynomialDescriptor>,
}

impl PolynomialManifest {
    /// The manifest holds exactly the canonical descriptor of every label, in
    /// enumeration order.
    pub open spec fn wf(&self) -> bool {
        &&& self.descriptors@.len() == NUM_POLY_LABELS
        &&& forall|k: int|
            0 <= k < NUM_POLY_LABELS ==> self.descriptors@[k] == descriptor_of(label_at(k))
    }

    /// Builds the fixed universe.
    pub fn new() -> (r: PolynomialManifest)
        ensures
            r.wf(),
    {
        let mut descriptors: Vec<PolynomialDescriptor> = Vec::new();
        let mut k: usize = 0;
        while k < NUM_POLY_LABELS
            invariant
                k <= NUM_POLY_LABELS,
                descriptors@.len() == k,
                forall|j: int| 0 <= j < k ==> descriptors@[j] == descriptor_of(label_at(j)),
            decreases NUM_POLY_LABELS - k,
        {
            let id = label_at_exec(k);
            let source = source_of_exec(id);
            let supports_shift = shiftable_exec(id);
            descriptors.push(PolynomialDescriptor { id, source, supports_shift });
            k = k + 1;
        }
        PolynomialManifest { descriptors }
    }

    /// Number of descriptors.
    pub fn len(&self) -> (r: usize)
        ensures
            r == self.descriptors@.len(),
    {
        self.descriptors.len()
    }

    /// Membership of a label in the universe.
    pub fn contains(&self, id: PolynomialIndex) -> (r: bool)
        requires
            self.wf(),
        ensures
            r,
    {
        let idx = label_index_exec(id);
        proof {
            lemma_label_roundtrip(label_index(id));
            assert(self.descriptors@[label_index(id)].id == id);
        }
        let d = self.descriptors[idx];
        d.id == id
    }

    /// A kernel read-set is valid when it repeats no label and is a strict
    /// subset of the universe; this is checked once at setup, never in the
    /// per-index hot loop.
    pub open spec fn valid_read_set(&self, required: Seq<PolynomialIndex>) -> bool {
        &&& required.len() < NUM_POLY_LABELS
        &&& forall|a: int, b: int|
            0 <= a < b < required.len() ==> required[a] != required[b]
    }

    /// Checks a kernel's declared read-set against the universe.
    pub fn validate_read_set(&self, required: &Vec<PolynomialIndex>) -> (r: bool)
        requires
            self.wf(),
        ensures
            r == self.valid_read_set(required@),
    {
        if required.len() >= NUM_POLY_LABELS {
            return false;
        }
        let mut a: usize = 0;
        while a < required.len()
            invariant
                a <= required@.len(),
                required@.len() < NUM_POLY_LABELS,
                forall|x: int, y: int|
                    0 <= x < y < required@.len() && x < a ==> required@[x] != required@[y],
            decreases required@.len() - a,
        {
            let mut b: usize = a + 1;
            while b < required.len()
                invariant
                    a < b <= required@.len(),
                    forall|y: int| a < y < b ==> required@[a as int] != required@[y],
                decreases required@.len() - b,
            {
                if required[a] == required[b] {
                    return false;
                }
                b = b + 1;
            }
            a = a + 1;
        }
        true
    }
}

pub fn source_of_exec(id: PolynomialIndex) -> (r: PolynomialSource)
    ensures
        r == source_of(id),
{
    match id {
        PolynomialIndex::Q1 => PolynomialSource::Selector,
        PolynomialIndex::Q2 => PolynomialSource::Selector,
        PolynomialIndex::Q3 => PolynomialSource::Selector,
        PolynomialIndex::Q4 => PolynomialSource::Selector,
        PolynomialIndex::Q5 => PolynomialSource::Selector,
        PolynomialIndex::QM => PolynomialSource::Selector,
        PolynomialIndex::QC => PolynomialSource::Selector,
        PolynomialIndex::QArithmetic => PolynomialSource::Selector,
        PolynomialIndex::QFixedBase => PolynomialSource::Selector,
        PolynomialIndex::QRange => PolynomialSource::Selector,
        PolynomialIndex::QSort => PolynomialSource::Selector,
        PolynomialIndex::QLogic => PolynomialSource::Selector,
        PolynomialIndex::Table1 => PolynomialSource::Selector,
        PolynomialIndex::Table2 => PolynomialSource::Selector,
        PolynomialIndex::Table3 => PolynomialSource::Selector,
        PolynomialIndex::Table4 => PolynomialSource::Selector,
        PolynomialIndex::TableIndex => PolynomialSource::Selector,
        PolynomialIndex::TableType => PolynomialSource::Selector,
        PolynomialIndex::QElliptic => PolynomialSource::Selector,
        PolynomialIndex::QAux => PolynomialSource::Selector,
        PolynomialIndex::Sigma1 => PolynomialSource::Permutation,
        PolynomialIndex::Sigma2 => PolynomialSource::Permutation,
        PolynomialIndex::Sigma3 => PolynomialSource::Permutation,
        PolynomialIndex::Sigma4 => PolynomialSource::Permutation,
        PolynomialIndex::Id1 => PolynomialSource::Permutation,
        PolynomialIndex::Id2 => PolynomialSource::Permutation,
        PolynomialIndex::Id3 => PolynomialSource::Permutation,
        PolynomialIndex::Id4 => PolynomialSource::Permutation,
        PolynomialIndex::W1 => PolynomialSource::Witness,
        PolynomialIndex::W2 => PolynomialSource::Witness,
        PolynomialIndex::W3 => PolynomialSource::Witness,
        PolynomialIndex::W4 => PolynomialSource::Witness,
        PolynomialIndex::S => PolynomialSource::Witness,
        PolynomialIndex::Z => PolynomialSource::Witness,
        PolynomialIndex::ZLookup => PolynomialSource::Witness,
        PolynomialIndex::LagrangeFirst => PolynomialSource::Other,
        PolynomialIndex::LagrangeLast => PolynomialSource::Other,
    }
}

pub fn shiftable_exec(id: PolynomialIndex) -> (r: bool)
    ensures
        r == shiftable(id),
{
    match id {
        PolynomialIndex::Q1 => false,
        PolynomialIndex::Q2 => false,
        PolynomialIndex::Q3 => false,
        PolynomialIndex::Q4 => false,
        PolynomialIndex::Q5 => false,
        PolynomialIndex::QM => false,
        PolynomialIndex::QC => false,
        PolynomialIndex::QArithmetic => false,
        PolynomialIndex::QFixedBase => false,
        PolynomialIndex::QRange => false,
        PolynomialIndex::QSort => false,
        PolynomialIndex::QLogic => false,
        PolynomialIndex::Table1 => true,
        PolynomialIndex::Table2 => true,
        PolynomialIndex::Table3 => true,
        PolynomialIndex::Table4 => true,
        PolynomialIndex::TableIndex => false,
        PolynomialIndex::TableType => false,
        PolynomialIndex::QElliptic => false,
        PolynomialIndex::QAux => false,
        PolynomialIndex::Sigma1 => false,
        PolynomialIndex::Sigma2 => false,
        PolynomialIndex::Sigma3 => false,
        PolynomialIndex::Sigma4 => false,
        PolynomialIndex::Id1 => false,
        PolynomialIndex::Id2 => false,
        PolynomialIndex::Id3 => false,
        PolynomialIndex::Id4 => false,
        PolynomialIndex::W1 => true,
        PolynomialIndex::W2 => true,
        PolynomialIndex::W3 => true,
        PolynomialIndex::W4 => true,
        PolynomialIndex::S => true,
        PolynomialIndex::Z => true,
        PolynomialIndex::ZLookup => true,
        PolynomialIndex::LagrangeFirst => false,
        PolynomialIndex::LagrangeLast => false,
    }
}

} // verus!
