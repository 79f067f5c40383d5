//! Algebraic laws of the field model: commutativity, associativity,
//! identities, and cancellation against a multiplicative inverse.  The widget
//! and grand-product proofs are built from these.

use vstd::prelude::*;

use vstd::arithmetic::div_mod::{lemma_add_mod_noop, lemma_mod_twice, lemma_mul_mod_noop_general,
    lemma_small_mod};
use vstd::seq_lib::group_to_multiset_ensures;
use crate::field::{fadd, fmul, field_order, in_field};

verus! {

/// Reducing the left addend first does not change a sum's residue.
pub proof fn lemma_mod_add_left(x: int, y: int)
    ensures
        ((x % (field_order() as int)) + y) % (field_order() as int) == (x + y) % (
        field_order() as int),
{
    let q = field_order() as int;
    lemma_add_mod_noop(x, y, q);
    lemma_add_mod_noop(x % q, y, q);
    lemma_mod_twice(x, q);
}

/// Reducing the right addend first does not change a sum's residue.
pub proof fn lemma_mod_add_right(x: int, y: int)
    ensures
        (x + (y % (field_order() as int))) % (field_order() as int) == (x + y) % (
        field_order() as int),
{
    let q = field_order() as int;
    lemma_add_mod_noop(x, y, q);
    lemma_add_mod_noop(x, y % q, q);
    lemma_mod_twice(y, q);
}

/// Field addition commutes.
pub proof fn lemma_fadd_comm(a: nat, b: nat)
    ensures
        fadd(a, b) == fadd(b, a),
{
}

/// Field addition associates.
pub proof fn lemma_fadd_assoc(a: nat, b: nat, c: nat)
    ensures
        fadd(fadd(a, b), c) == fadd(a, fadd(b, c)),
{
    lemma_mod_add_left((a + b) as int, c as int);
    lemma_mod_add_right(a as int, (b + c) as int);
}

/// Adding zero only reduces.
pub proof fn lemma_fadd_zero(a: nat)
    ensures
        fadd(a, 0) == a % field_order(),
        in_field(a) ==> fadd(a, 0) == a,
{
    if in_field(a) {
        lemma_small_mod(a, field_order());
    }
}

/// Field multiplication commutes.
pub proof fn lemma_fmul_comm(a: nat, b: nat)
    ensures
        fmul(a, b) == fmul(b, a),
{
    assert(a * b == b * a) by (nonlinear_arith);
}

/// Field multiplication associates.
pub proof fn lemma_fmul_assoc(a: nat, b: nat, c: nat)
    ensures
        fmul(fmul(a, b), c) == fmul(a, fmul(b, c)),
{
    let q = field_order() as int;
    lemma_mul_mod_noop_general((a * b) as int, c as int, q);
    lemma_mul_mod_noop_general(a as int, (b * c) as int, q);
    assert((a * b) * c == a * (b * c)) by (nonlinear_arith);
}

/// Multiplying by zero yields zero.
pub proof fn lemma_fmul_zero(a: nat)
    ensures
        fmul(a, 0) == 0,
        fmul(0, a) == 0,
{
    lemma_small_mod(0, field_order());
}

/// Multiplying by one only reduces.
pub proof fn lemma_fmul_one(a: nat)
    ensures
        fmul(a, 1) == a % field_order(),
        fmul(1, a) == a % field_order(),
        in_field(a) ==> fmul(a, 1) == a && fmul(1, a) == a,
{
    if in_field(a) {
        lemma_small_mod(a, field_order());
    }
}

/// Reducing either factor first does not change a product's residue.
pub proof fn lemma_fmul_mod_noop(x: nat, y: nat)
    ensures
        fmul(x % field_order(), y) == fmul(x, y),
        fmul(x, y % field_order()) == fmul(x, y),
{
    lemma_mul_mod_noop_general(x as int, y as int, field_order() as int);
}

/// Equal products against an invertible factor have equal residues: from
/// `a·d == b·d` and `d·e == 1` follows `a == b` modulo the field order.
pub proof fn lemma_fmul_cancel(a: nat, b: nat, d: nat, e: nat)
    requires
        fmul(a, d) == fmul(b, d),
        fmul(d, e) == 1,
    ensures
        a % field_order() == b % field_order(),
{
    lemma_fmul_one(a);
    lemma_fmul_one(b);
    lemma_fmul_assoc(a, d, e);
    lemma_fmul_assoc(b, d, e);
    lemma_fmul_mod_noop(a, d * e);
    lemma_fmul_mod_noop(b, d * e);
    assert(fmul(a, fmul(d, e)) == fmul(a, 1));
    assert(fmul(b, fmul(d, e)) == fmul(b, 1));
}

/// A product of invertible factors is invertible.
pub proof fn lemma_fmul_inverse_product(d1: nat, e1: nat, d2: nat, e2: nat)
    requires
        fmul(d1, e1) == 1,
        fmul(d2, e2) == 1,
    ensures
        fmul(fmul(d1, d2), fmul(e1, e2)) == 1,
{
    lemma_fmul_assoc(fmul(d1, d2), e1, e2);
    lemma_fmul_comm(fmul(d1, d2), e1);
    lemma_fmul_assoc(e1, d1, d2);
    lemma_fmul_comm(fmul(e1, d1), d2);
    lemma_fmul_comm(e1, d1);
    lemma_fmul_assoc(d2, fmul(d1, e1), e2);
    lemma_fmul_mod_noop(d2 * 1, e2 as nat);
    lemma_fmul_one(d2);
    lemma_fmul_mod_noop(d2, e2);
    assert(fmul(fmul(d2, fmul(d1, e1)), e2) == fmul(d2, e2)) by {
        assert(fmul(d2, fmul(d1, e1)) == fmul(d2, 1));
        lemma_fmul_one(d2);
        lemma_fmul_mod_noop(d2, e2);
    }
}

/// One step of the running grand product keeps the telescoping identity:
/// from `z·dpre == npre` and an inverse `e` of the row denominator `df`, the
/// extended product `z·nf·e` against the extended denominator prefix
/// `dpre·df` yields the extended numerator prefix `npre·nf`.
pub proof fn lemma_grand_product_step(z: nat, npre: nat, dpre: nat, nf: nat, df: nat, e: nat)
    requires
        fmul(z, dpre) == npre,
        fmul(df, e) == 1,
        in_field(nf),
        in_field(dpre),
    ensures
        fmul(fmul(fmul(z, nf), e), fmul(dpre, df)) == fmul(npre, nf),
{
    let x = fmul(fmul(z, nf), e);
    lemma_fmul_assoc(fmul(z, nf), e, fmul(dpre, df));
    lemma_fmul_comm(dpre, df);
    lemma_fmul_assoc(e, df, dpre);
    lemma_fmul_comm(e, df);
    lemma_fmul_one(dpre);
    assert(fmul(e, fmul(df, dpre)) == dpre);
    assert(fmul(x, fmul(dpre, df)) == fmul(fmul(z, nf), dpre));
    lemma_fmul_assoc(z, nf, dpre);
    lemma_fmul_comm(nf, dpre);
    lemma_fmul_assoc(z, dpre, nf);
}

/// The product of a sequence of values in the field model.
pub open spec fn seq_fprod(s: Seq<nat>) -> nat
    decreases s.len(),
{
    if s.len() == 0 {
        1
    } else {
        fmul(seq_fprod(s.drop_last()), s.last())
    }
}

/// Removing one element divides a sequence product: the whole product is the
/// reduced product times the removed element.
pub proof fn lemma_seq_fprod_remove(s: Seq<nat>, j: int)
    requires
        0 <= j < s.len(),
    ensures
        seq_fprod(s) == fmul(seq_fprod(s.remove(j)), s[j]),
    decreases s.len(),
{
    if j == s.len() - 1 {
        assert(s.remove(j) =~= s.drop_last());
    } else {
        let dl = s.drop_last();
        lemma_seq_fprod_remove(dl, j);
        assert(s.remove(j).drop_last() =~= dl.remove(j));
        assert(s.remove(j).last() == s.last());
        // seq_fprod(s.remove(j)) == fmul(seq_fprod(dl.remove(j)), s.last())
        // seq_fprod(s) == fmul(fmul(seq_fprod(dl.remove(j)), dl[j]), s.last())
        lemma_fmul_assoc(seq_fprod(dl.remove(j)), dl[j], s.last());
        lemma_fmul_comm(dl[j], s.last());
        lemma_fmul_assoc(seq_fprod(dl.remove(j)), s.last(), dl[j]);
    }
}

/// Sequences holding the same multiset of values have the same product.
pub proof fn lemma_fprod_multiset(a: Seq<nat>, b: Seq<nat>)
    requires
        a.to_multiset() == b.to_multiset(),
    ensures
        seq_fprod(a) == seq_fprod(b),
    decreases a.len(),
{
    broadcast use group_to_multiset_ensures;

    if a.len() == 0 {
        assert(b.to_multiset().len() == 0);
        assert(b.len() == 0);
    } else {
        let x = a.last();
        assert(a.to_multiset().count(x) > 0);
        assert(b.to_multiset().count(x) > 0);
        assert(b.contains(x));
        let j = choose|j: int| 0 <= j < b.len() && b[j] == x;
        lemma_seq_fprod_remove(b, j);
        assert(a.remove(a.len() - 1) =~= a.drop_last());
        assert(a.drop_last().to_multiset() == a.to_multiset().remove(x));
        assert(b.remove(j).to_multiset() == b.to_multiset().remove(x));
        lemma_fprod_multiset(a.drop_last(), b.remove(j));
    }
}

/// A sequence of values with elementwise inverses has an invertible product:
/// the product of the inverses inverts the product.
pub proof fn lemma_seq_fprod_invertible(d: Seq<nat>, e: Seq<nat>)
    requires
        d.len() == e.len(),
        forall|k: int| 0 <= k < d.len() ==> #[trigger] fmul(d[k], e[k]) == 1,
    ensures
        fmul(seq_fprod(d), seq_fprod(e)) == 1,
    decreases d.len(),
{
    if d.len() == 0 {
        lemma_fmul_one(1);
    } else {
        lemma_seq_fprod_invertible(d.drop_last(), e.drop_last());
        assert(fmul(d[d.len() - 1], e[e.len() - 1]) == 1);
        lemma_fmul_inverse_product(
            seq_fprod(d.drop_last()),
            seq_fprod(e.drop_last()),
            d.last(),
            e.last(),
        );
    }
}

} // verus!
