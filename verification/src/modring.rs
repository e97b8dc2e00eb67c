//! Residue arithmetic modulo the order of the BLS12-381 prime-order
//! subgroups.
//!
//! Discrete logarithms of subgroup elements are residues in `[0, r_order())`.
//! Group addition, negation and scalar multiplication act on them as `addm`
//! and `mulm`; the lemmas here supply the ring identities that the scheme's
//! proofs rest on.

use vstd::prelude::*;
use vstd::arithmetic::div_mod::{
    lemma_add_mod_noop, lemma_add_mod_noop_right, lemma_mod_equivalence,
    lemma_mul_mod_noop_general, lemma_small_mod,
};
use vstd::arithmetic::mul::{
    lemma_mul_is_associative, lemma_mul_is_commutative, lemma_mul_is_distributive_add,
};

verus! {

/// The order of the prime-order subgroups of BLS12-381 (the modulus of its
/// scalar field).
pub open spec fn r_order() -> nat {
    52435875175126190479447740508185965837690552500527637822603658699938581184513nat
}

/// Sum of two residues, reduced.
pub open spec fn addm(a: nat, b: nat) -> nat {
    (a + b) % r_order()
}

/// Product of two residues, reduced.
pub open spec fn mulm(a: nat, b: nat) -> nat {
    (a * b) % r_order()
}

/// Multiplication of residues is commutative.
pub proof fn lemma_mulm_comm(a: nat, b: nat)
    ensures
        mulm(a, b) == mulm(b, a),
{
    lemma_mul_is_commutative(a as int, b as int);
}

/// Multiplication of residues is associative.
pub proof fn lemma_mulm_assoc(a: nat, b: nat, c: nat)
    ensures
        mulm(mulm(a, b), c) == mulm(a, mulm(b, c)),
{
    let r = r_order() as int;
    lemma_mul_mod_noop_general((a * b) as int, c as int, r);
    lemma_mul_mod_noop_general(a as int, (b * c) as int, r);
    lemma_mul_is_associative(a as int, b as int, c as int);
}

/// One is a multiplicative unit on reduced residues.
pub proof fn lemma_mulm_unit(a: nat)
    requires
        a < r_order(),
    ensures
        mulm(a, 1) == a,
        mulm(1, a) == a,
{
    lemma_small_mod(a, r_order());
}

/// Addition of residues is associative.
pub proof fn lemma_addm_assoc(a: nat, b: nat, c: nat)
    ensures
        addm(addm(a, b), c) == addm(a, addm(b, c)),
{
    let r = r_order() as int;
    lemma_add_mod_noop_right(c as int, (a + b) as int, r);
    lemma_add_mod_noop_right(a as int, (b + c) as int, r);
}

/// Zero is an additive unit on reduced residues.
pub proof fn lemma_addm_zero(a: nat)
    requires
        a < r_order(),
    ensures
        addm(a, 0) == a,
{
    lemma_small_mod(a, r_order());
}

/// Addition of a fixed residue can be cancelled on reduced residues.
pub proof fn lemma_addm_cancel(x: nat, y: nat, c: nat)
    requires
        x < r_order(),
        y < r_order(),
        addm(x, c) == addm(y, c),
    ensures
        x == y,
{
    let r = r_order() as int;
    lemma_mod_equivalence((x + c) as int, (y + c) as int, r);
    lemma_mod_equivalence(x as int, y as int, r);
    lemma_small_mod(x, r_order());
    lemma_small_mod(y, r_order());
}

/// Multiplication distributes over addition of residues.
pub proof fn lemma_mulm_distrib_addm(s: nat, a: nat, b: nat)
    ensures
        mulm(s, addm(a, b)) == addm(mulm(s, a), mulm(s, b)),
{
    let r = r_order() as int;
    lemma_mul_mod_noop_general(s as int, (a + b) as int, r);
    lemma_mul_is_distributive_add(s as int, a as int, b as int);
    lemma_add_mod_noop((s * a) as int, (s * b) as int, r);
}

/// A product with a residue and with its inverse collapses: if `j * v == 1`
/// in the ring, then `(k * (d * j)) * v == d * k`.  This is the rescaling
/// step that moves a possession proof from the basis of one index to the
/// unit basis.
pub proof fn lemma_mulm_rescale(k: nat, d: nat, j: nat, v: nat)
    requires
        mulm(j, v) == 1,
    ensures
        mulm(mulm(k, mulm(d, j)), v) == mulm(d, k),
{
    let r = r_order() as int;
    lemma_mulm_assoc(k, mulm(d, j), v);
    lemma_mulm_assoc(d, j, v);
    assert(mulm(d, 1) == d % r_order());
    lemma_mul_mod_noop_general(k as int, d as int, r);
    lemma_mulm_comm(k, d);
}

/// The pairing-product equation `x * nb + y == 0` over residues, where `nb`
/// is the negation of `b`, holds exactly when `y == x * b`.
pub proof fn lemma_pairing_cancel(x: nat, b: nat, nb: nat, y: nat)
    requires
        x < r_order(),
        b < r_order(),
        nb < r_order(),
        y < r_order(),
        addm(nb, b) == 0,
    ensures
        (addm(mulm(x, nb), y) == 0) <==> (y == mulm(x, b)),
{
    let r = r_order() as int;
    // x * (nb + b) is a multiple of the order.
    lemma_mul_mod_noop_general(x as int, (nb + b) as int, r);
    lemma_mul_is_distributive_add(x as int, nb as int, b as int);
    assert((x * nb + x * b) % r_order() == 0);
    // addm(mulm(x, nb), y) is the residue of x * nb + y.
    lemma_add_mod_noop((x * nb) as int, y as int, r);
    lemma_small_mod(y, r_order());
    assert(addm(mulm(x, nb), y) == (x * nb + y) % r_order());
    // x * nb + y and y - x * b differ by that multiple of the order.
    lemma_mod_equivalence((x * nb + y) as int, y - x * b, r);
    // y - x * b vanishes modulo the order exactly when y is the residue of
    // x * b.
    lemma_mod_equivalence(y as int, (x * b) as int, r);
}

/// Left-to-right sum of a sequence of residues, reduced at every step.
pub open spec fn sum_modr(s: Seq<nat>) -> nat
    decreases s.len(),
{
    if s.len() == 0 {
        0
    } else {
        addm(sum_modr(s.drop_last()), s.last())
    }
}

/// A sum of residues is itself a reduced residue.
pub proof fn lemma_sum_modr_bound(s: Seq<nat>)
    ensures
        sum_modr(s) < r_order(),
    decreases s.len(),
{
    if s.len() == 0 {
    } else {
        lemma_sum_modr_bound(s.drop_last());
    }
}

/// Extending a prefix by one element adds that element to its sum.
pub proof fn lemma_sum_modr_take_step(s: Seq<nat>, i: int)
    requires
        0 <= i < s.len(),
    ensures
        sum_modr(s.take(i + 1)) == addm(sum_modr(s.take(i)), s[i]),
{
    assert(s.take(i + 1).drop_last() =~= s.take(i));
    assert(s.take(i + 1).last() == s[i]);
}

/// Removing one element from a sequence takes exactly that summand out of
/// its sum.
pub proof fn lemma_sum_modr_remove(s: Seq<nat>, i: int)
    requires
        0 <= i < s.len(),
    ensures
        sum_modr(s) == addm(sum_modr(s.remove(i)), s[i]),
    decreases s.len(),
{
    if i == s.len() - 1 {
        assert(s.remove(i) =~= s.drop_last());
    } else {
        let t = s.drop_last();
        lemma_sum_modr_remove(t, i);
        assert(s.remove(i).drop_last() =~= t.remove(i));
        assert(s.remove(i).last() == s.last());
        // sum_modr(s) == addm(addm(sum_modr(t.remove(i)), s[i]), s.last())
        // sum_modr(s.remove(i)) == addm(sum_modr(t.remove(i)), s.last())
        lemma_addm_assoc(sum_modr(t.remove(i)), s[i] as nat, s.last());
        lemma_addm_assoc(sum_modr(t.remove(i)), s.last(), s[i] as nat);
    }
}

/// Summation is order-independent: two sequences that hold the same residues
/// with the same multiplicities, in any order, have the same sum.
pub proof fn lemma_sum_modr_permutation(a: Seq<nat>, b: Seq<nat>)
    requires
        a.to_multiset() == b.to_multiset(),
    ensures
        sum_modr(a) == sum_modr(b),
    decreases a.len(),
{
    broadcast use vstd::seq_lib::group_to_multiset_ensures;

    if a.len() == 0 {
        assert(b.to_multiset().len() == 0);
    } else {
        let x = a.last();
        assert(a.to_multiset().count(x) > 0);
        assert(b.contains(x));
        let i = choose|i: int| 0 <= i < b.len() && b[i] == x;
        assert(a.remove(a.len() - 1) =~= a.drop_last());
        assert(a.drop_last().to_multiset() =~= b.remove(i).to_multiset());
        lemma_sum_modr_permutation(a.drop_last(), b.remove(i));
        lemma_sum_modr_remove(b, i);
    }
}

/// Scaling every element of a sum by a common residue scales the sum.
pub proof fn lemma_sum_modr_scale(s: Seq<nat>, h: nat)
    ensures
        sum_modr(s.map_values(|x: nat| mulm(h, x))) == mulm(h, sum_modr(s)),
    decreases s.len(),
{
    let m = s.map_values(|x: nat| mulm(h, x));
    if s.len() == 0 {
        assert(m.len() == 0);
        vstd::arithmetic::mul::lemma_mul_basics(h as int);
        lemma_small_mod(0, r_order());
        assert(mulm(h, 0) == 0);
    } else {
        lemma_sum_modr_scale(s.drop_last(), h);
        assert(m.drop_last() =~= s.drop_last().map_values(|x: nat| mulm(h, x)));
        assert(m.last() == mulm(h, s.last()));
        lemma_mulm_distrib_addm(h, sum_modr(s.drop_last()), s.last());
        assert(sum_modr(m) == addm(sum_modr(m.drop_last()), m.last()));
        assert(sum_modr(m) == addm(mulm(h, sum_modr(s.drop_last())), mulm(h, s.last())));
        assert(sum_modr(s) == addm(sum_modr(s.drop_last()), s.last()));
    }
}

} // verus!
