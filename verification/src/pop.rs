//! Proof of possession.
//!
//! A signer at registry index `i` proves possession of the secret behind its
//! public key by publishing `derive_pop_base(i) * secret`, where the base
//! point of index `i` is a fixed seeded G2 point scaled by `i + 1`.  The
//! verifier checks the pairing equation
//! `e(key, -derive_pop_base(i)) * e(G1 generator, proof) == 1`.
//!
//! Scaling the base point linearly in the index is the scheme's deliberate
//! flaw: proofs at different indices live on one line through the seed point,
//! which lets linear combinations of honest proofs be reassembled at a fresh
//! index (see the crate's attack module).

use vstd::prelude::*;
use crate::group::{seeded_g2_dlog, G1Point, G2Point, Scalar};
use crate::group::pairing_product_is_identity;
use crate::modring::{lemma_mulm_comm, lemma_mulm_unit, lemma_pairing_cancel, mulm, r_order};
use vstd::arithmetic::div_mod::lemma_mod_equivalence;
use vstd::arithmetic::mul::lemma_mul_is_distributive_add;

verus! {

/// The fixed public seed of the possession base point.
pub const POP_SEED: u64 = 20399;

/// Discrete logarithm of the possession base point of index `i`: the seeded
/// point scaled by `i + 1`.
pub open spec fn pop_base_dlog(i: nat) -> nat {
    mulm(seeded_g2_dlog(POP_SEED), i + 1)
}

/// What `pop_verify` accepts: the proof must be the public key's discrete
/// logarithm times the base point of the index.
pub open spec fn spec_pop_accepts(pk: nat, i: nat, pf: nat) -> bool {
    pf == mulm(pk, pop_base_dlog(i))
}

/// The possession base point of index `i`.
pub fn derive_pop_base(i: usize) -> (r: G2Point)
    requires
        i + 1 <= u64::MAX,
    ensures
        r@ == pop_base_dlog(i as nat),
        r.wf(),
{
    let seed_point = G2Point::seeded(POP_SEED);
    let k = Scalar::from_u64(i as u64 + 1);
    seed_point.mul(&k)
}

/// A proof of possession for secret `sk` at registry index `i`.
pub fn pop_prove(sk: &Scalar, i: usize) -> (r: G2Point)
    requires
        sk.wf(),
        i + 1 <= u64::MAX,
    ensures
        r@ == mulm(pop_base_dlog(i as nat), sk@),
        r.wf(),
{
    derive_pop_base(i).mul(sk)
}

/// Checks a proof of possession: accepts exactly the scalar multiple of the
/// index's base point by the key's discrete logarithm.
pub fn pop_verify(pk: &G1Point, i: usize, pf: &G2Point) -> (b: bool)
    requires
        pk.wf(),
        pf.wf(),
        i + 1 <= u64::MAX,
    ensures
        b == spec_pop_accepts(pk@, i as nat, pf@),
{
    let base = derive_pop_base(i);
    let neg_base = base.neg();
    let generator = G1Point::generator();
    let b = pairing_product_is_identity(pk, &neg_base, &generator, pf);
    proof {
        lemma_mulm_unit(pf@);
        lemma_pairing_cancel(pk@, base@, neg_base@, pf@);
    }
    b
}

/// Completeness of possession proofs: for every secret `s` and index `i`, the
/// proof produced for `(s, i)` is accepted against the public key
/// `G1 generator * s` at index `i`.  The key's discrete logarithm is
/// `mulm(1, s)` and the proof's is `mulm(pop_base_dlog(i), s)`, matching the
/// contracts of `pop_prove`, `pop_verify` and `G1Point::mul`.
pub proof fn lemma_pop_prove_verifies(s: nat, i: nat)
    requires
        s < r_order(),
    ensures
        spec_pop_accepts(mulm(1, s), i, mulm(pop_base_dlog(i), s)),
{
    lemma_mulm_unit(s);
    lemma_mulm_comm(pop_base_dlog(i), s);
}

/// Index binding of possession proofs: a proof computed for index `i` is
/// rejected at index `i + 1`.  This leaves out the degenerate secrets whose
/// product with the seed point's discrete logarithm vanishes in the ring
/// (zero among them); for those the two base points scale the proof to the
/// same identity element and no index check can tell them apart.
pub proof fn lemma_pop_index_mismatch(s: nat, i: nat)
    requires
        s < r_order(),
        mulm(s, seeded_g2_dlog(POP_SEED)) != 0,
    ensures
        !spec_pop_accepts(s, i + 1, mulm(pop_base_dlog(i), s)),
{
    let d = seeded_g2_dlog(POP_SEED);
    let x = mulm(s, d);
    let r = r_order() as int;
    if spec_pop_accepts(s, i + 1, mulm(pop_base_dlog(i), s)) {
        // Both sides are x scaled by the two successive indices.
        lemma_mulm_comm(pop_base_dlog(i), s);
        crate::modring::lemma_mulm_assoc(s, d, i + 1);
        lemma_mulm_comm(s, d);
        crate::modring::lemma_mulm_assoc(s, d, i + 2);
        assert(mulm(x, i + 1) == mulm(x, i + 2));
        // Successive multiples of x agree modulo the order only if x itself
        // vanishes.
        lemma_mod_equivalence((x * (i + 2)) as int, (x * (i + 1)) as int, r);
        lemma_mul_is_distributive_add(x as int, (i + 1) as int, 1);
        lemma_mod_equivalence(x as int, 0, r);
        vstd::arithmetic::div_mod::lemma_small_mod(x, r_order());
    }
}

} // verus!
