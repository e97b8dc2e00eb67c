//! BLS-style signatures over BLS12-381.
//!
//! A message is hashed to a G2 point with a fixed domain-separation tag; a
//! signature is that point scaled by the secret key, and verification checks
//! the pairing equation `e(key, -hash(msg)) * e(G1 generator, sig) == 1`.
//! Signatures and public keys aggregate by plain group addition, and the
//! aggregate verifies against the single shared message: the pairing equation
//! is additive in both the key and the signature.

use vstd::prelude::*;
use crate::group::{hash_to_g2_dlog, G1Point, G2Point, Scalar};
use crate::group::pairing_product_is_identity;
use crate::modring::{
    addm, lemma_mulm_comm, lemma_mulm_unit, lemma_pairing_cancel, lemma_sum_modr_scale,
    lemma_sum_modr_take_step, mulm, r_order, sum_modr,
};

verus! {

/// The fixed public domain-separation tag of the hash-to-curve map.
pub open spec fn spec_domain_tag() -> Seq<u8> {
    seq![1u8, 3u8, 3u8, 7u8]
}

/// Discrete logarithm of the G2 point a message hashes to under the scheme's
/// domain tag.
pub open spec fn msg_hash_dlog(m: Seq<u8>) -> nat {
    hash_to_g2_dlog(spec_domain_tag(), m)
}

/// Discrete logarithm of a signature: the message's hash point scaled by the
/// secret key.
pub open spec fn spec_sign_dlog(sk: nat, m: Seq<u8>) -> nat {
    mulm(msg_hash_dlog(m), sk)
}

/// What `verify` accepts: the signature must be the key's discrete logarithm
/// times the message's hash point.
pub open spec fn spec_verify_accepts(pk: nat, sig: nat, m: Seq<u8>) -> bool {
    sig == mulm(pk, msg_hash_dlog(m))
}

/// The views of a sequence of G1 points.
pub open spec fn g1_views(s: Seq<G1Point>) -> Seq<nat> {
    s.map_values(|p: G1Point| p@)
}

/// The views of a sequence of G2 points.
pub open spec fn g2_views(s: Seq<G2Point>) -> Seq<nat> {
    s.map_values(|p: G2Point| p@)
}

/// The deterministic, domain-separated hash of a message into G2.
pub fn hash_to_g2(msg: &[u8]) -> (r: G2Point)
    ensures
        r@ == msg_hash_dlog(msg@),
        r.wf(),
{
    let dst: Vec<u8> = vec![1u8, 3u8, 3u8, 7u8];
    let r = G2Point::hashed(dst.as_slice(), msg);
    proof {
        assert(dst@ =~= spec_domain_tag());
    }
    r
}

/// Signs a message: the hash point scaled by the secret key.
pub fn sign(sk: &Scalar, msg: &[u8]) -> (r: G2Point)
    requires
        sk.wf(),
    ensures
        r@ == spec_sign_dlog(sk@, msg@),
        r.wf(),
{
    hash_to_g2(msg).mul(sk)
}

/// Checks a signature: accepts exactly the scalar multiple of the message's
/// hash point by the key's discrete logarithm.
pub fn verify(pk: &G1Point, sig: &G2Point, msg: &[u8]) -> (b: bool)
    requires
        pk.wf(),
        sig.wf(),
    ensures
        b == spec_verify_accepts(pk@, sig@, msg@),
{
    let h = hash_to_g2(msg);
    let neg_h = h.neg();
    let generator = G1Point::generator();
    let b = pairing_product_is_identity(pk, &neg_h, &generator, sig);
    proof {
        lemma_mulm_unit(sig@);
        lemma_pairing_cancel(pk@, h@, neg_h@, sig@);
    }
    b
}

/// The group sum of a list of public keys.  Summation is order-independent:
/// the group is commutative, and `crate::modring::lemma_sum_modr_permutation`
/// proves that `sum_modr` does not depend on the order of its summands.
pub fn aggregate_public_keys(keys: &Vec<G1Point>) -> (r: G1Point)
    requires
        forall|k: int| 0 <= k < keys@.len() ==> (#[trigger] keys@[k]).wf(),
    ensures
        r@ == sum_modr(g1_views(keys@)),
        r.wf(),
{
    let views = Ghost(g1_views(keys@));
    let mut acc = G1Point::identity();
    let mut j: usize = 0;
    proof {
        assert(views@.take(0) =~= Seq::<nat>::empty());
    }
    while j < keys.len()
        invariant
            j <= keys@.len(),
            views@ == g1_views(keys@),
            forall|k: int| 0 <= k < keys@.len() ==> (#[trigger] keys@[k]).wf(),
            acc@ == sum_modr(views@.take(j as int)),
            acc.wf(),
        decreases keys@.len() - j,
    {
        acc = acc.add(&keys[j]);
        proof {
            lemma_sum_modr_take_step(views@, j as int);
        }
        j += 1;
    }
    proof {
        assert(views@.take(keys@.len() as int) =~= views@);
    }
    acc
}

/// The group sum of a list of signatures.  Summation is order-independent:
/// the group is commutative, and `crate::modring::lemma_sum_modr_permutation`
/// proves that `sum_modr` does not depend on the order of its summands.
pub fn aggregate_signatures(sigs: &Vec<G2Point>) -> (r: G2Point)
    requires
        forall|k: int| 0 <= k < sigs@.len() ==> (#[trigger] sigs@[k]).wf(),
    ensures
        r@ == sum_modr(g2_views(sigs@)),
        r.wf(),
{
    let views = Ghost(g2_views(sigs@));
    let mut acc = G2Point::identity();
    let mut j: usize = 0;
    proof {
        assert(views@.take(0) =~= Seq::<nat>::empty());
    }
    while j < sigs.len()
        invariant
            j <= sigs@.len(),
            views@ == g2_views(sigs@),
            forall|k: int| 0 <= k < sigs@.len() ==> (#[trigger] sigs@[k]).wf(),
            acc@ == sum_modr(views@.take(j as int)),
            acc.wf(),
        decreases sigs@.len() - j,
    {
        acc = acc.add(&sigs[j]);
        proof {
            lemma_sum_modr_take_step(views@, j as int);
        }
        j += 1;
    }
    proof {
        assert(views@.take(sigs@.len() as int) =~= views@);
    }
    acc
}

/// Completeness of signatures: for every secret `s` and message `m`, the
/// signature produced for `(s, m)` is accepted against the public key
/// `G1 generator * s`, whose discrete logarithm is `mulm(1, s)`.
pub proof fn lemma_sign_verifies(s: nat, m: Seq<u8>)
    requires
        s < r_order(),
    ensures
        spec_verify_accepts(mulm(1, s), spec_sign_dlog(s, m), m),
{
    lemma_mulm_unit(s);
    lemma_mulm_comm(msg_hash_dlog(m), s);
}

/// Aggregation homomorphism: for secrets `s_1 .. s_n` with public keys
/// `G1 generator * s_k` and a shared message, the sum of the individual
/// signatures is accepted against the sum of the public keys.  The sums are
/// those that `aggregate_public_keys` and `aggregate_signatures` return.
pub proof fn lemma_aggregate_verifies(secrets: Seq<nat>, m: Seq<u8>)
    ensures
        spec_verify_accepts(
            sum_modr(secrets),
            sum_modr(secrets.map_values(|s: nat| spec_sign_dlog(s, m))),
            m,
        ),
{
    let h = msg_hash_dlog(m);
    assert(secrets.map_values(|s: nat| spec_sign_dlog(s, m)) =~= secrets.map_values(
        |s: nat| mulm(h, s),
    ));
    lemma_sum_modr_scale(secrets, h);
    lemma_mulm_comm(h, sum_modr(secrets));
}

} // verus!
