//! The rogue-key construction against the per-index possession scheme.
//!
//! Given a registry whose `n` entries all pass possession verification, an
//! attacker who knows no individual secret forges an entry for index `n`
//! whose key cancels every honest key out of the aggregate — leaving the
//! aggregate equal to `G1 generator * target` for a target secret of the
//! attacker's choice — and whose possession proof passes at index `n`.
//!
//! The proof is forged by linearity alone: every honest proof is
//! `secret_k * (seed point * (k + 1))`, so rescaling it by the public inverse
//! of `k + 1` moves it to the common basis of the seed point.  Summing the
//! rescaled proofs, subtracting them from `seed point * target`, and scaling
//! back by `n + 1` lands exactly on the line that verification at index `n`
//! demands.

use vstd::prelude::*;
use crate::group::{seeded_g2_dlog, G1Point, G2Point, Scalar};
use crate::modring::{
    addm, lemma_addm_assoc, lemma_addm_cancel, lemma_addm_zero, lemma_mulm_assoc,
    lemma_mulm_comm, lemma_mulm_distrib_addm, lemma_mulm_rescale, lemma_mulm_unit,
    lemma_sum_modr_take_step, mulm, sum_modr,
};
use crate::pop::{derive_pop_base, pop_base_dlog, spec_pop_accepts, POP_SEED};
use crate::registry::{
    all_entries_accepted, entries_wf, entry_accepted, key_views, verify_all_pops, PublicKeyEntry,
};
use crate::sig::{
    aggregate_public_keys, g1_views, sign, spec_sign_dlog, spec_verify_accepts, verify,
};

verus! {

/// Everything the forging driver produces: the forged registry entry, the
/// aggregate of all public keys including the forged one, and the signature
/// under the attacker's target secret, which doubles as the aggregate
/// signature.
pub struct AttackOutcome {
    /// The forged entry for the next free registry index.
    pub forged: PublicKeyEntry,
    /// The sum of every registered key and the forged key.
    pub aggregate_key: G1Point,
    /// The attacker's signature on the chosen message.
    pub aggregate_sig: G2Point,
}

/// Forges a registry entry at index `n` (the current length) from `n`
/// possession-verified entries and an attacker-chosen target secret: the
/// forged proof passes possession verification at index `n`, and the forged
/// key completes the honest keys' sum to exactly the target.
pub fn forge_entry(entries: &Vec<PublicKeyEntry>, target: &Scalar) -> (r: PublicKeyEntry)
    requires
        entries_wf(entries@),
        all_entries_accepted(entries@),
        entries@.len() + 1 <= u64::MAX,
        target.wf(),
    ensures
        r.wf(),
        spec_pop_accepts(r.key@, entries@.len() as nat, r.pop@),
        addm(sum_modr(key_views(entries@)), r.key@) == target@,
{
    let ghost d = seeded_g2_dlog(POP_SEED);
    let ghost keys = key_views(entries@);
    let n = entries.len();

    // The forged key starts from G1 generator * target ...
    let generator = G1Point::generator();
    let mut acc_key = generator.mul(target);
    proof {
        lemma_mulm_unit(target@);
        assert(keys.take(0) =~= Seq::<nat>::empty());
        lemma_addm_zero(target@);
    }

    // ... and the forged proof from the index-n base point rescaled to the
    // seed basis and multiplied by the target.
    let base_n = derive_pop_base(n);
    let n_plus_1 = Scalar::from_u64(n as u64 + 1);
    let inv_n_plus_1 = n_plus_1.inverse().unwrap();
    let mut acc_pop = base_n.mul(target).mul(&inv_n_plus_1);
    proof {
        lemma_mulm_comm(pop_base_dlog(n as nat), target@);
        lemma_mulm_rescale(target@, d, (n + 1) as nat, inv_n_plus_1@);
        assert(acc_pop@ == mulm(d, acc_key@));
    }

    // Walking the registry, each honest key is subtracted from the key
    // accumulator and each honest proof, rescaled to the seed basis by the
    // public inverse of its index plus one, from the proof accumulator.
    let mut j: usize = 0;
    while j < n
        invariant
            j <= n,
            n == entries@.len(),
            n + 1 <= u64::MAX,
            entries_wf(entries@),
            all_entries_accepted(entries@),
            keys == key_views(entries@),
            d == seeded_g2_dlog(POP_SEED),
            acc_key.wf(),
            acc_pop.wf(),
            addm(acc_key@, sum_modr(keys.take(j as int))) == target@,
            target.wf(),
            acc_pop@ == mulm(d, acc_key@),
        decreases n - j,
    {
        let e = &entries[j];
        let j_plus_1 = Scalar::from_u64(j as u64 + 1);
        let inv_j_plus_1 = j_plus_1.inverse().unwrap();
        let scaled = e.pop.mul(&inv_j_plus_1);
        proof {
            assert(entry_accepted(entries@, j as int));
            lemma_mulm_rescale(e.key@, d, (j + 1) as nat, inv_j_plus_1@);
            assert(scaled@ == mulm(d, e.key@));
        }
        let new_acc_key = acc_key.sub(&e.key);
        let new_acc_pop = acc_pop.sub(&scaled);
        proof {
            // The key invariant advances by one summand.
            lemma_sum_modr_take_step(keys, j as int);
            lemma_addm_assoc(new_acc_key@, e.key@, sum_modr(keys.take(j as int)));
            // The proof accumulator stays the seed-basis image of the key
            // accumulator.
            lemma_mulm_distrib_addm(d, new_acc_key@, e.key@);
            lemma_addm_cancel(new_acc_pop@, mulm(d, new_acc_key@), mulm(d, e.key@));
        }
        acc_key = new_acc_key;
        acc_pop = new_acc_pop;
        j += 1;
    }
    proof {
        assert(keys.take(n as int) =~= keys);
    }

    // Scaling back to the basis of index n puts the forged proof on the line
    // that pop_verify checks.
    let forged_pop = acc_pop.mul(&n_plus_1);
    proof {
        lemma_mulm_assoc(acc_key@, d, (n + 1) as nat);
        lemma_mulm_comm(d, acc_key@);
    }
    PublicKeyEntry { key: acc_key, pop: forged_pop }
}

/// Runs the whole attack as the driver does: verify every registered proof of
/// possession, forge the entry for the next index, aggregate all keys, and
/// sign the message with the target secret.  It succeeds exactly when every
/// registered entry verifies; then the forged entry passes possession
/// verification at the new index, the aggregate key equals
/// `G1 generator * target`, and the attacker's lone signature verifies
/// against the aggregate key — the forged registration hands the attacker the
/// whole aggregate.
pub fn run_attack(entries: &Vec<PublicKeyEntry>, target: &Scalar, msg: &[u8]) -> (r: Option<
    AttackOutcome,
>)
    requires
        entries_wf(entries@),
        entries@.len() + 1 <= u64::MAX,
        target.wf(),
    ensures
        r is Some <==> all_entries_accepted(entries@),
        r matches Some(o) ==> ({
            &&& o.forged.wf()
            &&& spec_pop_accepts(o.forged.key@, entries@.len() as nat, o.forged.pop@)
            &&& o.aggregate_key@ == target@
            &&& o.aggregate_sig@ == spec_sign_dlog(target@, msg@)
            &&& spec_verify_accepts(o.aggregate_key@, o.aggregate_sig@, msg@)
        }),
{
    if !verify_all_pops(entries) {
        return None;
    }
    let forged = forge_entry(entries, target);

    // The aggregate of the honest keys and the forged key.
    let mut all_keys: Vec<G1Point> = Vec::new();
    let mut j: usize = 0;
    while j < entries.len()
        invariant
            j <= entries@.len(),
            entries_wf(entries@),
            all_keys@.len() == j,
            forall|i: int| 0 <= i < j ==> all_keys@[i] == entries@[i].key,
        decreases entries@.len() - j,
    {
        all_keys.push(entries[j].key.clone());
        j += 1;
    }
    all_keys.push(forged.key.clone());
    let aggregate_key = aggregate_public_keys(&all_keys);
    proof {
        assert(g1_views(all_keys@).drop_last() =~= key_views(entries@));
        assert(g1_views(all_keys@).last() == forged.key@);
    }

    // The attacker signs with the target secret it chose itself; since the
    // honest keys cancel, this one signature is the aggregate signature.
    let aggregate_sig = sign(target, msg);
    proof {
        crate::modring::lemma_mulm_comm(crate::sig::msg_hash_dlog(msg@), target@);
    }
    let outcome = AttackOutcome { forged, aggregate_key, aggregate_sig };
    let ok = verify(&outcome.aggregate_key, &outcome.aggregate_sig, msg);
    assert(ok);
    Some(outcome)
}

} // verus!
