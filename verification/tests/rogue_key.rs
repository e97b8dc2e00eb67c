//! The rogue-key construction against the flawed per-index possession scheme.

use bls_pop::attack::{forge_entry, run_attack};
use bls_pop::group::{G1Point, Scalar};
use bls_pop::pop::{pop_prove, pop_verify};
use bls_pop::registry::{verify_all_pops, PublicKeyEntry};
use bls_pop::sig::{aggregate_public_keys, verify};

fn honest_registry(secrets: &[u64]) -> Vec<PublicKeyEntry> {
    let mut entries = Vec::new();
    for (i, s) in secrets.iter().enumerate() {
        let sk = Scalar::from_u64(*s);
        entries.push(PublicKeyEntry {
            key: G1Point::generator().mul(&sk),
            pop: pop_prove(&sk, i),
        });
    }
    entries
}

#[test]
fn rogue_key_scenario() {
    // Three honest signers; the attacker picks 64 and the shared message.
    let entries = honest_registry(&[11, 22, 33]);
    let target = Scalar::from_u64(64);
    let msg = b"0xArsi";
    let outcome = run_attack(&entries, &target, msg).unwrap();

    // The forged proof of possession passes at the new index.
    assert!(pop_verify(&outcome.forged.key, 3, &outcome.forged.pop));

    // All four keys aggregate to the generator times the attacker's secret.
    let mut all_keys: Vec<G1Point> = entries.iter().map(|e| e.key.clone()).collect();
    all_keys.push(outcome.forged.key.clone());
    let aggregate = aggregate_public_keys(&all_keys);
    assert!(aggregate.equals(&outcome.aggregate_key));
    assert!(aggregate.equals(&G1Point::generator().mul(&target)));

    // The attacker's lone signature verifies against the aggregate key.
    assert!(verify(&aggregate, &outcome.aggregate_sig, msg));
}

#[test]
fn forged_entry_cancels_honest_keys() {
    let entries = honest_registry(&[2, 4]);
    let target = Scalar::from_u64(123);
    let forged = forge_entry(&entries, &target);
    assert!(pop_verify(&forged.key, 2, &forged.pop));
    let sum = entries[0].key.add(&entries[1].key).add(&forged.key);
    assert!(sum.equals(&G1Point::generator().mul(&target)));
}

#[test]
fn forge_works_on_empty_registry() {
    let entries = Vec::new();
    let target = Scalar::from_u64(5);
    let outcome = run_attack(&entries, &target, b"nobody home").unwrap();
    assert!(pop_verify(&outcome.forged.key, 0, &outcome.forged.pop));
    assert!(outcome.forged.key.equals(&G1Point::generator().mul(&target)));
}

#[test]
fn attack_halts_on_invalid_registry() {
    let sk = Scalar::from_u64(11);
    // A proof made for the wrong index does not verify, so the driver stops.
    let entries = vec![PublicKeyEntry {
        key: G1Point::generator().mul(&sk),
        pop: pop_prove(&sk, 7),
    }];
    assert!(!verify_all_pops(&entries));
    assert!(run_attack(&entries, &Scalar::from_u64(64), b"0xArsi").is_none());
}

#[test]
fn verify_all_pops_accepts_honest_registry() {
    let entries = honest_registry(&[11, 22, 33]);
    assert!(verify_all_pops(&entries));
}
