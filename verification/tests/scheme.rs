//! Signature and proof-of-possession behaviour on concrete values.

use bls_pop::group::{G1Point, G2Point, Scalar};
use bls_pop::pop::{derive_pop_base, pop_prove, pop_verify};
use bls_pop::sig::{aggregate_public_keys, aggregate_signatures, sign, verify};

#[test]
fn pop_roundtrip_accepts() {
    for (s, i) in [(7u64, 0usize), (7, 5), (123456789, 2)] {
        let sk = Scalar::from_u64(s);
        let pk = G1Point::generator().mul(&sk);
        let proof = pop_prove(&sk, i);
        assert!(pop_verify(&pk, i, &proof));
    }
}

#[test]
fn pop_wrong_index_rejected() {
    let sk = Scalar::from_u64(11);
    let pk = G1Point::generator().mul(&sk);
    let proof = pop_prove(&sk, 0);
    assert!(!pop_verify(&pk, 1, &proof));
    let proof3 = pop_prove(&sk, 3);
    assert!(!pop_verify(&pk, 4, &proof3));
    assert!(!pop_verify(&pk, 2, &proof3));
}

#[test]
fn pop_wrong_key_rejected() {
    let sk = Scalar::from_u64(11);
    let other = Scalar::from_u64(12);
    let pk = G1Point::generator().mul(&other);
    let proof = pop_prove(&sk, 0);
    assert!(!pop_verify(&pk, 0, &proof));
}

#[test]
fn pop_base_is_seed_point_scaled() {
    // The base point of index i is the base point of index 0 scaled by i + 1.
    let base0 = derive_pop_base(0);
    let base2 = derive_pop_base(2);
    let three = Scalar::from_u64(3);
    assert!(base0.mul(&three).equals(&base2));
}

#[test]
fn sign_verify_roundtrip() {
    let sk = Scalar::from_u64(42);
    let pk = G1Point::generator().mul(&sk);
    let sig = sign(&sk, b"attack at dawn");
    assert!(verify(&pk, &sig, b"attack at dawn"));
}

#[test]
fn verify_rejects_other_key() {
    let sk = Scalar::from_u64(42);
    let other = Scalar::from_u64(43);
    let pk = G1Point::generator().mul(&other);
    let sig = sign(&sk, b"attack at dawn");
    assert!(!verify(&pk, &sig, b"attack at dawn"));
}

#[test]
fn verify_rejects_flipped_message_bits() {
    let sk = Scalar::from_u64(42);
    let pk = G1Point::generator().mul(&sk);
    let msg = b"attack at dawn";
    let sig = sign(&sk, msg);
    for byte in 0..msg.len() {
        for bit in 0..8 {
            let mut tampered = msg.to_vec();
            tampered[byte] ^= 1u8 << bit;
            assert!(!verify(&pk, &sig, &tampered));
        }
    }
}

#[test]
fn verify_rejects_flipped_signature_bits() {
    let sk = Scalar::from_u64(42);
    let pk = G1Point::generator().mul(&sk);
    let msg = b"attack at dawn";
    let sig = sign(&sk, msg);
    let encoded = sig.to_bytes();
    assert_eq!(encoded.len(), 192);
    let mut rejected_or_undecodable = 0usize;
    for byte in 0..encoded.len() {
        let mut tampered = encoded.clone();
        tampered[byte] ^= 1;
        match G2Point::from_bytes(&tampered) {
            // Most flips leave the curve or the subgroup and never decode.
            None => rejected_or_undecodable += 1,
            Some(p) => {
                assert!(!verify(&pk, &p, msg));
                rejected_or_undecodable += 1;
            },
        }
    }
    assert_eq!(rejected_or_undecodable, encoded.len());
}

#[test]
fn pop_verify_rejects_flipped_proof_bits() {
    let sk = Scalar::from_u64(42);
    let pk = G1Point::generator().mul(&sk);
    let proof = pop_prove(&sk, 1);
    let encoded = proof.to_bytes();
    for byte in [0usize, 47, 95, 96, 191] {
        let mut tampered = encoded.clone();
        tampered[byte] ^= 1;
        if let Some(p) = G2Point::from_bytes(&tampered) {
            assert!(!pop_verify(&pk, 1, &p));
        }
    }
}

#[test]
fn aggregate_homomorphism() {
    let msg = b"one message for all";
    let secrets = [3u64, 5, 9];
    let mut keys = Vec::new();
    let mut sigs = Vec::new();
    for s in secrets {
        let sk = Scalar::from_u64(s);
        keys.push(G1Point::generator().mul(&sk));
        sigs.push(sign(&sk, msg));
    }
    let agg_key = aggregate_public_keys(&keys);
    let agg_sig = aggregate_signatures(&sigs);
    assert!(verify(&agg_key, &agg_sig, msg));
    // The sums do not depend on the order of the parts.
    keys.reverse();
    sigs.reverse();
    assert!(aggregate_public_keys(&keys).equals(&agg_key));
    assert!(aggregate_signatures(&sigs).equals(&agg_sig));
    // 3 + 5 + 9 = 17, so the aggregate key is the generator times 17.
    let seventeen = Scalar::from_u64(17);
    assert!(agg_key.equals(&G1Point::generator().mul(&seventeen)));
}

#[test]
fn aggregate_of_nothing_is_identity() {
    let keys: Vec<G1Point> = Vec::new();
    assert!(aggregate_public_keys(&keys).equals(&G1Point::identity()));
    let sigs: Vec<G2Point> = Vec::new();
    assert!(aggregate_signatures(&sigs).equals(&G2Point::identity()));
}

#[test]
fn scalar_inverse_of_zero_is_none() {
    assert!(Scalar::from_u64(0).inverse().is_none());
}

#[test]
fn scalar_inverse_cancels() {
    let five = Scalar::from_u64(5);
    let inv = five.inverse().unwrap();
    let g = G1Point::generator();
    assert!(g.mul(&five).mul(&inv).equals(&g));
}

#[test]
fn point_serialization_roundtrip() {
    let seven = Scalar::from_u64(7);
    let p = G1Point::generator().mul(&seven);
    let bytes = p.to_bytes();
    assert_eq!(bytes.len(), 96);
    let q = G1Point::from_bytes(&bytes).unwrap();
    assert!(p.equals(&q));

    let sk = Scalar::from_u64(9);
    let sig = sign(&sk, b"roundtrip");
    let sig_bytes = sig.to_bytes();
    assert_eq!(sig_bytes.len(), 192);
    let sig_back = G2Point::from_bytes(&sig_bytes).unwrap();
    assert!(sig.equals(&sig_back));
}

#[test]
fn point_from_bytes_rejects_wrong_length() {
    assert!(G1Point::from_bytes(&[0u8; 95]).is_none());
    assert!(G1Point::from_bytes(&[0u8; 97]).is_none());
    assert!(G2Point::from_bytes(&[0u8; 191]).is_none());
}
