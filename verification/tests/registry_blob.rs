//! Decoding the registry byte blob.

use bls_pop::group::{G1Point, Scalar};
use bls_pop::pop::pop_prove;
use bls_pop::registry::{registry_from_bytes, verify_all_pops, PublicKeyEntry};

fn encode_registry(entries: &[PublicKeyEntry]) -> Vec<u8> {
    let mut bytes = (entries.len() as u64).to_le_bytes().to_vec();
    for e in entries {
        bytes.extend_from_slice(&e.key.to_bytes());
        bytes.extend_from_slice(&e.pop.to_bytes());
    }
    bytes
}

fn sample_entries() -> Vec<PublicKeyEntry> {
    [5u64, 8]
        .iter()
        .enumerate()
        .map(|(i, s)| {
            let sk = Scalar::from_u64(*s);
            PublicKeyEntry { key: G1Point::generator().mul(&sk), pop: pop_prove(&sk, i) }
        })
        .collect()
}

#[test]
fn registry_roundtrip() {
    let entries = sample_entries();
    let bytes = encode_registry(&entries);
    assert_eq!(bytes.len(), 8 + 2 * 288);
    let decoded = registry_from_bytes(&bytes).unwrap();
    assert_eq!(decoded.len(), 2);
    for (a, b) in entries.iter().zip(decoded.iter()) {
        assert!(a.key.equals(&b.key));
        assert!(a.pop.equals(&b.pop));
    }
    assert!(verify_all_pops(&decoded));
}

#[test]
fn registry_of_nothing_decodes_empty() {
    let bytes = 0u64.to_le_bytes().to_vec();
    let decoded = registry_from_bytes(&bytes).unwrap();
    assert!(decoded.is_empty());
}

#[test]
fn registry_rejects_truncated_blob() {
    let mut bytes = encode_registry(&sample_entries());
    bytes.pop();
    assert!(registry_from_bytes(&bytes).is_none());
    assert!(registry_from_bytes(&[1, 2, 3]).is_none());
}

#[test]
fn registry_rejects_wrong_count() {
    let mut bytes = encode_registry(&sample_entries());
    // Announce three entries while carrying two.
    bytes[0] = 3;
    assert!(registry_from_bytes(&bytes).is_none());
}

#[test]
fn registry_rejects_invalid_point() {
    let mut bytes = encode_registry(&sample_entries());
    // Overwrite the first key with an encoding that is no curve point.
    for b in bytes.iter_mut().skip(8).take(96) {
        *b = 0xff;
    }
    assert!(registry_from_bytes(&bytes).is_none());
}
