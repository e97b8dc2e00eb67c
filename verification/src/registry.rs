//! The registry of signers.
//!
//! A registry is an ordered list of entries, each a public key in G1 paired
//! with a proof of possession in G2; an entry's index is its position.  The
//! registry is loaded wholesale from an opaque byte blob — a 64-bit
//! little-endian count followed by the uncompressed encodings of each pair —
//! and is read-only afterwards.

use vstd::prelude::*;
use vstd::slice::{slice_index_get, slice_subrange};
use crate::group::{g1_decoded, g2_decoded, G1Point, G2Point};
use crate::pop::{pop_verify, spec_pop_accepts};

verus! {

/// Bytes of an uncompressed G1 point.
pub const G1_ENCODED_LEN: usize = 96;

/// Bytes of an uncompressed G2 point.
pub const G2_ENCODED_LEN: usize = 192;

/// Bytes of one serialized registry entry.
pub const ENTRY_ENCODED_LEN: usize = 288;

/// One registered signer: a public key and its proof of possession, immutable
/// after registration.
pub struct PublicKeyEntry {
    /// The signer's public key.
    pub key: G1Point,
    /// The signer's proof of possession for its registry index.
    pub pop: G2Point,
}

impl Clone for PublicKeyEntry {
    fn clone(&self) -> (r: Self)
        ensures
            r.key == self.key,
            r.pop == self.pop,
    {
        PublicKeyEntry { key: self.key.clone(), pop: self.pop.clone() }
    }
}

impl PublicKeyEntry {
    /// Both components lie in their prime-order subgroups.
    pub open spec fn wf(&self) -> bool {
        self.key.wf() && self.pop.wf()
    }
}

/// Every entry of the sequence is well formed.
pub open spec fn entries_wf(s: Seq<PublicKeyEntry>) -> bool {
    forall|i: int| 0 <= i < s.len() ==> (#[trigger] s[i]).wf()
}

/// The entry at position `i` passes possession verification for index `i`.
pub open spec fn entry_accepted(s: Seq<PublicKeyEntry>, i: int) -> bool {
    spec_pop_accepts(s[i].key@, i as nat, s[i].pop@)
}

/// Every entry passes possession verification at its own index.
pub open spec fn all_entries_accepted(s: Seq<PublicKeyEntry>) -> bool {
    forall|i: int| 0 <= i < s.len() ==> #[trigger] entry_accepted(s, i)
}

/// The discrete logarithms of the entries' public keys.
pub open spec fn key_views(s: Seq<PublicKeyEntry>) -> Seq<nat> {
    s.map_values(|e: PublicKeyEntry| e.key@)
}

/// The value of the 64-bit little-endian count at the head of a registry
/// blob.
pub open spec fn le_u64_at(b: Seq<u8>) -> nat {
    (b[0] + b[1] * 0x100 + b[2] * 0x1_0000 + b[3] * 0x100_0000 + b[4] * 0x1_0000_0000 + b[5]
        * 0x100_0000_0000 + b[6] * 0x1_0000_0000_0000 + b[7] * 0x100_0000_0000_0000) as nat
}

/// A registry blob has a plausible shape when it holds the 8-byte count and
/// then exactly as many 288-byte entries as the count says.
pub open spec fn registry_shape_ok(b: Seq<u8>) -> bool {
    b.len() >= 8 && b.len() == 8 + le_u64_at(b) * 288
}

/// The 96 bytes holding the public key of the entry at position `i`.
pub open spec fn key_slice(b: Seq<u8>, i: int) -> Seq<u8> {
    b.subrange(8 + i * 288, 8 + i * 288 + 96)
}

/// The 192 bytes holding the possession proof of the entry at position `i`.
pub open spec fn pop_slice(b: Seq<u8>, i: int) -> Seq<u8> {
    b.subrange(8 + i * 288 + 96, 8 + (i + 1) * 288)
}

/// Both point encodings of the entry at position `i` decode to subgroup
/// members.
pub open spec fn entry_decodes(b: Seq<u8>, i: int) -> bool {
    g1_decoded(key_slice(b, i)) is Some && g2_decoded(pop_slice(b, i)) is Some
}

/// A registry blob decodes when its shape matches its count and every
/// entry's two point encodings decode.
pub open spec fn registry_decodes(b: Seq<u8>) -> bool {
    registry_shape_ok(b) && forall|i: int|
        0 <= i < le_u64_at(b) ==> #[trigger] entry_decodes(b, i)
}

/// Checks every entry's proof of possession at its own index.
pub fn verify_all_pops(entries: &Vec<PublicKeyEntry>) -> (b: bool)
    requires
        entries_wf(entries@),
        entries@.len() + 1 <= u64::MAX,
    ensures
        b == all_entries_accepted(entries@),
{
    let mut j: usize = 0;
    while j < entries.len()
        invariant
            j <= entries@.len(),
            entries@.len() + 1 <= u64::MAX,
            entries_wf(entries@),
            forall|i: int| 0 <= i < j ==> #[trigger] entry_accepted(entries@, i),
        decreases entries@.len() - j,
    {
        let e = &entries[j];
        if !pop_verify(&e.key, j, &e.pop) {
            assert(!entry_accepted(entries@, j as int));
            return false;
        }
        j += 1;
    }
    true
}

/// Decodes a registry blob: the 64-bit little-endian entry count, then each
/// entry as an uncompressed G1 point followed by an uncompressed G2 point.
/// It succeeds exactly when the blob's length matches its count and every
/// entry's points decode to subgroup members; then the result holds exactly
/// the announced number of entries, in order, each the decode of its own two
/// slices.
pub fn registry_from_bytes(bytes: &[u8]) -> (r: Option<Vec<PublicKeyEntry>>)
    ensures
        r is Some <==> registry_decodes(bytes@),
        r matches Some(v) ==> v@.len() == le_u64_at(bytes@) && forall|i: int|
            0 <= i < v@.len() ==> (#[trigger] v@[i]).wf() && g1_decoded(key_slice(bytes@, i))
                == Some(v@[i].key@) && g2_decoded(pop_slice(bytes@, i)) == Some(v@[i].pop@),
{
    if bytes.len() < 8 {
        return None;
    }
    let b0 = *slice_index_get(bytes, 0) as u64;
    let b1 = *slice_index_get(bytes, 1) as u64;
    let b2 = *slice_index_get(bytes, 2) as u64;
    let b3 = *slice_index_get(bytes, 3) as u64;
    let b4 = *slice_index_get(bytes, 4) as u64;
    let b5 = *slice_index_get(bytes, 5) as u64;
    let b6 = *slice_index_get(bytes, 6) as u64;
    let b7 = *slice_index_get(bytes, 7) as u64;
    let count: u64 = b0 + b1 * 0x100 + b2 * 0x1_0000 + b3 * 0x100_0000 + b4 * 0x1_0000_0000 + b5
        * 0x100_0000_0000 + b6 * 0x1_0000_0000_0000 + b7 * 0x100_0000_0000_0000;
    assert(count as nat == le_u64_at(bytes@));
    let body_len: usize = bytes.len() - 8;
    if (body_len / ENTRY_ENCODED_LEN) as u64 != count || body_len % ENTRY_ENCODED_LEN != 0 {
        proof {
            vstd::arithmetic::div_mod::lemma_fundamental_div_mod(
                body_len as int,
                ENTRY_ENCODED_LEN as int,
            );
        }
        return None;
    }
    proof {
        vstd::arithmetic::div_mod::lemma_fundamental_div_mod(
            body_len as int,
            ENTRY_ENCODED_LEN as int,
        );
        assert(body_len == count * 288);
    }
    let n = count as usize;
    let blob_len: usize = bytes.len();
    let mut entries: Vec<PublicKeyEntry> = Vec::new();
    let mut j: usize = 0;
    while j < n
        invariant
            j <= n,
            n == le_u64_at(bytes@),
            n * 288 + 8 == blob_len,
            blob_len == bytes@.len(),
            registry_shape_ok(bytes@),
            entries@.len() == j,
            forall|i: int|
                0 <= i < j ==> (#[trigger] entries@[i]).wf() && g1_decoded(key_slice(bytes@, i))
                    == Some(entries@[i].key@) && g2_decoded(pop_slice(bytes@, i)) == Some(
                    entries@[i].pop@,
                ),
        decreases n - j,
    {
        proof {
            vstd::arithmetic::mul::lemma_mul_inequality(j as int + 1, n as int, 288);
        }
        let offset: usize = 8 + j * 288;
        let key_bytes = slice_subrange(bytes, offset, offset + G1_ENCODED_LEN);
        let pop_bytes = slice_subrange(
            bytes,
            offset + G1_ENCODED_LEN,
            offset + G1_ENCODED_LEN + G2_ENCODED_LEN,
        );
        proof {
            assert(key_bytes@ =~= key_slice(bytes@, j as int));
            assert(pop_bytes@ =~= pop_slice(bytes@, j as int));
        }
        let key = match G1Point::from_bytes(key_bytes) {
            Some(p) => p,
            None => {
                assert(!entry_decodes(bytes@, j as int));
                return None;
            },
        };
        let pop = match G2Point::from_bytes(pop_bytes) {
            Some(p) => p,
            None => {
                assert(!entry_decodes(bytes@, j as int));
                return None;
            },
        };
        entries.push(PublicKeyEntry { key, pop });
        j += 1;
    }
    proof {
        assert forall|i: int| 0 <= i < n implies #[trigger] entry_decodes(bytes@, i) by {
            assert(g1_decoded(key_slice(bytes@, i)) == Some(entries@[i].key@));
            assert(g2_decoded(pop_slice(bytes@, i)) == Some(entries@[i].pop@));
        }
    }
    Some(entries)
}

} // verus!
