//! A BLS-style aggregate signature scheme with per-index proofs of
//! possession, together with the rogue-key construction that defeats it.
//!
//! The scheme works in the pairing-friendly curve BLS12-381.  Secret keys are
//! scalars, public keys live in G1, signatures and possession proofs in G2.
//! Every group element handled here lies in the prime-order subgroup of its
//! curve, so it is characterised by its discrete logarithm with respect to a
//! fixed generator; contracts throughout the crate speak of those discrete
//! logarithms as residues modulo the subgroup order.

pub mod attack;
pub mod group;
pub mod modring;
pub mod pop;
pub mod registry;
pub mod sig;
