//! The two pairing groups of BLS12-381 and their scalar field.
//!
//! Curve arithmetic is delegated to the arkworks crates; this module wraps it
//! in types whose mathematical views are residues modulo the subgroup order.
//! A scalar's view is the residue it represents; a point's view is its
//! discrete logarithm with respect to the group generator (for `G1Point` the
//! canonical G1 generator, for `G2Point` the canonical G2 generator).  The
//! view of a point outside the prime-order subgroup is unconstrained, so a
//! point is well formed (`wf`) exactly when its view is reduced; every
//! constructor here yields subgroup members, which keeps that invariant.

use vstd::prelude::*;
use ark_ec::pairing::Pairing;
use ark_ec::{AffineRepr, CurveGroup};
use ark_ff::Field;
use ark_ff::field_hashers::DefaultFieldHasher;
use ark_ec::hashing::HashToCurve;
use ark_ec::hashing::curve_maps::wb::WBMap;
use ark_ec::hashing::map_to_curve_hasher::MapToCurveBasedHasher;
use ark_serialize::{CanonicalDeserialize, CanonicalSerialize};
use ark_std::UniformRand;
use ark_std::Zero;
use ark_std::rand::SeedableRng;
use crate::modring::{addm, mulm, r_order};

verus! {

/// The residue that a scalar stands for.
pub uninterp spec fn scalar_value(s: Scalar) -> nat;

/// The discrete logarithm of a G1 point with respect to the G1 generator.
pub uninterp spec fn g1_dlog(p: G1Point) -> nat;

/// The discrete logarithm of a G2 point with respect to the G2 generator.
pub uninterp spec fn g2_dlog(p: G2Point) -> nat;

/// The discrete logarithm of the G2 point sampled from a generator seeded
/// with the given value.
pub uninterp spec fn seeded_g2_dlog(seed: u64) -> nat;

/// The discrete logarithm of the G2 point that the domain-separated
/// hash-to-curve map assigns to a message.
pub uninterp spec fn hash_to_g2_dlog(dst: Seq<u8>, msg: Seq<u8>) -> nat;

/// The canonical 96-byte uncompressed encoding of the G1 subgroup point with
/// the given discrete logarithm.
pub uninterp spec fn g1_encoding(d: nat) -> Seq<u8>;

/// What deserializing 96 bytes as an uncompressed G1 point yields: the
/// decoded subgroup point's discrete logarithm, or `None` where the bytes
/// are rejected.
pub uninterp spec fn g1_decoded(b: Seq<u8>) -> Option<nat>;

/// The canonical 192-byte uncompressed encoding of the G2 subgroup point
/// with the given discrete logarithm.
pub uninterp spec fn g2_encoding(d: nat) -> Seq<u8>;

/// What deserializing 192 bytes as an uncompressed G2 point yields: the
/// decoded subgroup point's discrete logarithm, or `None` where the bytes
/// are rejected.
pub uninterp spec fn g2_decoded(b: Seq<u8>) -> Option<nat>;

/// An element of the BLS12-381 scalar field: a secret key or a coefficient.
/// It holds an `Fr` element of ark_bls12_381, which Verus does not look into.
#[verifier::external_body]
pub struct Scalar {
    f: ark_bls12_381::Fr,
}

impl Clone for Scalar {
    /// Relies on `Fr` of ark_bls12_381 being `Copy`: the clone is the same
    /// element.
    #[verifier::external_body]
    fn clone(&self) -> (r: Self)
        ensures
            r == *self,
    {
        Scalar { f: self.f }
    }
}

impl View for Scalar {
    type V = nat;

    open spec fn view(&self) -> nat {
        scalar_value(*self)
    }
}

impl Scalar {
    /// A scalar is well formed when its residue is reduced; `Fr` elements
    /// always are.
    pub open spec fn wf(&self) -> bool {
        self@ < r_order()
    }

    /// Relies on `Fr: From<u64>` of ark_ff: the element represents `n`
    /// reduced modulo the field order, and `n` already is reduced since the
    /// order exceeds `u64::MAX`.
    #[verifier::external_body]
    fn fr_from_u64(n: u64) -> (r: Scalar)
        ensures
            scalar_value(r) == n as nat,
    {
        Scalar { f: ark_bls12_381::Fr::from(n) }
    }

    /// The scalar representing `n`.
    pub fn from_u64(n: u64) -> (r: Scalar)
        ensures
            r@ == n as nat,
            r.wf(),
    {
        Self::fr_from_u64(n)
    }

    /// Relies on `Field::inverse` of ark_ff: it returns the multiplicative
    /// inverse of a nonzero element and `None` exactly for zero.
    #[verifier::external_body]
    fn fr_inverse(&self) -> (r: Option<Scalar>)
        ensures
            r is Some <==> self@ != 0,
            r matches Some(y) ==> mulm(self@, y@) == 1 && y.wf(),
    {
        self.f.inverse().map(|f| Scalar { f })
    }

    /// The multiplicative inverse, defined for every scalar but zero.
    pub fn inverse(&self) -> (r: Option<Scalar>)
        ensures
            r is Some <==> self@ != 0,
            r matches Some(y) ==> mulm(self@, y@) == 1 && y.wf(),
    {
        self.fr_inverse()
    }
}

/// A point of the prime-order subgroup of G1: a public key, individual or
/// aggregated.
/// It holds a `G1Affine` point of ark_bls12_381, which Verus does not look
/// into.
#[verifier::external_body]
pub struct G1Point {
    p: ark_bls12_381::G1Affine,
}

impl Clone for G1Point {
    /// Relies on `G1Affine` of ark_bls12_381 being `Copy`: the clone is the
    /// same point.
    #[verifier::external_body]
    fn clone(&self) -> (r: Self)
        ensures
            r == *self,
    {
        G1Point { p: self.p }
    }
}

impl View for G1Point {
    type V = nat;

    open spec fn view(&self) -> nat {
        g1_dlog(*self)
    }
}

/// A point of the prime-order subgroup of G2: a signature or a possession
/// proof.
/// It holds a `G2Affine` point of ark_bls12_381, which Verus does not look
/// into.
#[verifier::external_body]
pub struct G2Point {
    p: ark_bls12_381::G2Affine,
}

impl Clone for G2Point {
    /// Relies on `G2Affine` of ark_bls12_381 being `Copy`: the clone is the
    /// same point.
    #[verifier::external_body]
    fn clone(&self) -> (r: Self)
        ensures
            r == *self,
    {
        G2Point { p: self.p }
    }
}

impl View for G2Point {
    type V = nat;

    open spec fn view(&self) -> nat {
        g2_dlog(*self)
    }
}

impl G1Point {
    /// A point is well formed when it lies in the prime-order subgroup,
    /// which is exactly when its view is a reduced residue.
    pub open spec fn wf(&self) -> bool {
        self@ < r_order()
    }

    /// Relies on `AffineRepr::generator` of ark_ec: the canonical G1
    /// generator, the point of discrete logarithm one.
    #[verifier::external_body]
    fn generator_point() -> (r: G1Point)
        ensures
            g1_dlog(r) == 1,
    {
        G1Point { p: ark_bls12_381::G1Affine::generator() }
    }

    /// The canonical generator of the G1 subgroup.
    pub fn generator() -> (r: G1Point)
        ensures
            r@ == 1,
            r.wf(),
    {
        Self::generator_point()
    }

    /// Relies on `AffineRepr::zero` of ark_ec: the point at infinity, the
    /// group identity.
    #[verifier::external_body]
    fn identity_point() -> (r: G1Point)
        ensures
            r@ == 0,
    {
        G1Point { p: ark_bls12_381::G1Affine::zero() }
    }

    /// The identity of the group.
    pub fn identity() -> (r: G1Point)
        ensures
            r@ == 0,
            r.wf(),
    {
        Self::identity_point()
    }

    /// Relies on curve point addition of ark_ec: on the subgroup, discrete
    /// logarithms add.
    #[verifier::external_body]
    fn add_point(&self, other: &G1Point) -> (r: G1Point)
        requires
            self.wf(),
            other.wf(),
        ensures
            r@ == addm(self@, other@),
    {
        G1Point { p: (self.p.into_group() + other.p).into_affine() }
    }

    /// The group sum of two points.
    pub fn add(&self, other: &G1Point) -> (r: G1Point)
        requires
            self.wf(),
            other.wf(),
        ensures
            r@ == addm(self@, other@),
            r.wf(),
    {
        self.add_point(other)
    }

    /// Relies on curve point negation of ark_ec: the negation of a subgroup
    /// point is the subgroup point that cancels it.
    #[verifier::external_body]
    fn neg_point(&self) -> (r: G1Point)
        requires
            self.wf(),
        ensures
            addm(r@, self@) == 0,
            r.wf(),
    {
        G1Point { p: -self.p }
    }

    /// The group negation of a point.
    pub fn neg(&self) -> (r: G1Point)
        requires
            self.wf(),
        ensures
            addm(r@, self@) == 0,
            r.wf(),
    {
        self.neg_point()
    }

    /// The group difference: the point that, added to `other`, gives back
    /// `self`.
    pub fn sub(&self, other: &G1Point) -> (r: G1Point)
        requires
            self.wf(),
            other.wf(),
        ensures
            addm(r@, other@) == self@,
            r.wf(),
    {
        let n = other.neg();
        let r = self.add(&n);
        proof {
            crate::modring::lemma_addm_assoc(self@, n@, other@);
            crate::modring::lemma_addm_zero(self@);
        }
        r
    }

    /// Relies on scalar multiplication of ark_ec: it multiplies the discrete
    /// logarithm by the scalar's residue.
    #[verifier::external_body]
    fn mul_point(&self, s: &Scalar) -> (r: G1Point)
        requires
            self.wf(),
        ensures
            r@ == mulm(self@, s@),
    {
        G1Point { p: (self.p * s.f).into_affine() }
    }

    /// The scalar multiple of a point.
    pub fn mul(&self, s: &Scalar) -> (r: G1Point)
        requires
            self.wf(),
        ensures
            r@ == mulm(self@, s@),
            r.wf(),
    {
        self.mul_point(s)
    }

    /// Relies on `PartialEq` of ark_ec affine points: equality of points,
    /// which on the subgroup is equality of discrete logarithms.
    #[verifier::external_body]
    fn points_equal(&self, other: &G1Point) -> (r: bool)
        requires
            self.wf(),
            other.wf(),
        ensures
            r == (self@ == other@),
    {
        self.p == other.p
    }

    /// Whether two points are the same group element.
    pub fn equals(&self, other: &G1Point) -> (r: bool)
        requires
            self.wf(),
            other.wf(),
        ensures
            r == (self@ == other@),
    {
        self.points_equal(other)
    }

    /// Relies on `CanonicalSerialize::serialize_uncompressed` of
    /// ark_serialize: a G1 point takes 96 bytes uncompressed, writing to a
    /// byte vector cannot fail, the encoding is a deterministic function of
    /// the point — for a subgroup point, of its discrete logarithm — and
    /// deserializing it with validation yields the point back.
    #[verifier::external_body]
    fn point_to_bytes(&self) -> (r: Vec<u8>)
        requires
            self.wf(),
        ensures
            r@.len() == 96,
            r@ == g1_encoding(self@),
            g1_decoded(r@) == Some(self@),
    {
        let mut out: Vec<u8> = Vec::new();
        self.p.serialize_uncompressed(&mut out).unwrap();
        out
    }

    /// The canonical 96-byte uncompressed encoding of the point; decoding it
    /// gives the point back.
    pub fn to_bytes(&self) -> (r: Vec<u8>)
        requires
            self.wf(),
        ensures
            r@.len() == 96,
            r@ == g1_encoding(self@),
            g1_decoded(r@) == Some(self@),
    {
        self.point_to_bytes()
    }

    /// Relies on `CanonicalDeserialize::deserialize_uncompressed` of
    /// ark_serialize: the decode is a deterministic function of the 96
    /// bytes, and it accepts only encodings of points that are on the curve
    /// and in the prime-order subgroup.
    #[verifier::external_body]
    fn point_from_bytes(bytes: &[u8]) -> (r: Option<G1Point>)
        requires
            bytes@.len() == 96,
        ensures
            r is Some <==> g1_decoded(bytes@) is Some,
            r matches Some(p) ==> p.wf() && g1_decoded(bytes@) == Some(p@),
    {
        ark_bls12_381::G1Affine::deserialize_uncompressed(bytes).ok().map(|p| G1Point { p })
    }

    /// Decodes the 96-byte uncompressed form of a subgroup point: it
    /// succeeds exactly when 96 bytes are given and they decode, and then
    /// returns the decoded point.
    pub fn from_bytes(bytes: &[u8]) -> (r: Option<G1Point>)
        ensures
            bytes@.len() == 96 ==> (r is Some <==> g1_decoded(bytes@) is Some),
            bytes@.len() != 96 ==> r is None,
            r matches Some(p) ==> p.wf() && g1_decoded(bytes@) == Some(p@),
    {
        if bytes.len() != 96 {
            None
        } else {
            Self::point_from_bytes(bytes)
        }
    }
}

impl G2Point {
    /// A point is well formed when it lies in the prime-order subgroup,
    /// which is exactly when its view is a reduced residue.
    pub open spec fn wf(&self) -> bool {
        self@ < r_order()
    }

    /// Relies on `UniformRand::rand` of ark_std together with
    /// `StdRng::seed_from_u64`: sampling is a deterministic function of the
    /// seed, and the sample is multiplied by the cofactor, so it lies in the
    /// prime-order subgroup.
    #[verifier::external_body]
    fn seeded_point(seed: u64) -> (r: G2Point)
        ensures
            g2_dlog(r) == seeded_g2_dlog(seed),
            g2_dlog(r) < r_order(),
    {
        let rng = &mut ark_std::rand::rngs::StdRng::seed_from_u64(seed);
        G2Point { p: ark_bls12_381::G2Affine::rand(rng) }
    }

    /// The fixed public G2 point derived from a seed.
    pub(crate) fn seeded(seed: u64) -> (r: G2Point)
        ensures
            r@ == seeded_g2_dlog(seed),
            r.wf(),
    {
        Self::seeded_point(seed)
    }

    /// Relies on `MapToCurveBasedHasher` of ark_ec over sha2 and the
    /// Wahby--Boneh map for the BLS12-381 G2 curve: the map is a
    /// deterministic function of domain tag and message, its construction
    /// checks only fixed curve parameters that are valid for this curve, and
    /// it clears the cofactor, so the result lies in the prime-order
    /// subgroup.
    #[verifier::external_body]
    pub(crate) fn hashed(dst: &[u8], msg: &[u8]) -> (r: G2Point)
        ensures
            r@ == hash_to_g2_dlog(dst@, msg@),
            r.wf(),
    {
        let hasher = MapToCurveBasedHasher::<
            ark_bls12_381::G2Projective,
            DefaultFieldHasher<sha2::Sha256, 128>,
            WBMap<ark_bls12_381::g2::Config>,
        >::new(dst).unwrap();
        G2Point { p: hasher.hash(msg).unwrap() }
    }

    /// Relies on `AffineRepr::zero` of ark_ec: the point at infinity, the
    /// group identity.
    #[verifier::external_body]
    fn identity_point() -> (r: G2Point)
        ensures
            r@ == 0,
    {
        G2Point { p: ark_bls12_381::G2Affine::zero() }
    }

    /// The identity of the group.
    pub fn identity() -> (r: G2Point)
        ensures
            r@ == 0,
            r.wf(),
    {
        Self::identity_point()
    }

    /// Relies on curve point addition of ark_ec: on the subgroup, discrete
    /// logarithms add.
    #[verifier::external_body]
    fn add_point(&self, other: &G2Point) -> (r: G2Point)
        requires
            self.wf(),
            other.wf(),
        ensures
            r@ == addm(self@, other@),
    {
        G2Point { p: (self.p.into_group() + other.p).into_affine() }
    }

    /// The group sum of two points.
    pub fn add(&self, other: &G2Point) -> (r: G2Point)
        requires
            self.wf(),
            other.wf(),
        ensures
            r@ == addm(self@, other@),
            r.wf(),
    {
        self.add_point(other)
    }

    /// Relies on curve point negation of ark_ec: the negation of a subgroup
    /// point is the subgroup point that cancels it.
    #[verifier::external_body]
    fn neg_point(&self) -> (r: G2Point)
        requires
            self.wf(),
        ensures
            addm(r@, self@) == 0,
            r.wf(),
    {
        G2Point { p: -self.p }
    }

    /// The group negation of a point.
    pub fn neg(&self) -> (r: G2Point)
        requires
            self.wf(),
        ensures
            addm(r@, self@) == 0,
            r.wf(),
    {
        self.neg_point()
    }

    /// The group difference: the point that, added to `other`, gives back
    /// `self`.
    pub fn sub(&self, other: &G2Point) -> (r: G2Point)
        requires
            self.wf(),
            other.wf(),
        ensures
            addm(r@, other@) == self@,
            r.wf(),
    {
        let n = other.neg();
        let r = self.add(&n);
        proof {
            crate::modring::lemma_addm_assoc(self@, n@, other@);
            crate::modring::lemma_addm_zero(self@);
        }
        r
    }

    /// Relies on scalar multiplication of ark_ec: it multiplies the discrete
    /// logarithm by the scalar's residue.
    #[verifier::external_body]
    fn mul_point(&self, s: &Scalar) -> (r: G2Point)
        requires
            self.wf(),
        ensures
            r@ == mulm(self@, s@),
    {
        G2Point { p: (self.p * s.f).into_affine() }
    }

    /// The scalar multiple of a point.
    pub fn mul(&self, s: &Scalar) -> (r: G2Point)
        requires
            self.wf(),
        ensures
            r@ == mulm(self@, s@),
            r.wf(),
    {
        self.mul_point(s)
    }

    /// Relies on `PartialEq` of ark_ec affine points: equality of points,
    /// which on the subgroup is equality of discrete logarithms.
    #[verifier::external_body]
    fn points_equal(&self, other: &G2Point) -> (r: bool)
        requires
            self.wf(),
            other.wf(),
        ensures
            r == (self@ == other@),
    {
        self.p == other.p
    }

    /// Whether two points are the same group element.
    pub fn equals(&self, other: &G2Point) -> (r: bool)
        requires
            self.wf(),
            other.wf(),
        ensures
            r == (self@ == other@),
    {
        self.points_equal(other)
    }

    /// Relies on `CanonicalSerialize::serialize_uncompressed` of
    /// ark_serialize: a G2 point takes 192 bytes uncompressed, writing to a
    /// byte vector cannot fail, the encoding is a deterministic function of
    /// the point — for a subgroup point, of its discrete logarithm — and
    /// deserializing it with validation yields the point back.
    #[verifier::external_body]
    fn point_to_bytes(&self) -> (r: Vec<u8>)
        requires
            self.wf(),
        ensures
            r@.len() == 192,
            r@ == g2_encoding(self@),
            g2_decoded(r@) == Some(self@),
    {
        let mut out: Vec<u8> = Vec::new();
        self.p.serialize_uncompressed(&mut out).unwrap();
        out
    }

    /// The canonical 192-byte uncompressed encoding of the point; decoding
    /// it gives the point back.
    pub fn to_bytes(&self) -> (r: Vec<u8>)
        requires
            self.wf(),
        ensures
            r@.len() == 192,
            r@ == g2_encoding(self@),
            g2_decoded(r@) == Some(self@),
    {
        self.point_to_bytes()
    }

    /// Relies on `CanonicalDeserialize::deserialize_uncompressed` of
    /// ark_serialize: the decode is a deterministic function of the 192
    /// bytes, and it accepts only encodings of points that are on the curve
    /// and in the prime-order subgroup.
    #[verifier::external_body]
    fn point_from_bytes(bytes: &[u8]) -> (r: Option<G2Point>)
        requires
            bytes@.len() == 192,
        ensures
            r is Some <==> g2_decoded(bytes@) is Some,
            r matches Some(p) ==> p.wf() && g2_decoded(bytes@) == Some(p@),
    {
        ark_bls12_381::G2Affine::deserialize_uncompressed(bytes).ok().map(|p| G2Point { p })
    }

    /// Decodes the 192-byte uncompressed form of a subgroup point: it
    /// succeeds exactly when 192 bytes are given and they decode, and then
    /// returns the decoded point.
    pub fn from_bytes(bytes: &[u8]) -> (r: Option<G2Point>)
        ensures
            bytes@.len() == 192 ==> (r is Some <==> g2_decoded(bytes@) is Some),
            bytes@.len() != 192 ==> r is None,
            r matches Some(p) ==> p.wf() && g2_decoded(bytes@) == Some(p@),
    {
        if bytes.len() != 192 {
            None
        } else {
            Self::point_from_bytes(bytes)
        }
    }
}

/// Relies on `Pairing::multi_pairing` of ark_ec for BLS12-381 and on
/// bilinearity and non-degeneracy of its pairing: for subgroup points, the
/// product `e(a1, b1) * e(a2, b2)` is the identity of the target group
/// exactly when the sum of the products of the discrete logarithms vanishes
/// modulo the subgroup order.
#[verifier::external_body]
pub(crate) fn pairing_product_is_identity(
    a1: &G1Point,
    b1: &G2Point,
    a2: &G1Point,
    b2: &G2Point,
) -> (r: bool)
    requires
        a1.wf(),
        b1.wf(),
        a2.wf(),
        b2.wf(),
    ensures
        r == (addm(mulm(a1@, b1@), mulm(a2@, b2@)) == 0),
{
    ark_bls12_381::Bls12_381::multi_pairing([a1.p, a2.p], [b1.p, b2.p]).is_zero()
}

} // verus!
