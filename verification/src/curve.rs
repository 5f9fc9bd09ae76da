//! Points of the secp256k1 curve, held by their uncompressed SEC1 encoding,
//! and the group operations of the `k256` crate on them.

use k256::elliptic_curve::ops::Reduce;
use k256::elliptic_curve::sec1::{FromEncodedPoint, ToEncodedPoint};
use k256::elliptic_curve::hash2curve::{ExpandMsgXmd, GroupDigest};
use k256::{EncodedPoint, ProjectivePoint, Scalar, Secp256k1, U256};
use vstd::prelude::*;

use crate::bytes::{to_array32, zeros};

verus! {

/// The prime `p` of the base field of secp256k1.
pub open spec fn field_prime() -> nat {
    0xFFFFFFFFFFFFFFFFFFFFFFFFFFFFFFFFFFFFFFFFFFFFFFFFFFFFFFFEFFFFFC2Fnat
}

/// The value of a big-endian byte string.
pub open spec fn be_nat(s: Seq<u8>) -> nat
    decreases s.len(),
{
    if s.len() == 0 {
        0
    } else {
        be_nat(s.drop_last()) * 256 + s.last() as nat
    }
}

/// `s` is the uncompressed SEC1 encoding of a point of secp256k1: the single
/// byte `0x00` for the point at infinity, or `0x04 ‖ x ‖ y` with coordinates
/// below `p` that satisfy `y² = x³ + 7 (mod p)`.
pub open spec fn is_curve_point(s: Seq<u8>) -> bool {
    ||| s.len() == 1 && s[0] == 0
    ||| s.len() == 65 && s[0] == 4 && {
        let x = be_nat(s.subrange(1, 33));
        let y = be_nat(s.subrange(33, 65));
        &&& x < field_prime()
        &&& y < field_prime()
        &&& (y * y) % field_prime() == (x * x * x + 7) % field_prime()
    }
}

/// The x coordinate of an encoded point, all zeros for the point at infinity.
pub open spec fn point_x(s: Seq<u8>) -> Seq<u8> {
    if s.len() == 65 {
        s.subrange(1, 33)
    } else {
        zeros(32)
    }
}

/// The y coordinate of an encoded point, all zeros for the point at infinity.
pub open spec fn point_y(s: Seq<u8>) -> Seq<u8> {
    if s.len() == 65 {
        s.subrange(33, 65)
    } else {
        zeros(32)
    }
}

/// The sum `p + q` (`k256::ProjectivePoint` addition).
pub uninterp spec fn ec_add(p: Seq<u8>, q: Seq<u8>) -> Seq<u8>;

/// The difference `p - q` (`k256::ProjectivePoint` subtraction).
pub uninterp spec fn ec_sub(p: Seq<u8>, q: Seq<u8>) -> Seq<u8>;

/// The multiple `k·p`, where the scalar `k` is given by 32 little-endian
/// bytes reduced modulo the group order (`k256` scalar multiplication).
pub uninterp spec fn ec_mul_le(p: Seq<u8>, k: Seq<u8>) -> Seq<u8>;

/// The hash of `msg` to the curve under the domain separation tag `dst`
/// (`GroupDigest::hash_from_bytes` of secp256k1 with `expand_message_xmd`
/// over Keccak-256).
pub uninterp spec fn hash_to_curve(msg: Seq<u8>, dst: Seq<u8>) -> Seq<u8>;

/// A point of secp256k1 in its uncompressed SEC1 encoding.
#[derive(Debug, Clone, PartialEq, Eq)]
pub struct CurvePoint {
    sec1: Vec<u8>,
}

impl View for CurvePoint {
    type V = Seq<u8>;

    closed spec fn view(&self) -> Seq<u8> {
        self.sec1@
    }
}

impl CurvePoint {
    /// The encoding holds a point of the curve.
    pub open spec fn wf(&self) -> bool {
        is_curve_point(self@)
    }

    /// The point at infinity.
    pub fn identity() -> (r: CurvePoint)
        ensures
            r@ == seq![0u8],
            r.wf(),
    {
        let mut sec1: Vec<u8> = Vec::new();
        sec1.push(0u8);
        let r = CurvePoint { sec1 };
        assert(r@ =~= seq![0u8]);
        r
    }

    /// The uncompressed SEC1 encoding of the point.
    pub fn to_sec1(&self) -> (r: Vec<u8>)
        ensures
            r@ == self@,
    {
        self.sec1.clone()
    }

    /// The big-endian x and y coordinates; both all zeros for the point at
    /// infinity.
    pub fn coordinates(&self) -> (r: ([u8; 32], [u8; 32]))
        ensures
            r.0@ == point_x(self@),
            r.1@ == point_y(self@),
    {
        if self.sec1.len() == 65 {
            let x = to_array32(vstd::slice::slice_subrange(self.sec1.as_slice(), 1, 33));
            let y = to_array32(vstd::slice::slice_subrange(self.sec1.as_slice(), 33, 65));
            (x, y)
        } else {
            let r = ([0u8; 32], [0u8; 32]);
            assert(r.0@ =~= zeros(32));
            r
        }
    }
}

/// The x coordinate of the generator of secp256k1 (SEC 2), big-endian.
pub open spec fn generator_x() -> Seq<u8> {
    seq![
        0x79u8, 0xbe, 0x66, 0x7e, 0xf9, 0xdc, 0xbb, 0xac, 0x55, 0xa0, 0x62, 0x95, 0xce, 0x87, 0x0b,
        0x07, 0x02, 0x9b, 0xfc, 0xdb, 0x2d, 0xce, 0x28, 0xd9, 0x59, 0xf2, 0x81, 0x5b, 0x16, 0xf8,
        0x17, 0x98,
    ]
}

/// The y coordinate of the generator of secp256k1 (SEC 2), big-endian.
pub open spec fn generator_y() -> Seq<u8> {
    seq![
        0x48u8, 0x3a, 0xda, 0x77, 0x26, 0xa3, 0xc4, 0x65, 0x5d, 0xa4, 0xfb, 0xfc, 0x0e, 0x11, 0x08,
        0xa8, 0xfd, 0x17, 0xb4, 0x48, 0xa6, 0x85, 0x54, 0x19, 0x9c, 0x47, 0xd0, 0x8f, 0xfb, 0x10,
        0xd4, 0xb8,
    ]
}

/// The uncompressed encoding of the generator of secp256k1.
pub open spec fn generator_sec1() -> Seq<u8> {
    seq![4u8] + generator_x() + generator_y()
}

/// The generator of secp256k1 (`k256::ProjectivePoint::GENERATOR`): a point
/// of the curve, whose encoding carries the SEC 2 coordinates.
#[verifier::external_body]
pub(crate) fn generator() -> (r: CurvePoint)
    ensures
        r.wf(),
        r@ == generator_sec1(),
{
    CurvePoint { sec1: ProjectivePoint::GENERATOR.to_encoded_point(false).as_bytes().to_vec() }
}

/// The big-endian affine coordinates of the generator.
pub fn generator_coords() -> (r: ([u8; 32], [u8; 32]))
    ensures
        r.0@ == generator_x(),
        r.1@ == generator_y(),
{
    let g = generator();
    let r = g.coordinates();
    assert(generator_sec1().subrange(1, 33) =~= generator_x());
    assert(generator_sec1().subrange(33, 65) =~= generator_y());
    r
}

/// `p + q` (`Add` of `k256::ProjectivePoint`); the result is a point of the curve.
#[verifier::external_body]
pub(crate) fn point_add(p: &CurvePoint, q: &CurvePoint) -> (r: CurvePoint)
    requires
        p.wf(),
        q.wf(),
    ensures
        r.wf(),
        r@ == ec_add(p@, q@),
{
    let a = ProjectivePoint::from_encoded_point(&EncodedPoint::from_bytes(&p.sec1).unwrap()).unwrap();
    let b = ProjectivePoint::from_encoded_point(&EncodedPoint::from_bytes(&q.sec1).unwrap()).unwrap();
    CurvePoint { sec1: (a + b).to_encoded_point(false).as_bytes().to_vec() }
}

/// `p - q` (`Sub` of `k256::ProjectivePoint`); the result is a point of the curve.
#[verifier::external_body]
pub(crate) fn point_sub(p: &CurvePoint, q: &CurvePoint) -> (r: CurvePoint)
    requires
        p.wf(),
        q.wf(),
    ensures
        r.wf(),
        r@ == ec_sub(p@, q@),
{
    let a = ProjectivePoint::from_encoded_point(&EncodedPoint::from_bytes(&p.sec1).unwrap()).unwrap();
    let b = ProjectivePoint::from_encoded_point(&EncodedPoint::from_bytes(&q.sec1).unwrap()).unwrap();
    CurvePoint { sec1: (a - b).to_encoded_point(false).as_bytes().to_vec() }
}

/// `k·p`, the scalar being the little-endian bytes `k` reduced modulo the
/// group order (`Mul<Scalar>` of `k256::ProjectivePoint`, with
/// `Reduce<U256>` of `k256::Scalar`); the result is a point of the curve.
#[verifier::external_body]
pub(crate) fn point_mul_le(p: &CurvePoint, k: &[u8; 32]) -> (r: CurvePoint)
    requires
        p.wf(),
    ensures
        r.wf(),
        r@ == ec_mul_le(p@, k@),
{
    let a = ProjectivePoint::from_encoded_point(&EncodedPoint::from_bytes(&p.sec1).unwrap()).unwrap();
    let s = <Scalar as Reduce<U256>>::reduce(U256::from_le_slice(k));
    CurvePoint { sec1: (a * s).to_encoded_point(false).as_bytes().to_vec() }
}

/// Hashes `msg` to a point of secp256k1 (`GroupDigest::hash_from_bytes` of
/// `k256::Secp256k1` with `ExpandMsgXmd<sha3::Keccak256>`). With a single
/// tag the expansion does not fail; the result is a point of the curve.
#[verifier::external_body]
pub fn hash_from_bytes(msg: &[u8], dst: &[u8]) -> (r: CurvePoint)
    ensures
        r.wf(),
        r@ == hash_to_curve(msg@, dst@),
{
    let p = Secp256k1::hash_from_bytes::<ExpandMsgXmd<sha3::Keccak256>>(&[msg], &[dst]).unwrap();
    CurvePoint { sec1: p.to_encoded_point(false).as_bytes().to_vec() }
}

/// Decodes the affine point `(x, y)` (`FromEncodedPoint` of
/// `k256::ProjectivePoint` on the uncompressed encoding `0x04 ‖ x ‖ y`):
/// `Some` exactly when the coordinates are below `p` and lie on the curve,
/// and then the point's encoding is `0x04 ‖ x ‖ y`.
#[verifier::external_body]
pub(crate) fn point_from_affine(x: &[u8; 32], y: &[u8; 32]) -> (r: Option<CurvePoint>)
    ensures
        r is Some <==> is_curve_point(seq![4u8] + x@ + y@),
        r matches Some(p) ==> p@ == seq![4u8] + x@ + y@,
{
    let encoded = EncodedPoint::from_affine_coordinates(x.into(), y.into(), false);
    match Option::<ProjectivePoint>::from(ProjectivePoint::from_encoded_point(&encoded)) {
        Some(p) => Some(CurvePoint { sec1: p.to_encoded_point(false).as_bytes().to_vec() }),
        None => None,
    }
}

} // verus!
