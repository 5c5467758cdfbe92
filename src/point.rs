use k256::elliptic_curve::sec1::{FromEncodedPoint, ToEncodedPoint};
use k256::elliptic_curve::PrimeField;
use vstd::prelude::*;

use crate::error::DecodeError;
use crate::scalar::{group_order, Scalar};

verus! {

/// The SEC1 encoding, uncompressed, of `k·G` as k256 computes it from the
/// fixed generator `G`.
pub uninterp spec fn base_point(k: nat) -> Seq<u8>;

/// The shape of an encoding: the identity is the single byte `0x00`, every
/// other point is `0x04 || x || y` with 32-byte coordinates.
pub open spec fn encoding_shape(b: Seq<u8>, k: nat) -> bool {
    if k == 0 {
        b == seq![0u8]
    } else {
        b.len() == 65 && b[0] == 4
    }
}

/// `b` encodes `k·G`, and no other multiple of `G` below `n` has that encoding.
pub open spec fn encodes_log(b: Seq<u8>, k: nat) -> bool {
    &&& k < group_order()
    &&& base_point(k) == b
    &&& forall|j: nat| j < group_order() && base_point(j) == b ==> j == k
    &&& encoding_shape(b, k)
}

/// The bytes are the uncompressed encoding of a finite point of the curve.
pub open spec fn valid_point_bytes(b: Seq<u8>) -> bool {
    &&& b.len() == 65
    &&& b[0] == 4
    &&& exists|k: nat| k < group_order() && base_point(k) == b
}

/// A point of the secp256k1 group, held as its SEC1 uncompressed encoding.
///
/// The group is cyclic of prime order `n` and generated by `G`, so each point is
/// `k·G` for exactly one `k` below `n`: its discrete logarithm, which is what
/// the contracts speak of.
#[derive(Clone, Debug, PartialEq, Eq)]
pub struct Point {
    enc: Vec<u8>,
}

impl View for Point {
    type V = Seq<u8>;

    closed spec fn view(&self) -> Seq<u8> {
        self.enc@
    }
}

impl Point {
    /// The encoding is that of a point of the group.
    pub open spec fn wf(&self) -> bool {
        exists|k: nat| encodes_log(self@, k)
    }

    /// The discrete logarithm of the point to the base `G`.
    pub open spec fn dlog(&self) -> nat {
        choose|k: nat| encodes_log(self@, k)
    }

    /// The point is not the identity.
    pub open spec fn is_finite(&self) -> bool {
        self.dlog() != 0
    }

    /// What a well-formed point's encoding says of its logarithm.
    pub proof fn lemma_dlog(&self)
        requires
            self.wf(),
        ensures
            encodes_log(self@, self.dlog()),
    {
    }

    /// A point that encodes `k·G` has logarithm `k`.
    pub proof fn lemma_dlog_of(&self, k: nat)
        requires
            encodes_log(self@, k),
        ensures
            self.wf(),
            self.dlog() == k,
    {
    }

    /// `k·G`.
    pub fn mul_base(k: &Scalar) -> (r: Point)
        requires
            k.wf(),
        ensures
            r.wf(),
            r.dlog() == k.val(),
    {
        let r = generator_times(k);
        proof {
            r.lemma_dlog_of(k.val());
        }
        r
    }

    /// The generator `G`.
    pub fn generator() -> (r: Point)
        ensures
            r.wf(),
            r.dlog() == 1,
            r@ == base_point(1),
    {
        let one = Scalar::one();
        let r = Point::mul_base(&one);
        proof {
            r.lemma_dlog();
        }
        r
    }

    /// The group sum `self + other`.
    pub fn add(&self, other: &Point) -> (r: Point)
        requires
            self.wf(),
            other.wf(),
        ensures
            r.wf(),
            r.dlog() == (self.dlog() + other.dlog()) % group_order(),
    {
        let r = point_sum(self, other);
        proof {
            r.lemma_dlog_of((self.dlog() + other.dlog()) % group_order());
        }
        r
    }

    /// The multiple `k·self`.
    pub fn mul(&self, k: &Scalar) -> (r: Point)
        requires
            self.wf(),
            k.wf(),
        ensures
            r.wf(),
            r.dlog() == (self.dlog() * k.val()) % group_order(),
    {
        let r = point_times(self, k);
        proof {
            r.lemma_dlog_of((self.dlog() * k.val()) % group_order());
        }
        r
    }

    /// Group equality, which is equality of the canonical encodings.
    pub fn equals(&self, other: &Point) -> (r: bool)
        requires
            self.wf(),
            other.wf(),
        ensures
            r == (self@ == other@),
            r == (self.dlog() == other.dlog()),
    {
        proof {
            self.lemma_dlog();
            other.lemma_dlog();
        }
        if self.enc.len() != other.enc.len() {
            return false;
        }
        let mut i: usize = 0;
        while i < self.enc.len()
            invariant
                i <= self.enc@.len(),
                self.enc@.len() == other.enc@.len(),
                forall|j: int| 0 <= j < i ==> self.enc@[j] == other.enc@[j],
                encodes_log(self@, self.dlog()),
                encodes_log(other@, other.dlog()),
            decreases self.enc@.len() - i,
        {
            if self.enc[i] != other.enc[i] {
                assert(self@[i as int] != other@[i as int]);
                return false;
            }
            i = i + 1;
        }
        assert(self.enc@ =~= other.enc@);
        true
    }

    /// Whether the point is the identity, the point at infinity.
    pub fn is_identity(&self) -> (r: bool)
        requires
            self.wf(),
        ensures
            r == !self.is_finite(),
    {
        proof {
            self.lemma_dlog();
        }
        self.enc.len() == 1
    }

    /// A copy of the point.
    pub fn duplicate(&self) -> (r: Point)
        ensures
            r@ == self@,
    {
        Point { enc: copy_bytes(&self.enc) }
    }

    /// The SEC1 encoding: 65 bytes for a finite point, `[0x00]` for the identity.
    pub fn to_bytes(&self) -> (r: Vec<u8>)
        ensures
            r@ == self@,
    {
        copy_bytes(&self.enc)
    }

    /// Reads a finite point from its 65-byte uncompressed encoding.
    pub fn from_bytes(b: &[u8]) -> (r: Result<Point, DecodeError>)
        ensures
            r is Ok <==> valid_point_bytes(b@),
            r matches Ok(p) ==> p.wf() && p@ == b@ && p.is_finite(),
            r matches Err(e) ==> e == DecodeError::InvalidPoint,
    {
        if b.len() != 65 || b[0] != 4 {
            return Err(DecodeError::InvalidPoint);
        }
        match curve_point(b) {
            Some(p) => {
                proof {
                    p.lemma_dlog();
                }
                Ok(p)
            },
            None => Err(DecodeError::InvalidPoint),
        }
    }
}

fn copy_bytes(b: &Vec<u8>) -> (r: Vec<u8>)
    ensures
        r@ == b@,
{
    let mut r: Vec<u8> = Vec::new();
    let mut i: usize = 0;
    while i < b.len()
        invariant
            i <= b@.len(),
            r@ == b@.subrange(0, i as int),
        decreases b@.len() - i,
    {
        r.push(b[i]);
        i = i + 1;
    }
    assert(r@ =~= b@);
    r
}

/// Relies on k256's `ProjectivePoint::GENERATOR * Scalar`, encoded with
/// `to_encoded_point(false)`: `G` has prime order `n`, so distinct logarithms
/// below `n` give distinct points.
#[verifier::external_body]
fn generator_times(k: &Scalar) -> (r: Point)
    requires
        k.wf(),
    ensures
        r@ == base_point(k.val()),
        encodes_log(r@, k.val()),
{
    let s = k256::Scalar::from_repr(k.bytes.into()).unwrap();
    let p = k256::ProjectivePoint::GENERATOR * s;
    Point { enc: p.to_affine().to_encoded_point(false).as_bytes().to_vec() }
}

/// Relies on k256's `ProjectivePoint + ProjectivePoint`: the group law, under
/// which logarithms add modulo `n`.
#[verifier::external_body]
fn point_sum(a: &Point, b: &Point) -> (r: Point)
    requires
        a.wf(),
        b.wf(),
    ensures
        encodes_log(r@, (a.dlog() + b.dlog()) % group_order()),
{
    let x = k256::EncodedPoint::from_bytes(&a.enc).unwrap();
    let y = k256::EncodedPoint::from_bytes(&b.enc).unwrap();
    let x = k256::ProjectivePoint::from_encoded_point(&x).unwrap();
    let y = k256::ProjectivePoint::from_encoded_point(&y).unwrap();
    Point { enc: (x + y).to_affine().to_encoded_point(false).as_bytes().to_vec() }
}

/// Relies on k256's `ProjectivePoint * Scalar`: scalar multiplication, under
/// which the logarithm is multiplied modulo `n`.
#[verifier::external_body]
fn point_times(a: &Point, k: &Scalar) -> (r: Point)
    requires
        a.wf(),
        k.wf(),
    ensures
        encodes_log(r@, (a.dlog() * k.val()) % group_order()),
{
    let x = k256::EncodedPoint::from_bytes(&a.enc).unwrap();
    let x = k256::ProjectivePoint::from_encoded_point(&x).unwrap();
    let s = k256::Scalar::from_repr(k.bytes.into()).unwrap();
    Point { enc: (x * s).to_affine().to_encoded_point(false).as_bytes().to_vec() }
}

/// Relies on k256's `AffinePoint::from_encoded_point` on an uncompressed
/// encoding: it accepts exactly the canonical coordinates of a curve point,
/// and every curve point is a multiple of `G`.
#[verifier::external_body]
fn curve_point(b: &[u8]) -> (r: Option<Point>)
    requires
        b@.len() == 65,
        b@[0] == 4,
    ensures
        r is Some <==> valid_point_bytes(b@),
        r matches Some(p) ==> p.wf() && p@ == b@,
{
    let e = k256::EncodedPoint::from_bytes(b).unwrap();
    let p: Option<k256::AffinePoint> = k256::AffinePoint::from_encoded_point(&e).into();
    p.map(|_| Point { enc: b.to_vec() })
}

} // verus!
