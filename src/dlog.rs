use vstd::arithmetic::div_mod::lemma_add_mod_noop_right;
use vstd::prelude::*;
use vstd::string::StringSliceAdditionalSpecFns;

use crate::challenge::{challenge, encodings, hash_transcript};
use crate::error::{DecodeError, EncodeError};
use crate::point::{base_point, valid_point_bytes, Point};
use crate::scalar::{generate_random_number, group_order, valid_scalar_bytes, Scalar};

verus! {

/// The challenge of a proof: the hash of `[G, y, t]` in that order, under the
/// session and prover identifiers.
pub open spec fn challenge_for(sid: Seq<u8>, pid: u32, y: Seq<u8>, t: Seq<u8>) -> nat {
    challenge(sid, pid, seq![base_point(1), y, t])
}

/// The response is `s = r + c·x mod n`, where `r` is the logarithm of the
/// commitment `t = r·G` and `c` is the challenge over `[G, y, t]`.
pub open spec fn responds(p: DLogProof, sid: Seq<u8>, pid: u32, x: nat, y: Seq<u8>) -> bool {
    p.s.val() == (p.t.dlog() + challenge_for(sid, pid, y, p.t@) * x) % group_order()
}

/// The verification equation `s·G == t + c·y`, read on logarithms.
pub open spec fn accepts(p: DLogProof, sid: Seq<u8>, pid: u32, y: Point) -> bool {
    p.s.val() == (p.t.dlog() + challenge_for(sid, pid, y@, p.t@) * y.dlog()) % group_order()
}

/// The first reason, if any, for which a pair of byte strings is not the
/// canonical encoding of a proof: the commitment is checked first.
pub open spec fn decode_error(t: Seq<u8>, s: Seq<u8>) -> Option<DecodeError> {
    if !valid_point_bytes(t) {
        Some(DecodeError::InvalidPoint)
    } else if !valid_scalar_bytes(s) {
        Some(DecodeError::InvalidScalar)
    } else {
        None
    }
}

/// A proof of knowledge of the discrete logarithm of a point: the commitment
/// `t` and the response `s`.
#[derive(Clone, Debug, PartialEq, Eq)]
pub struct DLogProof {
    pub t: Point,
    pub s: Scalar,
}

/// The canonical encoding of a proof, one byte string per field.
#[derive(Clone, Debug, PartialEq, Eq)]
pub struct ProofBytes {
    /// The commitment's uncompressed SEC1 encoding.
    pub t: Vec<u8>,
    /// The response's 32-byte big-endian encoding.
    pub s: Vec<u8>,
}

impl DLogProof {
    /// Both fields are elements of their groups.
    pub open spec fn wf(&self) -> bool {
        self.t.wf() && self.s.wf()
    }

    /// The proof with commitment `t` and response `s`.
    pub fn new(t: Point, s: Scalar) -> (r: DLogProof)
        ensures
            r.t == t,
            r.s == s,
    {
        DLogProof { t, s }
    }

    /// The Fiat-Shamir challenge over the session id, the prover id and the
    /// points in the order given.
    pub fn hash_points(sid: &str, pid: u32, points: &[Point]) -> (r: Scalar)
        ensures
            r.wf(),
            r.val() == challenge(sid.spec_bytes(), pid, encodings(points@)),
    {
        hash_transcript(sid, pid, points)
    }

    fn challenge_points(sid: &str, pid: u32, y: &Point, t: &Point) -> (c: Scalar)
        ensures
            c.wf(),
            c.val() == challenge_for(sid.spec_bytes(), pid, y@, t@),
    {
        let mut points: Vec<Point> = Vec::new();
        points.push(Point::generator());
        points.push(y.duplicate());
        points.push(t.duplicate());
        assert(encodings(points@) =~= seq![base_point(1), y@, t@]);
        Self::hash_points(sid, pid, points.as_slice())
    }

    /// The proof for the witness `x` of `y`, with the nonce `r` as its
    /// commitment's logarithm.
    pub fn prove_with_nonce(sid: &str, pid: u32, x: Scalar, y: Point, r: Scalar) -> (p: DLogProof)
        requires
            x.wf(),
            y.wf(),
            r.wf(),
        ensures
            p.wf(),
            p.t.dlog() == r.val(),
            responds(p, sid.spec_bytes(), pid, x.val(), y@),
    {
        let t = Point::mul_base(&r);
        let c = Self::challenge_points(sid, pid, &y, &t);
        let s = r.add(&c.mul(&x));
        proof {
            lemma_add_mod_noop_right(r.val() as int, (c.val() * x.val()) as int, group_order() as int);
        }
        DLogProof { t, s }
    }

    /// The proof for the witness `x` of `y`, with a fresh random nonce.
    pub fn prove(sid: &str, pid: u32, x: Scalar, y: Point) -> (p: DLogProof)
        requires
            x.wf(),
            y.wf(),
        ensures
            p.wf(),
            responds(p, sid.spec_bytes(), pid, x.val(), y@),
    {
        let r = generate_random_number();
        Self::prove_with_nonce(sid, pid, x, y, r)
    }

    /// Whether `s·G == t + c·y`, with `c` the challenge over `[G, y, t]`.
    pub fn verify(&self, sid: &str, pid: u32, y: Point) -> (r: bool)
        requires
            self.wf(),
            y.wf(),
        ensures
            r == accepts(*self, sid.spec_bytes(), pid, y),
    {
        let c = Self::challenge_points(sid, pid, &y, &self.t);
        let lhs = Point::mul_base(&self.s);
        let rhs = self.t.add(&y.mul(&c));
        proof {
            lemma_add_mod_noop_right(
                self.t.dlog() as int,
                (y.dlog() * c.val()) as int,
                group_order() as int,
            );
            assert(y.dlog() * c.val() == c.val() * y.dlog()) by (nonlinear_arith);
        }
        lhs.equals(&rhs)
    }

    /// The canonical encoding: the commitment's 65-byte uncompressed SEC1
    /// bytes and the response's 32 big-endian bytes. A commitment at infinity
    /// has no such encoding and is refused.
    pub fn to_canonical_bytes(&self) -> (r: Result<ProofBytes, EncodeError>)
        requires
            self.wf(),
        ensures
            r is Ok <==> self.t.is_finite(),
            r matches Ok(b) ==> b.t@ == self.t@ && b.s@ == self.s@,
            r matches Err(e) ==> e == EncodeError::PointAtInfinity,
    {
        if self.t.is_identity() {
            return Err(EncodeError::PointAtInfinity);
        }
        Ok(ProofBytes { t: self.t.to_bytes(), s: self.s.to_bytes() })
    }

    /// Reads a proof from its canonical encoding.
    pub fn from_canonical_bytes(t: &[u8], s: &[u8]) -> (r: Result<DLogProof, DecodeError>)
        ensures
            r is Ok <==> decode_error(t@, s@) is None,
            r matches Ok(p) ==> p.wf() && p.t.is_finite() && p.t@ == t@ && p.s@ == s@,
            r matches Err(e) ==> decode_error(t@, s@) == Some(e),
            t@.len() != 65 ==> r == Err::<DLogProof, DecodeError>(DecodeError::InvalidPoint),
            valid_point_bytes(t@) && s@.len() != 32 ==> r == Err::<DLogProof, DecodeError>(
                DecodeError::InvalidScalar,
            ),
    {
        let tp = match Point::from_bytes(t) {
            Ok(p) => p,
            Err(e) => {
                return Err(e);
            },
        };
        let sc = match Scalar::from_bytes(s) {
            Ok(k) => k,
            Err(e) => {
                return Err(e);
            },
        };
        Ok(DLogProof { t: tp, s: sc })
    }

    /// The commitment.
    pub fn t(&self) -> (r: &Point)
        ensures
            r == &self.t,
    {
        &self.t
    }

    /// The response.
    pub fn s(&self) -> (r: &Scalar)
        ensures
            r == &self.s,
    {
        &self.s
    }
}

/// Completeness: a proof made for a witness `x` of `y = x·G` is accepted for
/// `y` under the same session and prover identifiers.
pub proof fn lemma_completeness(p: DLogProof, sid: Seq<u8>, pid: u32, x: Scalar, y: Point)
    requires
        p.wf(),
        x.wf(),
        y.wf(),
        y.dlog() == x.val(),
        responds(p, sid, pid, x.val(), y@),
    ensures
        accepts(p, sid, pid, y),
{
}

/// Whenever a proof has a canonical encoding (its commitment is finite), that
/// encoding is 97 bytes long and decoding it succeeds, giving back the same
/// two fields.
pub proof fn lemma_round_trip(p: DLogProof)
    requires
        p.wf(),
        p.t.is_finite(),
    ensures
        decode_error(p.t@, p.s@) is None,
        p.t@.len() + p.s@.len() == 97,
{
    p.t.lemma_dlog();
    p.s.lemma_len();
    assert(base_point(p.t.dlog()) == p.t@);
}

} // verus!
