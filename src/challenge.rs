use sha2::Digest;
use vstd::prelude::*;
use vstd::string::StringSliceAdditionalSpecFns;

use crate::point::Point;
use crate::scalar::{be_nat, group_order, Scalar};

verus! {

/// The SHA-256 digest of a message.
pub uninterp spec fn sha256_of(m: Seq<u8>) -> Seq<u8>;

/// The four big-endian bytes of a prover identifier.
pub open spec fn u32_be(v: u32) -> Seq<u8> {
    seq![
        (v / 0x100_0000) as u8,
        ((v / 0x1_0000) % 0x100) as u8,
        ((v / 0x100) % 0x100) as u8,
        (v % 0x100) as u8,
    ]
}

/// The byte strings one after another.
pub open spec fn concat(parts: Seq<Seq<u8>>) -> Seq<u8>
    decreases parts.len(),
{
    if parts.len() == 0 {
        Seq::empty()
    } else {
        concat(parts.drop_last()) + parts.last()
    }
}

/// The encodings of a list of points.
pub open spec fn encodings(points: Seq<Point>) -> Seq<Seq<u8>> {
    points.map_values(|p: Point| p@)
}

/// What is hashed: the session identifier's bytes, the prover identifier
/// big-endian, then each point's encoding in order.
pub open spec fn transcript(sid: Seq<u8>, pid: u32, encs: Seq<Seq<u8>>) -> Seq<u8> {
    sid + u32_be(pid) + concat(encs)
}

/// The Fiat-Shamir challenge: the transcript's digest read big-endian,
/// reduced modulo `n`.
pub open spec fn challenge(sid: Seq<u8>, pid: u32, encs: Seq<Seq<u8>>) -> nat {
    be_nat(sha256_of(transcript(sid, pid, encs))) % group_order()
}

fn push_all(v: &mut Vec<u8>, b: &[u8])
    ensures
        final(v)@ == old(v)@ + b@,
{
    let ghost start = v@;
    let mut i: usize = 0;
    while i < b.len()
        invariant
            i <= b@.len(),
            v@ == start + b@.subrange(0, i as int),
        decreases b@.len() - i,
    {
        v.push(b[i]);
        i = i + 1;
        assert(v@ =~= start + b@.subrange(0, i as int));
    }
    assert(b@.subrange(0, b@.len() as int) =~= b@);
}

/// The bytes of `transcript(sid, pid, points)`.
pub fn transcript_bytes(sid: &str, pid: u32, points: &[Point]) -> (r: Vec<u8>)
    ensures
        r@ == transcript(sid.spec_bytes(), pid, encodings(points@)),
{
    let mut r: Vec<u8> = Vec::new();
    push_all(&mut r, sid.as_bytes());
    r.push((pid / 0x100_0000) as u8);
    r.push(((pid / 0x1_0000) % 0x100) as u8);
    r.push(((pid / 0x100) % 0x100) as u8);
    r.push((pid % 0x100) as u8);
    let ghost head = sid.spec_bytes() + u32_be(pid);
    assert(r@ =~= head);
    let ghost encs = encodings(points@);
    let mut i: usize = 0;
    while i < points.len()
        invariant
            i <= points@.len(),
            encs == encodings(points@),
            r@ == head + concat(encs.subrange(0, i as int)),
        decreases points@.len() - i,
    {
        let b = points[i].to_bytes();
        push_all(&mut r, b.as_slice());
        proof {
            assert(encs.subrange(0, i + 1).drop_last() =~= encs.subrange(0, i as int));
            assert(r@ =~= head + concat(encs.subrange(0, i + 1)));
        }
        i = i + 1;
    }
    assert(encs.subrange(0, points@.len() as int) =~= encs);
    r
}

/// `challenge(sid, pid, points)`.
pub(crate) fn hash_transcript(sid: &str, pid: u32, points: &[Point]) -> (r: Scalar)
    ensures
        r.wf(),
        r.val() == challenge(sid.spec_bytes(), pid, encodings(points@)),
{
    let m = transcript_bytes(sid, pid, points);
    let d = sha256(m.as_slice());
    Scalar::from_digest(&d)
}

/// Swapping two points of the transcript changes the bytes that are hashed,
/// whenever their encodings differ and have the same length.
pub proof fn lemma_transcript_order(
    sid: Seq<u8>,
    pid: u32,
    a: Seq<u8>,
    b: Seq<u8>,
    c: Seq<u8>,
)
    requires
        a.len() == b.len(),
        a != b,
    ensures
        transcript(sid, pid, seq![a, b, c]) != transcript(sid, pid, seq![b, a, c]),
{
    let abc = seq![a, b, c];
    let bac = seq![b, a, c];
    lemma_concat3(a, b, c);
    lemma_concat3(b, a, c);
    assert(exists|k: int| 0 <= k < a.len() && a[k] != b[k]) by {
        if forall|k: int| 0 <= k < a.len() ==> a[k] == b[k] {
            assert(a =~= b);
        }
    }
    let k = choose|k: int| 0 <= k < a.len() && a[k] != b[k];
    let off = sid.len() + 4 + k;
    assert(transcript(sid, pid, abc)[off] == a[k]);
    assert(transcript(sid, pid, bac)[off] == b[k]);
}

proof fn lemma_concat3(a: Seq<u8>, b: Seq<u8>, c: Seq<u8>)
    ensures
        concat(seq![a, b, c]) == a + b + c,
{
    let x = seq![a];
    let xy = seq![a, b];
    let xyz = seq![a, b, c];
    assert(x.drop_last() =~= Seq::<Seq<u8>>::empty());
    assert(concat(Seq::<Seq<u8>>::empty()) == Seq::<u8>::empty());
    assert(concat(x) == concat(x.drop_last()) + a);
    assert(concat(x) =~= a);
    assert(xy.drop_last() =~= x);
    assert(concat(xy) == concat(x) + b);
    assert(xyz.drop_last() =~= xy);
    assert(concat(xyz) == concat(xy) + c);
}

/// Relies on sha2's `Sha256::digest`: the digest depends on the message alone.
#[verifier::external_body]
fn sha256(m: &[u8]) -> (r: [u8; 32])
    ensures
        r@ == sha256_of(m@),
{
    sha2::Sha256::digest(m).into()
}

} // verus!
