use k256::elliptic_curve::ops::Reduce;
use k256::elliptic_curve::{Field, PrimeField};
use vstd::prelude::*;

use crate::error::DecodeError;

verus! {

/// The order `n` of the secp256k1 group: scalars are integers modulo `n`.
pub open spec fn group_order() -> nat {
    0xFFFFFFFFFFFFFFFFFFFFFFFFFFFFFFFEnat * 0x1_0000_0000_0000_0000_0000_0000_0000_0000nat
        + 0xBAAEDCE6AF48A03BBFD25E8CD0364141nat
}

/// The unsigned integer that a byte string denotes, most significant byte first.
pub open spec fn be_nat(b: Seq<u8>) -> nat
    decreases b.len(),
{
    if b.len() == 0 {
        0
    } else {
        be_nat(b.drop_last()) * 256 + b.last() as nat
    }
}

/// The bytes are the canonical encoding of a scalar.
pub open spec fn valid_scalar_bytes(b: Seq<u8>) -> bool {
    b.len() == 32 && be_nat(b) < group_order()
}

/// An element of the scalar field, held as its 32-byte big-endian encoding.
#[derive(Clone, Copy, Debug, PartialEq, Eq)]
pub struct Scalar {
    pub(crate) bytes: [u8; 32],
}

impl View for Scalar {
    type V = Seq<u8>;

    closed spec fn view(&self) -> Seq<u8> {
        self.bytes@
    }
}

impl Scalar {
    /// The integer that this scalar stands for.
    pub open spec fn val(&self) -> nat {
        be_nat(self@)
    }

    /// The encoding is 32 bytes long and denotes a value below `n`.
    pub open spec fn wf(&self) -> bool {
        self@.len() == 32 && self.val() < group_order()
    }

    /// A scalar's encoding is always 32 bytes.
    pub proof fn lemma_len(&self)
        ensures
            self@.len() == 32,
    {
    }

    /// The scalar one.
    pub fn one() -> (r: Scalar)
        ensures
            r.wf(),
            r.val() == 1,
    {
        let mut bytes = [0u8; 32];
        bytes[31] = 1;
        proof {
            lemma_be_nat_low_byte(bytes@);
        }
        Scalar { bytes }
    }

    /// `(self + other) mod n`.
    pub fn add(&self, other: &Scalar) -> (r: Scalar)
        requires
            self.wf(),
            other.wf(),
        ensures
            r.wf(),
            r.val() == (self.val() + other.val()) % group_order(),
    {
        let r = field_add(self, other);
        proof {
            r.lemma_len();
        }
        r
    }

    /// `(self * other) mod n`.
    pub fn mul(&self, other: &Scalar) -> (r: Scalar)
        requires
            self.wf(),
            other.wf(),
        ensures
            r.wf(),
            r.val() == (self.val() * other.val()) % group_order(),
    {
        let r = field_mul(self, other);
        proof {
            r.lemma_len();
        }
        r
    }

    /// The scalar that a 32-byte digest denotes, reduced modulo `n`.
    pub fn from_digest(d: &[u8; 32]) -> (r: Scalar)
        ensures
            r.wf(),
            r.val() == be_nat(d@) % group_order(),
    {
        let r = reduce_be_bytes(d);
        proof {
            r.lemma_len();
        }
        r
    }

    /// The 32-byte big-endian encoding.
    pub fn to_bytes(&self) -> (r: Vec<u8>)
        ensures
            r@ == self@,
    {
        let mut r: Vec<u8> = Vec::new();
        let mut i: usize = 0;
        while i < 32
            invariant
                i <= 32,
                self@.len() == 32,
                r@ == self@.subrange(0, i as int),
            decreases 32 - i,
        {
            r.push(self.bytes[i]);
            i = i + 1;
        }
        assert(r@ =~= self@);
        r
    }

    /// Reads a scalar from its 32-byte big-endian encoding; a value at or
    /// above `n` is refused rather than reduced.
    pub fn from_bytes(b: &[u8]) -> (r: Result<Scalar, DecodeError>)
        ensures
            r is Ok <==> valid_scalar_bytes(b@),
            r matches Ok(s) ==> s.wf() && s@ == b@,
            r matches Err(e) ==> e == DecodeError::InvalidScalar,
    {
        if b.len() != 32 {
            return Err(DecodeError::InvalidScalar);
        }
        let mut bytes = [0u8; 32];
        let mut i: usize = 0;
        while i < 32
            invariant
                i <= 32,
                b@.len() == 32,
                bytes@.len() == 32,
                forall|j: int| 0 <= j < i ==> bytes@[j] == b@[j],
            decreases 32 - i,
        {
            bytes[i] = b[i];
            i = i + 1;
        }
        assert(bytes@ =~= b@);
        match canonical_scalar(&bytes) {
            Some(s) => {
                proof {
                    s.lemma_len();
                }
                Ok(s)
            },
            None => Err(DecodeError::InvalidScalar),
        }
    }
}

/// A uniformly random scalar, drawn from the thread-local generator.
pub fn generate_random_number() -> (r: Scalar)
    ensures
        r.wf(),
{
    let r = random_field_element();
    proof {
        r.lemma_len();
    }
    r
}

proof fn lemma_be_nat_zeros(b: Seq<u8>)
    requires
        forall|j: int| 0 <= j < b.len() ==> b[j] == 0,
    ensures
        be_nat(b) == 0,
    decreases b.len(),
{
    if b.len() > 0 {
        lemma_be_nat_zeros(b.drop_last());
    }
}

proof fn lemma_be_nat_low_byte(b: Seq<u8>)
    requires
        b.len() > 0,
        forall|j: int| 0 <= j < b.len() - 1 ==> b[j] == 0,
    ensures
        be_nat(b) == b.last() as nat,
{
    lemma_be_nat_zeros(b.drop_last());
}

/// Relies on `Field::random` of k256's `Scalar`, fed by rand's `thread_rng`:
/// rejection sampling gives a value below `n`.
#[verifier::external_body]
fn random_field_element() -> (r: Scalar)
    ensures
        r.val() < group_order(),
{
    let k = k256::Scalar::random(&mut rand::thread_rng());
    Scalar { bytes: k.to_bytes().into() }
}

/// Relies on k256's `Scalar + Scalar`: addition modulo `n`.
#[verifier::external_body]
fn field_add(a: &Scalar, b: &Scalar) -> (r: Scalar)
    requires
        a.wf(),
        b.wf(),
    ensures
        r.val() == (a.val() + b.val()) % group_order(),
{
    let x = k256::Scalar::from_repr(a.bytes.into()).unwrap();
    let y = k256::Scalar::from_repr(b.bytes.into()).unwrap();
    Scalar { bytes: (x + y).to_bytes().into() }
}

/// Relies on k256's `Scalar * Scalar`: multiplication modulo `n`.
#[verifier::external_body]
fn field_mul(a: &Scalar, b: &Scalar) -> (r: Scalar)
    requires
        a.wf(),
        b.wf(),
    ensures
        r.val() == (a.val() * b.val()) % group_order(),
{
    let x = k256::Scalar::from_repr(a.bytes.into()).unwrap();
    let y = k256::Scalar::from_repr(b.bytes.into()).unwrap();
    Scalar { bytes: (x * y).to_bytes().into() }
}

/// Relies on k256's `Reduce<U256>::reduce_bytes` for `Scalar`: the bytes are
/// read big-endian and reduced modulo `n`.
#[verifier::external_body]
fn reduce_be_bytes(d: &[u8; 32]) -> (r: Scalar)
    ensures
        r.val() == be_nat(d@) % group_order(),
{
    let k = <k256::Scalar as Reduce<k256::U256>>::reduce_bytes(&(*d).into());
    Scalar { bytes: k.to_bytes().into() }
}

/// Relies on `PrimeField::from_repr` of k256's `Scalar`: it accepts exactly the
/// big-endian values below `n`.
#[verifier::external_body]
fn canonical_scalar(b: &[u8; 32]) -> (r: Option<Scalar>)
    ensures
        r is Some <==> be_nat(b@) < group_order(),
        r matches Some(s) ==> s@ == b@,
{
    let k: Option<k256::Scalar> = k256::Scalar::from_repr((*b).into()).into();
    k.map(|_| Scalar { bytes: *b })
}

} // verus!
