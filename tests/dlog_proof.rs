use dlog_proof::dlog::{DLogProof, ProofBytes};
use dlog_proof::error::{DecodeError, EncodeError};
use dlog_proof::point::Point;
use dlog_proof::scalar::{generate_random_number, Scalar};

fn hex(s: &str) -> Vec<u8> {
    (0..s.len())
        .step_by(2)
        .map(|i| u8::from_str_radix(&s[i..i + 2], 16).unwrap())
        .collect()
}

fn scalar_of(v: u64) -> Scalar {
    let mut b = vec![0u8; 24];
    b.extend_from_slice(&v.to_be_bytes());
    Scalar::from_bytes(&b).unwrap()
}

const G_HEX: &str = "0479be667ef9dcbbac55a06295ce870b07029bfcdb2dce28d959f2815b16f81798483ada7726a3c4655da4fbfc0e1108a8fd17b448a68554199c47d08ffb10d4b8";
const TWO_G_HEX: &str = "04c6047f9441ed7d6d3045406e95c07cd85c778e4b8cef3ca7abac09b95c709ee51ae168fea63dc339a3c58419466ceaeef7f632653266d0e1236431a950cfe52a";
const Y7_HEX: &str = "045cbdf0646e5db4eaa398f365f2ea7a0e3d419b7e0330e39ce92bddedcac4f9bc6aebca40ba255960a3178d6d861a54dba813d0b813fde7b5a5082628087264da";
const T11_HEX: &str = "04774ae7f858a9411e5ef4246b70c65aac5649980be5c17891bbec17895da008cbd984a032eb6b5e190243dd56d7b7b365372db1e2dff9d6a8301d74c9c953c61b";
const ORDER_HEX: &str = "fffffffffffffffffffffffffffffffebaaedce6af48a03bbfd25e8cd0364141";

#[test]
fn test_hash_points() {
    let sid = "sid";
    let pid = 1;
    let points = vec![Point::generator(); 3];
    let hash = DLogProof::hash_points(sid, pid, &points);
    println!("{:?}", hash);
    assert_eq!(
        hash.to_bytes(),
        hex("e4ffaa86b49b2f45646bfc6faa41ef6df44f2dc69f8aa8afe2ddeb3a4c50d483")
    );
}

#[test]
fn test_verify() {
    let sid = "sid";
    let pid = 1;
    let x = generate_random_number();
    let y = Point::mul_base(&x);
    let dlog_proof = DLogProof::prove(sid, pid, x, y.clone());
    assert!(dlog_proof.verify(sid, pid, y));
}

#[test]
fn test_verify_failed_wrong_pid() {
    let sid = "sid";
    let pid = 1;
    let x = generate_random_number();
    let y = Point::mul_base(&x);
    let dlog_proof = DLogProof::prove(sid, pid, x, y);
    assert!(!dlog_proof.verify(sid, pid, Point::generator()));
}

#[test]
fn test_verify_failed_wrong_sid() {
    let sid = "sid";
    let pid = 1;
    let x = generate_random_number();
    let y = Point::mul_base(&x);
    let dlog_proof = DLogProof::prove(sid, pid, x, y);
    assert!(!dlog_proof.verify("abc", pid, Point::generator()));
}

#[test]
fn generator_encoding() {
    assert_eq!(Point::generator().to_bytes(), hex(G_HEX));
    assert_eq!(Point::mul_base(&scalar_of(2)).to_bytes(), hex(TWO_G_HEX));
}

#[test]
fn point_add_and_mul() {
    let g = Point::generator();
    assert_eq!(g.add(&g).to_bytes(), hex(TWO_G_HEX));
    assert_eq!(g.mul(&scalar_of(7)).to_bytes(), hex(Y7_HEX));
    let five = Point::mul_base(&scalar_of(5));
    let two = Point::mul_base(&scalar_of(2));
    assert!(five.add(&two).equals(&Point::mul_base(&scalar_of(7))));
    assert!(!five.equals(&two));
}

#[test]
fn identity_encoding() {
    let zero = Point::mul_base(&scalar_of(0));
    assert_eq!(zero.to_bytes(), vec![0u8]);
    let g = Point::generator();
    assert!(g.add(&zero).equals(&g));
}

#[test]
fn scalar_arithmetic() {
    let n_minus_one = {
        let mut b = hex(ORDER_HEX);
        b[31] -= 1;
        Scalar::from_bytes(&b).unwrap()
    };
    assert_eq!(n_minus_one.add(&scalar_of(5)).to_bytes(), scalar_of(4).to_bytes());
    assert_eq!(
        n_minus_one.mul(&scalar_of(5)).to_bytes(),
        hex("fffffffffffffffffffffffffffffffebaaedce6af48a03bbfd25e8cd036413c")
    );
    assert_eq!(Scalar::one().to_bytes(), scalar_of(1).to_bytes());
}

#[test]
fn digest_is_reduced() {
    let d = [0xffu8; 32];
    let mut expected = vec![0u8; 15];
    expected.extend_from_slice(&hex("014551231950b75fc4402da1732fc9bebe"));
    assert_eq!(Scalar::from_digest(&d).to_bytes(), expected);
}

#[test]
fn hash_points_order_matters() {
    let g = Point::generator();
    let y = Point::mul_base(&scalar_of(7));
    let t = Point::mul_base(&scalar_of(11));
    let a = DLogProof::hash_points("sid", 1, &[g.clone(), y.clone(), t.clone()]);
    let b = DLogProof::hash_points("sid", 1, &[y.clone(), g.clone(), t.clone()]);
    let again = DLogProof::hash_points("sid", 1, &[g, y, t]);
    assert_eq!(
        a.to_bytes(),
        hex("5fc2dc14333c76841d23d155ca01abf95104d24836fd0aa3ec9ade6434a19136")
    );
    assert_eq!(
        b.to_bytes(),
        hex("947849ab085e6fc92f60eb2278152e4c831d3d66689ae786bcad1db15784dee9")
    );
    assert_eq!(a, again);
}

#[test]
fn prove_with_fixed_nonce() {
    let x = scalar_of(7);
    let y = Point::mul_base(&x);
    let proof = DLogProof::prove_with_nonce("sid", 1, x, y.clone(), scalar_of(11));
    assert_eq!(proof.t().to_bytes(), hex(T11_HEX));
    assert_eq!(
        proof.s().to_bytes(),
        hex("9e54048d66a73d9ccbfab958860bb3d3c1c4062c225a0a03f89757a3cffe7603")
    );
    assert!(proof.verify("sid", 1, y.clone()));
    assert!(!proof.verify("sid", 1, Point::generator()));
    assert!(!proof.verify("sid", 2, y.clone()));
    assert!(!proof.verify("sie", 1, y));
}

#[test]
fn completeness_for_many_witnesses() {
    for v in [1u64, 2, 3, 1000, u64::MAX] {
        let x = scalar_of(v);
        let y = Point::mul_base(&x);
        let proof = DLogProof::prove("session", 42, x, y.clone());
        assert!(proof.verify("session", 42, y));
    }
}

#[test]
fn soundness_negative_controls() {
    let x = generate_random_number();
    let y = Point::mul_base(&x);
    let proof = DLogProof::prove("sid", 1, x, y.clone());
    assert!(!proof.verify("sid2", 1, y.clone()));
    assert!(!proof.verify("sid", 1, Point::mul_base(&scalar_of(3))));
    assert!(proof.verify("sid", 1, y));
}

#[test]
fn nonces_differ_between_proofs() {
    let x = generate_random_number();
    let y = Point::mul_base(&x);
    let a = DLogProof::prove("sid", 1, x, y.clone());
    let b = DLogProof::prove("sid", 1, x, y);
    assert_ne!(a.t().to_bytes(), b.t().to_bytes());
}

#[test]
fn canonical_round_trip() {
    let x = generate_random_number();
    let y = Point::mul_base(&x);
    let proof = DLogProof::prove("sid", 1, x, y.clone());
    let ProofBytes { t, s } = proof.to_canonical_bytes().unwrap();
    assert_eq!(t.len() + s.len(), 97);
    let back = DLogProof::from_canonical_bytes(&t, &s).unwrap();
    assert_eq!(back.t().to_bytes(), proof.t().to_bytes());
    assert_eq!(back.s().to_bytes(), proof.s().to_bytes());
    assert!(back.verify("sid", 1, y));
}

#[test]
fn decode_rejects_bad_point() {
    let s = scalar_of(3).to_bytes();
    let g = hex(G_HEX);
    assert_eq!(
        DLogProof::from_canonical_bytes(&g[..64], &s),
        Err(DecodeError::InvalidPoint)
    );
    let mut off_curve = g.clone();
    off_curve[64] ^= 1;
    assert_eq!(
        DLogProof::from_canonical_bytes(&off_curve, &s),
        Err(DecodeError::InvalidPoint)
    );
    assert_eq!(
        DLogProof::from_canonical_bytes(&[0u8], &s),
        Err(DecodeError::InvalidPoint)
    );
    let mut compressed = vec![0x02u8];
    compressed.extend_from_slice(&g[1..33]);
    assert_eq!(
        DLogProof::from_canonical_bytes(&compressed, &s),
        Err(DecodeError::InvalidPoint)
    );
    assert_eq!(Point::from_bytes(&[]), Err(DecodeError::InvalidPoint));
}

#[test]
fn decode_rejects_bad_scalar() {
    let g = hex(G_HEX);
    assert_eq!(
        DLogProof::from_canonical_bytes(&g, &[1u8; 31]),
        Err(DecodeError::InvalidScalar)
    );
    assert_eq!(
        DLogProof::from_canonical_bytes(&g, &hex(ORDER_HEX)),
        Err(DecodeError::InvalidScalar)
    );
    assert_eq!(
        DLogProof::from_canonical_bytes(&[4u8; 10], &[1u8; 31]),
        Err(DecodeError::InvalidPoint)
    );
    let ok = DLogProof::from_canonical_bytes(&g, &scalar_of(9).to_bytes()).unwrap();
    assert_eq!(ok.t().to_bytes(), g);
}

#[test]
fn encode_refuses_identity_commitment() {
    let x = scalar_of(7);
    let y = Point::mul_base(&x);
    let proof = DLogProof::prove_with_nonce("sid", 1, x, y, scalar_of(0));
    assert_eq!(proof.to_canonical_bytes(), Err(EncodeError::PointAtInfinity));
    let direct = DLogProof::new(Point::mul_base(&scalar_of(0)), scalar_of(5));
    assert_eq!(direct.to_canonical_bytes(), Err(EncodeError::PointAtInfinity));
    assert!(Point::mul_base(&scalar_of(0)).is_identity());
    assert!(!Point::generator().is_identity());
}
