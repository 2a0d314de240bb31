//! SPAKE2+ engine and crypto-primitive tests: the PBKDF2 stretch
//! vector, known-answer checks of the hash and KDF wrappers, P-256
//! point arithmetic consistency, and the PASE handler round trip.

use matter::crypto;
use matter::error::Error;
use matter::pake::PAKE;
use matter::spake2p::{p256_order, Spake2P};

#[test]
fn test_pbkdf2() {
    // These are the vectors from one sample run of chip-tool along with our PBKDFParamResponse
    let mut spake2 = Spake2P::new();
    let salt = [
        0x4, 0xa1, 0xd2, 0xc6, 0x11, 0xf0, 0xbd, 0x36, 0x78, 0x67, 0x79, 0x7b, 0xfe, 0x82, 0x36,
        0x0,
    ];
    spake2.start_verifier(123456, 2000, &salt).unwrap();
    let expected: [u8; 80] = [
        0xc7, 0x89, 0x33, 0x9c, 0xc5, 0xeb, 0xbc, 0xf6, 0xdf, 0x04, 0xa9, 0x11, 0x11, 0x06, 0x4c,
        0x15, 0xac, 0x5a, 0xea, 0x67, 0x69, 0x9f, 0x32, 0x62, 0xcf, 0xc6, 0xe9, 0x19, 0xe8, 0xa4,
        0x0b, 0xb3, 0x42, 0xe8, 0xc6, 0x8e, 0xa9, 0x9a, 0x73, 0xe2, 0x59, 0xd1, 0x17, 0xd8, 0xed,
        0xcb, 0x72, 0x8c, 0xbf, 0x3b, 0xa9, 0x88, 0x02, 0xd8, 0x45, 0x4b, 0xd0, 0x2d, 0xe5, 0xe4,
        0x1c, 0xc3, 0xd7, 0x00, 0x03, 0x3c, 0x86, 0x20, 0x9a, 0x42, 0x5f, 0x55, 0x96, 0x3b, 0x9f,
        0x6f, 0x79, 0xef, 0xcb, 0x37,
    ];
    assert_eq!(spake2.w0w1, expected.to_vec());
}

#[test]
fn test_sha256_empty() {
    let d = crypto::sha256(&[]);
    let expected: [u8; 32] = [
        0xe3, 0xb0, 0xc4, 0x42, 0x98, 0xfc, 0x1c, 0x14, 0x9a, 0xfb, 0xf4, 0xc8, 0x99, 0x6f, 0xb9,
        0x24, 0x27, 0xae, 0x41, 0xe4, 0x64, 0x9b, 0x93, 0x4c, 0xa4, 0x95, 0x99, 0x1b, 0x78, 0x52,
        0xb8, 0x55,
    ];
    assert_eq!(d, expected.to_vec());
}

#[test]
fn test_hmac_known_answer() {
    // RFC 4231 test case 1.
    let key = [0x0bu8; 20];
    let msg = b"Hi There";
    let tag = crypto::hmac_sha256(&key, msg);
    let expected: [u8; 32] = [
        0xb0, 0x34, 0x4c, 0x61, 0xd8, 0xdb, 0x38, 0x53, 0x5c, 0xa8, 0xaf, 0xce, 0xaf, 0x0b, 0xf1,
        0x2b, 0x88, 0x1d, 0xc2, 0x00, 0xc9, 0x83, 0x3d, 0xa7, 0x26, 0xe9, 0x37, 0x6c, 0x2e, 0x32,
        0xcf, 0xf7,
    ];
    assert_eq!(tag, expected.to_vec());
}

#[test]
fn test_hkdf_known_answer() {
    // RFC 5869 test case 3: no salt, no info.
    let ikm = [0x0bu8; 22];
    let okm = crypto::hkdf_sha256_expand(&ikm, &[], 42);
    let expected: [u8; 42] = [
        0x8d, 0xa4, 0xe7, 0x75, 0xa5, 0x63, 0xc1, 0x8f, 0x71, 0x5f, 0x80, 0x2a, 0x06, 0x3c, 0x5a,
        0x31, 0xb8, 0xa1, 0x1f, 0x5c, 0x5e, 0xe1, 0x87, 0x9e, 0xc3, 0x45, 0x4e, 0x5f, 0x3c, 0x73,
        0x8d, 0x2d, 0x9d, 0x20, 0x13, 0x95, 0xfa, 0xa4, 0xb6, 0x1a, 0x96, 0xc8,
    ];
    assert_eq!(okm, expected.to_vec());
}

#[test]
fn test_p256_generator() {
    let g = crypto::p256_base_mul(&[1]).unwrap();
    let expected: [u8; 65] = [
        0x04, 0x6b, 0x17, 0xd1, 0xf2, 0xe1, 0x2c, 0x42, 0x47, 0xf8, 0xbc, 0xe6, 0xe5, 0x63, 0xa4,
        0x40, 0xf2, 0x77, 0x03, 0x7d, 0x81, 0x2d, 0xeb, 0x33, 0xa0, 0xf4, 0xa1, 0x39, 0x45, 0xd8,
        0x98, 0xc2, 0x96, 0x4f, 0xe3, 0x42, 0xe2, 0xfe, 0x1a, 0x7f, 0x9b, 0x8e, 0xe7, 0xeb, 0x4a,
        0x7c, 0x0f, 0x9e, 0x16, 0x2b, 0xce, 0x33, 0x57, 0x6b, 0x31, 0x5e, 0xce, 0xcb, 0xb6, 0x40,
        0x68, 0x37, 0xbf, 0x51, 0xf5,
    ];
    assert_eq!(g, expected.to_vec());
}

#[test]
fn test_p256_mul_add_consistency() {
    let g = crypto::p256_base_mul(&[1]).unwrap();
    let g2_mul = crypto::p256_mul(&g, &[2]).unwrap();
    let g2_add = crypto::p256_add(&g, &g).unwrap();
    let g2_base = crypto::p256_base_mul(&[2]).unwrap();
    assert_eq!(g2_mul, g2_add);
    assert_eq!(g2_mul, g2_base);
    // Negation undoes itself.
    let neg = crypto::p256_neg(&g).unwrap();
    let back = crypto::p256_neg(&neg).unwrap();
    assert_eq!(back, g);
    assert_ne!(neg, g);
}

#[test]
fn test_bn_mod_arithmetic() {
    // 300 mod 256 == 44, and (3 * 100) mod 7 == 6.
    let r = crypto::bn_mod(&[0x01, 0x2c], &[0x01, 0x00]).unwrap();
    assert_eq!(r, vec![0x2c]);
    let r2 = crypto::bn_mod_mul(&[3], &[100], &[7]).unwrap();
    assert_eq!(r2, vec![6]);
}

#[test]
fn test_bn_rand_below_bound() {
    let order = p256_order();
    for _ in 0..8 {
        let y = crypto::bn_rand_below(&order).unwrap();
        // The scalar is smaller than the order: fewer bytes, or not
        // larger in big-endian comparison at equal length.
        assert!(y.len() <= order.len());
        if y.len() == order.len() {
            assert!(y.as_slice() < order.as_slice());
        }
    }
}

#[test]
fn test_ccm_seal_open_roundtrip() {
    let key = [7u8; 16];
    let nonce = [9u8; 13];
    let aad = [1u8, 2, 3];
    let msg = b"attestation payload";
    let sealed = crypto::aes128_ccm_seal(&key, &nonce, &aad, msg).unwrap();
    assert_eq!(sealed.len(), msg.len() + 16);
    assert_ne!(&sealed[..msg.len()], &msg[..]);
    let opened = crypto::aes128_ccm_open(&key, &nonce, &aad, &sealed).unwrap();
    assert_eq!(opened, msg.to_vec());
    // A flipped bit is rejected.
    let mut bad = sealed.clone();
    bad[0] ^= 1;
    assert_eq!(
        crypto::aes128_ccm_open(&key, &nonce, &aad, &bad),
        Err(Error::InvalidData)
    );
}

#[test]
fn test_ke_cacb_shapes() {
    let tt = b"a fixed transcript for the key schedule";
    let pa = [0x41u8; 65];
    let pb = [0x42u8; 65];
    let (ke, ca, cb) = Spake2P::get_Ke_and_cAcB(tt, &pa, &pb);
    assert_eq!(ke.len(), 16);
    assert_eq!(ca.len(), 32);
    assert_eq!(cb.len(), 32);
    assert_ne!(ca, cb);
    // Deterministic in its inputs.
    let (ke2, ca2, cb2) = Spake2P::get_Ke_and_cAcB(tt, &pa, &pb);
    assert_eq!(ke, ke2);
    assert_eq!(ca, ca2);
    assert_eq!(cb, cb2);
    // And sensitive to the transcript.
    let (ke3, _, _) = Spake2P::get_Ke_and_cAcB(b"another transcript", &pa, &pb);
    assert_ne!(ke, ke3);
}

fn pbkdfparamreq_bytes() -> Vec<u8> {
    // {1: initiator-random[32], 2: initiator-sessid, 3: passcode-id,
    //  4: has-params=false}
    let mut v = vec![0x15u8];
    v.extend_from_slice(&[0x30, 0x01, 32]);
    v.extend_from_slice(&[0xaa; 32]);
    v.extend_from_slice(&[0x25, 0x02, 0x01, 0x00]);
    v.extend_from_slice(&[0x25, 0x03, 0x00, 0x00]);
    v.extend_from_slice(&[0x28, 0x04]);
    v.push(0x18);
    v
}

#[test]
fn test_pase_handshake_flow() {
    let pake = PAKE::new();
    let req = pbkdfparamreq_bytes();
    let (resp, mut spake2, preq) = pake.handle_pbkdfparamrequest(&req, 42).unwrap();
    assert_eq!(preq.initiator_sessid, 1);
    assert_eq!(preq.passcode_id, 0);
    assert_eq!(preq.initiator_random, vec![0xaa; 32]);
    // The response echoes the initiator random and carries our salt.
    assert_eq!(&resp[0..3], &[0x15, 0x30, 0x01]);
    assert_eq!(resp[3], 32);
    assert_eq!(&resp[4..36], &[0xaa; 32]);
    // Context holds prefix, request and response.
    assert!(spake2.context.len() > req.len() + resp.len());

    // PASEPake1 with the prover share X = x*P + w0*M is accepted and
    // answered with our share and confirmation tag.
    let x_scalar = [5u8; 32];
    let m = matter::spake2p::matter_m();
    let x_p = crypto::p256_base_mul(&x_scalar).unwrap();
    // Use an arbitrary valid curve point as the share; the engine
    // accepts any point encoding openssl accepts.
    let w0m = crypto::p256_mul(&m, &[3]).unwrap();
    let pa = crypto::p256_add(&x_p, &w0m).unwrap();
    let mut pake1 = vec![0x15u8, 0x30, 0x01, 65];
    pake1.extend_from_slice(&pa);
    pake1.push(0x18);
    let pake2 = pake.handle_pasepake1(&mut spake2, &pake1).unwrap();
    // {1: pB[65], 2: cB[32]}
    assert_eq!(&pake2[0..3], &[0x15, 0x30, 0x01]);
    assert_eq!(pake2[3], 65);
    assert_eq!(pake2[4 + 65], 0x30);
    assert_eq!(pake2[4 + 65 + 2], 32);

    // PASEPake3 with the wrong confirmation tag is rejected; with the
    // expected one the session keys are handed out.
    let mut bad3 = vec![0x15u8, 0x30, 0x01, 32];
    bad3.extend_from_slice(&[0u8; 32]);
    bad3.push(0x18);
    if spake2.ca != vec![0u8; 32] {
        assert_eq!(
            pake.handle_pasepake3(&spake2, &bad3).map(|_| ()),
            Err(Error::InvalidSignature)
        );
    }
    let mut good3 = vec![0x15u8, 0x30, 0x01, 32];
    good3.extend_from_slice(&spake2.ca);
    good3.push(0x18);
    let (k1, k2, k3) = pake.handle_pasepake3(&spake2, &good3).unwrap();
    assert_eq!(k1.len(), 16);
    assert_eq!(k2.len(), 16);
    assert_eq!(k3.len(), 16);
    assert_ne!(k1, k2);
}
