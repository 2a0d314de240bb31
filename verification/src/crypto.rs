//! Cryptographic primitives, each behind a trusted wrapper: hashing and
//! key derivation (SHA-256, HMAC, HKDF, PBKDF2), ECDSA verification,
//! AES-128-CCM sealing, P-256 scalar and point arithmetic, and the one
//! source of randomness.
//!
//! What a primitive returns is named by an uninterpreted spec function
//! where it is a pure function of the arguments; scalar arithmetic is
//! specified exactly over the big-endian integer value of the byte
//! strings.  Nothing is claimed of random output beyond its length.

use vstd::prelude::*;

use hmac::{Mac, NewMac};
use openssl::bn::{BigNum, BigNumContext};
use openssl::ec::{EcGroup, EcKey, EcPoint, PointConversionForm};
use openssl::cipher::Cipher;
use openssl::cipher_ctx::CipherCtx;
use openssl::ecdsa::EcdsaSig;
use openssl::error::ErrorStack;
use openssl::nid::Nid;

use crate::error::Error;
use rand::RngCore;
use sha2::Digest;

verus! {

/// Big-endian integer value of a byte string.
pub open spec fn spec_be_val(b: Seq<u8>) -> int
    decreases b.len(),
{
    if b.len() == 0 {
        0
    } else {
        spec_be_val(b.drop_last()) * 256 + b.last()
    }
}

/// A big-endian value is never negative.
pub proof fn lemma_be_val_nonneg(b: Seq<u8>)
    ensures
        spec_be_val(b) >= 0,
    decreases b.len(),
{
    if b.len() > 0 {
        lemma_be_val_nonneg(b.drop_last());
    }
}

/// The SHA-256 digest of a byte string.
pub uninterp spec fn spec_sha256(data: Seq<u8>) -> Seq<u8>;

/// Relies on sha2's SHA-256: the digest is a function of the input alone
/// and is 32 bytes long.
#[verifier::external_body]
pub fn sha256(data: &[u8]) -> (r: Vec<u8>)
    ensures
        r@ == spec_sha256(data@),
        r@.len() == 32,
{
    sha2::Sha256::digest(data).to_vec()
}

/// The HMAC-SHA256 tag of a message under a key.
pub uninterp spec fn spec_hmac_sha256(key: Seq<u8>, msg: Seq<u8>) -> Seq<u8>;

/// Relies on hmac's HMAC-SHA256: the tag is a function of key and
/// message alone and is 32 bytes long; any key length is accepted.
#[verifier::external_body]
pub fn hmac_sha256(key: &[u8], msg: &[u8]) -> (r: Vec<u8>)
    ensures
        r@ == spec_hmac_sha256(key@, msg@),
        r@.len() == 32,
{
    match hmac::Hmac::<sha2::Sha256>::new_from_slice(key) {
        Ok(mut mac) => {
            mac.update(msg);
            mac.finalize().into_bytes().to_vec()
        },
        Err(_) => Vec::new(),
    }
}

/// The HKDF-SHA256 expand output for a pseudorandom key and info text.
pub uninterp spec fn spec_hkdf_sha256_expand(prk: Seq<u8>, info: Seq<u8>, out_len: int) -> Seq<u8>;

/// Relies on hkdf's HKDF-SHA256 with an absent extract salt: the
/// keying material is extracted under a zero salt and expanded with the
/// info text, so the output is a function of key material, info and
/// length alone.  Lengths above 255 hash blocks are rejected by hkdf
/// and are excluded here.
#[verifier::external_body]
pub fn hkdf_sha256_expand(prk: &[u8], info: &[u8], out_len: usize) -> (r: Vec<u8>)
    requires
        out_len <= 8160,
    ensures
        r@ == spec_hkdf_sha256_expand(prk@, info@, out_len as int),
        r@.len() == out_len,
{
    let h = hkdf::Hkdf::<sha2::Sha256>::new(None, prk);
    let mut out = vec![0u8; out_len];
    let _ = h.expand(info, &mut out);
    out
}

/// The PBKDF2-HMAC-SHA256 output for a password, salt and iteration
/// count.
pub uninterp spec fn spec_pbkdf2_hmac_sha256(
    password: Seq<u8>,
    salt: Seq<u8>,
    iter: u32,
    out_len: int,
) -> Seq<u8>;

/// Relies on pbkdf2's PBKDF2-HMAC-SHA256: the derived bytes are a
/// function of password, salt, iteration count and length alone.
#[verifier::external_body]
pub fn pbkdf2_hmac_sha256(password: &[u8], salt: &[u8], iter: u32, out_len: usize) -> (r: Vec<u8>)
    ensures
        r@ == spec_pbkdf2_hmac_sha256(password@, salt@, iter, out_len as int),
        r@.len() == out_len,
{
    let mut out = vec![0u8; out_len];
    pbkdf2::pbkdf2::<hmac::Hmac<sha2::Sha256>>(password, salt, iter, &mut out);
    out
}

/// Whether a raw `r‖s` ECDSA-P256 signature over a 32-byte digest
/// verifies under an uncompressed public key.
pub uninterp spec fn spec_ecdsa_p256_verifies(pubkey: Seq<u8>, digest: Seq<u8>, sig: Seq<u8>) -> bool;

/// Relies on openssl's ECDSA verification over P-256: the outcome is a
/// function of public key, digest and signature alone.  A signature that
/// is not 64 bytes, a key that is not a curve point, or a rejected
/// signature all yield false.
#[verifier::external_body]
pub fn ecdsa_p256_verify(pubkey: &[u8], digest: &[u8], sig: &[u8]) -> (r: bool)
    ensures
        r == spec_ecdsa_p256_verifies(pubkey@, digest@, sig@),
{
    let f = || -> Result<bool, openssl::error::ErrorStack> {
        let group = EcGroup::from_curve_name(Nid::X9_62_PRIME256V1)?;
        let mut ctx = BigNumContext::new()?;
        let pt = EcPoint::from_bytes(&group, pubkey, &mut ctx)?;
        let key = EcKey::from_public_key(&group, &pt)?;
        let esig = EcdsaSig::from_private_components(
            BigNum::from_slice(&sig[..32])?,
            BigNum::from_slice(&sig[32..])?,
        )?;
        esig.verify(digest, &key)
    };
    sig.len() == 64 && matches!(f(), Ok(true))
}

/// AES-128-CCM ciphertext-and-tag for a key, 13-byte nonce, associated
/// data and plaintext.
pub uninterp spec fn spec_aes128_ccm_seal(
    key: Seq<u8>,
    nonce: Seq<u8>,
    aad: Seq<u8>,
    data: Seq<u8>,
) -> Seq<u8>;

/// Relies on openssl's AES-128-CCM with a 16-byte tag: the sealed bytes
/// are a function of key, nonce, associated data and plaintext alone,
/// and are the plaintext length plus the tag.  With a 16-byte key, a
/// 13-byte nonce and a plaintext within the two-byte length field that
/// nonce size leaves, sealing succeeds.
#[verifier::external_body]
pub fn aes128_ccm_seal(key: &[u8], nonce: &[u8], aad: &[u8], data: &[u8]) -> (r: Result<
    Vec<u8>,
    Error,
>)
    ensures
        match r {
            Ok(v) => v@ == spec_aes128_ccm_seal(key@, nonce@, aad@, data@) && v@.len() == data@.len()
                + 16,
            Err(e) => e == Error::InvalidData,
        },
        key@.len() == 16 && nonce@.len() == 13 && data@.len() <= 0xFFFF ==> r is Ok,
{
    (|| -> Result<Vec<u8>, ErrorStack> {
        let mut cx = CipherCtx::new()?;
        cx.encrypt_init(Some(Cipher::aes_128_ccm()), None, None)?;
        cx.set_iv_length(nonce.len())?;cx.set_tag_length(16)?;
        cx.encrypt_init(None, Some(key), Some(nonce))?;
        cx.set_data_len(data.len())?;
        cx.cipher_update(aad, None)?;
        let (mut out, mut tag) = (Vec::new(), [0u8; 16]);
        cx.cipher_update_vec(data, &mut out)?;
        cx.cipher_final_vec(&mut out)?;
        cx.tag(&mut tag)?;out.extend_from_slice(&tag);
        Ok(out)
    })().map_err(|_e| Error::InvalidData)
}

/// AES-128-CCM opening: the plaintext when key, nonce, associated data
/// and ciphertext-with-tag are authentic, nothing otherwise.
pub uninterp spec fn spec_aes128_ccm_open(
    key: Seq<u8>,
    nonce: Seq<u8>,
    aad: Seq<u8>,
    ct: Seq<u8>,
) -> Option<Seq<u8>>;

/// Relies on openssl's AES-128-CCM with a 16-byte tag: acceptance and
/// the recovered plaintext are a function of key, nonce, associated
/// data and ciphertext alone.
#[verifier::external_body]
pub fn aes128_ccm_open(key: &[u8], nonce: &[u8], aad: &[u8], ct: &[u8]) -> (r: Result<
    Vec<u8>,
    Error,
>)
    ensures
        match r {
            Ok(v) => spec_aes128_ccm_open(key@, nonce@, aad@, ct@) == Some(v@),
            Err(e) => e == Error::InvalidData && spec_aes128_ccm_open(
                key@,
                nonce@,
                aad@,
                ct@,
            ) is None,
        },
{
    if ct.len() < 16 {
        return Err(Error::InvalidData);
    }
    let (c, t) = ct.split_at(ct.len() - 16);
    (|| -> Result<Vec<u8>, ErrorStack> {
        let mut cx = CipherCtx::new()?;
        cx.decrypt_init(Some(Cipher::aes_128_ccm()), None, None)?;
        cx.set_iv_length(nonce.len())?;cx.set_tag(t)?;
        cx.decrypt_init(None, Some(key), Some(nonce))?;
        cx.set_data_len(c.len())?;cx.cipher_update(aad, None)?;
        let mut out = Vec::new();
        cx.cipher_update_vec(c, &mut out)?;
        Ok(out)
    })().map_err(|_e| Error::InvalidData)
}

/// Relies on rand's thread-local CSPRNG: nothing is known of the bytes
/// beyond their count.
#[verifier::external_body]
pub fn fill_random(out_len: usize) -> (r: Vec<u8>)
    ensures
        r@.len() == out_len,
{
    let mut out = vec![0u8; out_len];
    rand::thread_rng().fill_bytes(&mut out);
    out
}

/// The uncompressed encoding of `scalar * G` on P-256, as a function
/// of the scalar's integer value.
pub uninterp spec fn spec_p256_base_mul(scalar: int) -> Seq<u8>;

/// Relies on openssl's EC scalar multiplication by the P-256 generator:
/// the resulting point encoding is a function of the scalar's value
/// alone.
#[verifier::external_body]
pub fn p256_base_mul(scalar: &[u8]) -> (r: Result<Vec<u8>, Error>)
    ensures
        match r {
            Ok(v) => v@ == spec_p256_base_mul(spec_be_val(scalar@)),
            Err(e) => e == Error::Invalid,
        },
{
    let out = (|| -> Result<Vec<u8>, openssl::error::ErrorStack> {
        let group = EcGroup::from_curve_name(Nid::X9_62_PRIME256V1)?;
        let mut ctx = BigNumContext::new()?;
        let n = BigNum::from_slice(scalar)?;
        let mut p = EcPoint::new(&group)?;
        p.mul_generator2(&group, &n, &mut ctx)?;
        p.to_bytes(&group, PointConversionForm::UNCOMPRESSED, &mut ctx)
    })();
    out.map_err(|_e| Error::Invalid)
}

/// The uncompressed encoding of the point sum `P1 + P2` on P-256.
pub uninterp spec fn spec_p256_add(p1: Seq<u8>, p2: Seq<u8>) -> Seq<u8>;

/// Relies on openssl's EC point addition on P-256: the resulting point
/// encoding is a function of the two points alone.
#[verifier::external_body]
pub fn p256_add(p1: &[u8], p2: &[u8]) -> (r: Result<Vec<u8>, Error>)
    ensures
        match r {
            Ok(v) => v@ == spec_p256_add(p1@, p2@),
            Err(e) => e == Error::Invalid,
        },
{
    let out = (|| -> Result<Vec<u8>, openssl::error::ErrorStack> {
        let group = EcGroup::from_curve_name(Nid::X9_62_PRIME256V1)?;
        let mut ctx = BigNumContext::new()?;
        let pt1 = EcPoint::from_bytes(&group, p1, &mut ctx)?;
        let pt2 = EcPoint::from_bytes(&group, p2, &mut ctx)?;
        let mut sum = EcPoint::new(&group)?;
        sum.add(&group, &pt1, &pt2, &mut ctx)?;
        sum.to_bytes(&group, PointConversionForm::UNCOMPRESSED, &mut ctx)
    })();
    out.map_err(|_e| Error::Invalid)
}

/// The uncompressed encoding of `scalar * P` on P-256, as a function
/// of the point encoding and the scalar's integer value.
pub uninterp spec fn spec_p256_mul(p: Seq<u8>, scalar: int) -> Seq<u8>;

/// Relies on openssl's EC scalar multiplication on P-256: the resulting
/// point encoding is a function of the point and the scalar's value
/// alone.
#[verifier::external_body]
pub fn p256_mul(p: &[u8], scalar: &[u8]) -> (r: Result<Vec<u8>, Error>)
    ensures
        match r {
            Ok(v) => v@ == spec_p256_mul(p@, spec_be_val(scalar@)),
            Err(e) => e == Error::Invalid,
        },
{
    let out = (|| -> Result<Vec<u8>, openssl::error::ErrorStack> {
        let group = EcGroup::from_curve_name(Nid::X9_62_PRIME256V1)?;
        let mut ctx = BigNumContext::new()?;
        let pt = EcPoint::from_bytes(&group, p, &mut ctx)?;
        let n = BigNum::from_slice(scalar)?;
        let mut m = EcPoint::new(&group)?;
        m.mul2(&group, &pt, &n, &mut ctx)?;
        m.to_bytes(&group, PointConversionForm::UNCOMPRESSED, &mut ctx)
    })();
    out.map_err(|_e| Error::Invalid)
}

/// The uncompressed encoding of `-P` on P-256.
pub uninterp spec fn spec_p256_neg(p: Seq<u8>) -> Seq<u8>;

/// Relies on openssl's EC point inversion on P-256: the negated point's
/// encoding is a function of the point alone.
#[verifier::external_body]
pub fn p256_neg(p: &[u8]) -> (r: Result<Vec<u8>, Error>)
    ensures
        match r {
            Ok(v) => v@ == spec_p256_neg(p@),
            Err(e) => e == Error::Invalid,
        },
{
    let out = (|| -> Result<Vec<u8>, openssl::error::ErrorStack> {
        let group = EcGroup::from_curve_name(Nid::X9_62_PRIME256V1)?;
        let mut ctx = BigNumContext::new()?;
        let mut pt = EcPoint::from_bytes(&group, p, &mut ctx)?;
        pt.invert2(&group, &mut ctx)?;
        pt.to_bytes(&group, PointConversionForm::UNCOMPRESSED, &mut ctx)
    })();
    out.map_err(|_e| Error::Invalid)
}

/// Relies on openssl's modular reduction: the big-endian value of the
/// result is the value of `a` reduced modulo the value of `m`, and a
/// nonzero modulus always succeeds.
#[verifier::external_body]
pub fn bn_mod(a: &[u8], m: &[u8]) -> (r: Result<Vec<u8>, Error>)
    ensures
        match r {
            Ok(v) => spec_be_val(m@) > 0 && spec_be_val(v@) == spec_be_val(a@) % spec_be_val(m@),
            Err(e) => e == Error::Invalid,
        },
        spec_be_val(m@) > 0 ==> r is Ok,
{
    let out = (|| -> Result<Vec<u8>, openssl::error::ErrorStack> {
        let mut ctx = BigNumContext::new()?;
        let (a, m) = (BigNum::from_slice(a)?, BigNum::from_slice(m)?);
        let mut r = BigNum::new()?;
        r.checked_rem(&a, &m, &mut ctx)?;
        Ok(r.to_vec())
    })();
    out.map_err(|_e| Error::Invalid)
}

/// Relies on openssl's modular multiplication: the big-endian value of
/// the result is the product of the values of `a` and `b` reduced
/// modulo the value of `m`, and a nonzero modulus always succeeds.
#[verifier::external_body]
pub fn bn_mod_mul(a: &[u8], b: &[u8], m: &[u8]) -> (r: Result<Vec<u8>, Error>)
    ensures
        match r {
            Ok(v) => spec_be_val(m@) > 0 && spec_be_val(v@) == (spec_be_val(a@) * spec_be_val(b@))
                % spec_be_val(m@),
            Err(e) => e == Error::Invalid,
        },
        spec_be_val(m@) > 0 ==> r is Ok,
{
    let out = (|| -> Result<Vec<u8>, openssl::error::ErrorStack> {
        let mut ctx = BigNumContext::new()?;
        let (a, b, m) = (BigNum::from_slice(a)?, BigNum::from_slice(b)?, BigNum::from_slice(m)?);
        let mut r = BigNum::new()?;
        r.mod_mul(&a, &b, &m, &mut ctx)?;
        Ok(r.to_vec())
    })();
    out.map_err(|_e| Error::Invalid)
}

/// Relies on openssl's range-bounded random number generation: every
/// outcome is a big-endian value below the value of the bound, and a
/// positive bound always succeeds.
#[verifier::external_body]
pub fn bn_rand_below(bound: &[u8]) -> (r: Result<Vec<u8>, Error>)
    ensures
        match r {
            Ok(v) => 0 <= spec_be_val(v@) < spec_be_val(bound@),
            Err(e) => e == Error::Invalid,
        },
        spec_be_val(bound@) > 0 ==> r is Ok,
{
    let out = (|| -> Result<Vec<u8>, openssl::error::ErrorStack> {
        let b = BigNum::from_slice(bound)?;
        let mut r = BigNum::new()?;
        b.rand_range(&mut r)?;
        Ok(r.to_vec())
    })();
    out.map_err(|_e| Error::Invalid)
}

} // verus!
