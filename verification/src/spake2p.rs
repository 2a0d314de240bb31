//! SPAKE2+ engine, verifier side, over P-256 with the fixed Matter M
//! and N points.
//!
//! The password is stretched with PBKDF2 into the `w0‖w1` secret, each
//! half reduced modulo the group order; handling the prover's share
//! draws a random scalar, computes the verifier share and the shared
//! points, folds everything into the transcript, and derives the
//! session secret and the two confirmation tags through SHA-256, HKDF
//! and HMAC.  Every derivation step is specified exactly over the named
//! results of the underlying primitives.

use vstd::prelude::*;

use crate::crypto::{
    bn_mod, bn_mod_mul, bn_rand_below, fill_random, hkdf_sha256_expand, hmac_sha256, p256_add,
    p256_base_mul, p256_mul, p256_neg, sha256, spec_be_val, spec_hkdf_sha256_expand,
    spec_hmac_sha256, spec_p256_add, spec_p256_base_mul, spec_p256_mul, spec_p256_neg,
    spec_pbkdf2_hmac_sha256, spec_sha256,
};
use crate::error::Error;
use crate::packet::{push_le32, push_le64, spec_le32, spec_le64};

verus! {

/// Half-width of the stretched password secret.
pub const CRYPTO_W_SIZE_BYTES: usize = 40;

/// Group element size in uncompressed encoding.
pub const CRYPTO_GROUP_SIZE_BYTES: usize = 32;

/// The fixed Matter M point, uncompressed.
pub open spec fn spec_matter_m() -> Seq<u8> {
    seq![0x04u8, 0x88, 0x6e, 0x2f, 0x97, 0xac, 0xe4, 0x6e, 0x55, 0xba, 0x9d, 0xd7, 0x24, 0x25, 0x79, 0xf2, 0x99, 0x3b, 0x64, 0xe1, 0x6e, 0xf3, 0xdc, 0xab, 0x95, 0xaf, 0xd4, 0x97, 0x33, 0x3d, 0x8f, 0xa1, 0x2f, 0x5f, 0xf3, 0x55, 0x16, 0x3e, 0x43, 0xce, 0x22, 0x4e, 0x0b, 0x0e, 0x65, 0xff, 0x02, 0xac, 0x8e, 0x5c, 0x7b, 0xe0, 0x94, 0x19, 0xc7, 0x85, 0xe0, 0xca, 0x54, 0x7d, 0x55, 0xa1, 0x2e, 0x2d, 0x20]
}

/// The fixed Matter M point, uncompressed.
#[verifier::rlimit(100)]
pub fn matter_m() -> (r: Vec<u8>)
    ensures
        r@ == spec_matter_m(),
{
    let mut v: Vec<u8> = Vec::new();
    v.push(0x04);
    v.push(0x88);
    v.push(0x6e);
    v.push(0x2f);
    v.push(0x97);
    v.push(0xac);
    v.push(0xe4);
    v.push(0x6e);
    v.push(0x55);
    v.push(0xba);
    v.push(0x9d);
    v.push(0xd7);
    v.push(0x24);
    v.push(0x25);
    v.push(0x79);
    v.push(0xf2);
    v.push(0x99);
    v.push(0x3b);
    v.push(0x64);
    v.push(0xe1);
    v.push(0x6e);
    v.push(0xf3);
    v.push(0xdc);
    v.push(0xab);
    v.push(0x95);
    v.push(0xaf);
    v.push(0xd4);
    v.push(0x97);
    v.push(0x33);
    v.push(0x3d);
    v.push(0x8f);
    v.push(0xa1);
    v.push(0x2f);
    v.push(0x5f);
    v.push(0xf3);
    v.push(0x55);
    v.push(0x16);
    v.push(0x3e);
    v.push(0x43);
    v.push(0xce);
    v.push(0x22);
    v.push(0x4e);
    v.push(0x0b);
    v.push(0x0e);
    v.push(0x65);
    v.push(0xff);
    v.push(0x02);
    v.push(0xac);
    v.push(0x8e);
    v.push(0x5c);
    v.push(0x7b);
    v.push(0xe0);
    v.push(0x94);
    v.push(0x19);
    v.push(0xc7);
    v.push(0x85);
    v.push(0xe0);
    v.push(0xca);
    v.push(0x54);
    v.push(0x7d);
    v.push(0x55);
    v.push(0xa1);
    v.push(0x2e);
    v.push(0x2d);
    v.push(0x20);
    proof {
        assert(v@ =~= spec_matter_m());
    }
    v
}

/// The fixed Matter N point, uncompressed.
pub open spec fn spec_matter_n() -> Seq<u8> {
    seq![0x04u8, 0xd8, 0xbb, 0xd6, 0xc6, 0x39, 0xc6, 0x29, 0x37, 0xb0, 0x4d, 0x99, 0x7f, 0x38, 0xc3, 0x77, 0x07, 0x19, 0xc6, 0x29, 0xd7, 0x01, 0x4d, 0x49, 0xa2, 0x4b, 0x4f, 0x98, 0xba, 0xa1, 0x29, 0x2b, 0x49, 0x07, 0xd6, 0x0a, 0xa6, 0xbf, 0xad, 0xe4, 0x50, 0x08, 0xa6, 0x36, 0x33, 0x7f, 0x51, 0x68, 0xc6, 0x4d, 0x9b, 0xd3, 0x60, 0x34, 0x80, 0x8c, 0xd5, 0x64, 0x49, 0x0b, 0x1e, 0x65, 0x6e, 0xdb, 0xe7]
}

/// The fixed Matter N point, uncompressed.
#[verifier::rlimit(100)]
pub fn matter_n() -> (r: Vec<u8>)
    ensures
        r@ == spec_matter_n(),
{
    let mut v: Vec<u8> = Vec::new();
    v.push(0x04);
    v.push(0xd8);
    v.push(0xbb);
    v.push(0xd6);
    v.push(0xc6);
    v.push(0x39);
    v.push(0xc6);
    v.push(0x29);
    v.push(0x37);
    v.push(0xb0);
    v.push(0x4d);
    v.push(0x99);
    v.push(0x7f);
    v.push(0x38);
    v.push(0xc3);
    v.push(0x77);
    v.push(0x07);
    v.push(0x19);
    v.push(0xc6);
    v.push(0x29);
    v.push(0xd7);
    v.push(0x01);
    v.push(0x4d);
    v.push(0x49);
    v.push(0xa2);
    v.push(0x4b);
    v.push(0x4f);
    v.push(0x98);
    v.push(0xba);
    v.push(0xa1);
    v.push(0x29);
    v.push(0x2b);
    v.push(0x49);
    v.push(0x07);
    v.push(0xd6);
    v.push(0x0a);
    v.push(0xa6);
    v.push(0xbf);
    v.push(0xad);
    v.push(0xe4);
    v.push(0x50);
    v.push(0x08);
    v.push(0xa6);
    v.push(0x36);
    v.push(0x33);
    v.push(0x7f);
    v.push(0x51);
    v.push(0x68);
    v.push(0xc6);
    v.push(0x4d);
    v.push(0x9b);
    v.push(0xd3);
    v.push(0x60);
    v.push(0x34);
    v.push(0x80);
    v.push(0x8c);
    v.push(0xd5);
    v.push(0x64);
    v.push(0x49);
    v.push(0x0b);
    v.push(0x1e);
    v.push(0x65);
    v.push(0x6e);
    v.push(0xdb);
    v.push(0xe7);
    proof {
        assert(v@ =~= spec_matter_n());
    }
    v
}

/// The order of the P-256 group, big-endian.
pub open spec fn spec_p256_order() -> Seq<u8> {
    seq![0xffu8, 0xff, 0xff, 0xff, 0x00, 0x00, 0x00, 0x00, 0xff, 0xff, 0xff, 0xff, 0xff, 0xff, 0xff, 0xff, 0xbc, 0xe6, 0xfa, 0xad, 0xa7, 0x17, 0x9e, 0x84, 0xf3, 0xb9, 0xca, 0xc2, 0xfc, 0x63, 0x25, 0x51]
}

/// The order of the P-256 group, big-endian.
#[verifier::rlimit(100)]
pub fn p256_order() -> (r: Vec<u8>)
    ensures
        r@ == spec_p256_order(),
{
    let mut v: Vec<u8> = Vec::new();
    v.push(0xff);
    v.push(0xff);
    v.push(0xff);
    v.push(0xff);
    v.push(0x00);
    v.push(0x00);
    v.push(0x00);
    v.push(0x00);
    v.push(0xff);
    v.push(0xff);
    v.push(0xff);
    v.push(0xff);
    v.push(0xff);
    v.push(0xff);
    v.push(0xff);
    v.push(0xff);
    v.push(0xbc);
    v.push(0xe6);
    v.push(0xfa);
    v.push(0xad);
    v.push(0xa7);
    v.push(0x17);
    v.push(0x9e);
    v.push(0x84);
    v.push(0xf3);
    v.push(0xb9);
    v.push(0xca);
    v.push(0xc2);
    v.push(0xfc);
    v.push(0x63);
    v.push(0x25);
    v.push(0x51);
    proof {
        assert(v@ =~= spec_p256_order());
    }
    v
}

/// The HKDF info text for the confirmation keys.
pub open spec fn spec_confirm_info() -> Seq<u8> {
    seq![0x43u8, 0x6f, 0x6e, 0x66, 0x69, 0x72, 0x6d, 0x61, 0x74, 0x69, 0x6f, 0x6e, 0x4b, 0x65, 0x79, 0x73]
}

/// The HKDF info text for the confirmation keys.
#[verifier::rlimit(100)]
pub fn confirm_info() -> (r: Vec<u8>)
    ensures
        r@ == spec_confirm_info(),
{
    let mut v: Vec<u8> = Vec::new();
    v.push(0x43);
    v.push(0x6f);
    v.push(0x6e);
    v.push(0x66);
    v.push(0x69);
    v.push(0x72);
    v.push(0x6d);
    v.push(0x61);
    v.push(0x74);
    v.push(0x69);
    v.push(0x6f);
    v.push(0x6e);
    v.push(0x4b);
    v.push(0x65);
    v.push(0x79);
    v.push(0x73);
    proof {
        assert(v@ =~= spec_confirm_info());
    }
    v
}

/// The commissioning context prefix every transcript starts with.
pub open spec fn spec_context_prefix() -> Seq<u8> {
    seq![0x43u8, 0x48, 0x49, 0x50, 0x20, 0x50, 0x41, 0x4b, 0x45, 0x20, 0x56, 0x31, 0x20, 0x43, 0x6f, 0x6d, 0x6d, 0x69, 0x73, 0x73, 0x69, 0x6f, 0x6e, 0x69, 0x6e, 0x67]
}

/// The commissioning context prefix every transcript starts with.
#[verifier::rlimit(100)]
pub fn context_prefix() -> (r: Vec<u8>)
    ensures
        r@ == spec_context_prefix(),
{
    let mut v: Vec<u8> = Vec::new();
    v.push(0x43);
    v.push(0x48);
    v.push(0x49);
    v.push(0x50);
    v.push(0x20);
    v.push(0x50);
    v.push(0x41);
    v.push(0x4b);
    v.push(0x45);
    v.push(0x20);
    v.push(0x56);
    v.push(0x31);
    v.push(0x20);
    v.push(0x43);
    v.push(0x6f);
    v.push(0x6d);
    v.push(0x6d);
    v.push(0x69);
    v.push(0x73);
    v.push(0x73);
    v.push(0x69);
    v.push(0x6f);
    v.push(0x6e);
    v.push(0x69);
    v.push(0x6e);
    v.push(0x67);
    proof {
        assert(v@ =~= spec_context_prefix());
    }
    v
}

/// The HKDF info text for the session key schedule.
pub open spec fn spec_session_keys_info() -> Seq<u8> {
    seq![0x53u8, 0x65, 0x73, 0x73, 0x69, 0x6f, 0x6e, 0x4b, 0x65, 0x79, 0x73]
}

/// The HKDF info text for the session key schedule.
#[verifier::rlimit(100)]
pub fn session_keys_info() -> (r: Vec<u8>)
    ensures
        r@ == spec_session_keys_info(),
{
    let mut v: Vec<u8> = Vec::new();
    v.push(0x53);
    v.push(0x65);
    v.push(0x73);
    v.push(0x73);
    v.push(0x69);
    v.push(0x6f);
    v.push(0x6e);
    v.push(0x4b);
    v.push(0x65);
    v.push(0x79);
    v.push(0x73);
    proof {
        assert(v@ =~= spec_session_keys_info());
    }
    v
}

/// The P-256 group order is a positive value.
pub proof fn lemma_p256_order_positive()
    ensures
        spec_be_val(spec_p256_order()) > 0,
{
    let b = spec_p256_order();
    crate::crypto::lemma_be_val_nonneg(b.drop_last());
    assert(spec_be_val(b) == spec_be_val(b.drop_last()) * 256 + b.last());
    assert(b.last() == 0x51);
}

/// A byte string under a little-endian 64-bit length prefix, as the
/// transcript concatenation demands.
pub open spec fn spec_lp(x: Seq<u8>) -> Seq<u8> {
    spec_le64(x.len() as u64) + x
}

/// Appends a length-prefixed byte string to the transcript.
pub fn push_lp(out: &mut Vec<u8>, x: &[u8])
    requires
        x@.len() < 0x1_0000_0000,
    ensures
        final(out)@ == old(out)@ + spec_lp(x@),
{
    push_le64(out, x.len() as u64);
    let mut i: usize = 0;
    let ghost hdr = out@;
    while i < x.len()
        invariant
            i <= x@.len(),
            out@ == hdr + x@.subrange(0, i as int),
        decreases x@.len() - i,
    {
        out.push(x[i]);
        proof {
            assert(out@ =~= hdr + x@.subrange(0, i + 1));
        }
        i = i + 1;
    }
    proof {
        assert(x@.subrange(0, x@.len() as int) =~= x@);
        assert(out@ =~= old(out)@ + spec_lp(x@));
    }
}

/// Role of a SPAKE2+ endpoint.
#[derive(Clone, Copy, Debug, PartialEq, Eq, Structural)]
pub enum Spake2Mode {
    Unknown,
    Prover,
    Verifier,
}

/// SPAKE2+ state parked between handshake rounds.
#[derive(Debug)]
pub struct Spake2P {
    pub mode: Spake2Mode,
    pub context: Vec<u8>,
    pub w0w1: Vec<u8>,
    pub w0: Vec<u8>,
    pub w1: Vec<u8>,
    pub y: Vec<u8>,
    pub pb: Vec<u8>,
    pub ke: Vec<u8>,
    pub ca: Vec<u8>,
    pub cb: Vec<u8>,
}

/// The first and second confirmation keys derived from a transcript
/// hash: the HKDF expansion of the first half of the hash under the
/// confirmation info text.
pub open spec fn spec_kca_kcb(tt: Seq<u8>) -> Seq<u8> {
    spec_hkdf_sha256_expand(spec_sha256(tt).subrange(0, 16), spec_confirm_info(), 32)
}

impl Spake2P {
    /// A fresh engine whose transcript holds the commissioning prefix.
    pub fn new() -> (r: Spake2P)
        ensures
            r.mode == Spake2Mode::Unknown,
            r.context@ == spec_context_prefix(),
            r.w0w1@ == Seq::<u8>::empty(),
    {
        let r = Spake2P {
            mode: Spake2Mode::Unknown,
            context: context_prefix(),
            w0w1: Vec::new(),
            w0: Vec::new(),
            w1: Vec::new(),
            y: Vec::new(),
            pb: Vec::new(),
            ke: Vec::new(),
            ca: Vec::new(),
            cb: Vec::new(),
        };
        proof {
            assert(r.w0w1@ =~= Seq::<u8>::empty());
        }
        r
    }

    /// Folds more bytes into the transcript context.
    pub fn add_to_context(&mut self, buf: &[u8])
        ensures
            final(self).context@ == old(self).context@ + buf@,
            *final(self) == (Spake2P { context: final(self).context, ..*old(self) }),
    {
        let mut i: usize = 0;
        let ghost prev = self.context@;
        while i < buf.len()
            invariant
                i <= buf@.len(),
                self.context@ == prev + buf@.subrange(0, i as int),
                self.mode == old(self).mode,
                self.w0w1 == old(self).w0w1,
                self.w0 == old(self).w0,
                self.w1 == old(self).w1,
                self.y == old(self).y,
                self.pb == old(self).pb,
                self.ke == old(self).ke,
                self.ca == old(self).ca,
                self.cb == old(self).cb,
            decreases buf@.len() - i,
        {
            self.context.push(buf[i]);
            proof {
                assert(self.context@ =~= prev + buf@.subrange(0, i + 1));
            }
            i = i + 1;
        }
        proof {
            assert(buf@.subrange(0, buf@.len() as int) =~= buf@);
        }
    }

    /// Stretches the password into `w0‖w1` with PBKDF2 and reduces each
    /// half modulo the group order.
    pub fn start_verifier(&mut self, pw: u32, iter: u32, salt: &[u8]) -> (r: Result<(), Error>)
        ensures
            match r {
                Ok(()) => {
                    &&& final(self).mode == Spake2Mode::Verifier
                    &&& final(self).w0w1@ == spec_pbkdf2_hmac_sha256(
                        spec_le32(pw),
                        salt@,
                        iter,
                        2 * CRYPTO_W_SIZE_BYTES as int,
                    )
                    &&& spec_be_val(final(self).w0@) == spec_be_val(
                        final(self).w0w1@.subrange(0, CRYPTO_W_SIZE_BYTES as int),
                    ) % spec_be_val(spec_p256_order())
                    &&& spec_be_val(final(self).w1@) == spec_be_val(
                        final(self).w0w1@.subrange(
                            CRYPTO_W_SIZE_BYTES as int,
                            2 * CRYPTO_W_SIZE_BYTES as int,
                        ),
                    ) % spec_be_val(spec_p256_order())
                    &&& final(self).context == old(self).context
                },
                Err(e) => false,
            },
            r is Ok,
    {
        proof {
            lemma_p256_order_positive();
        }
        let mut pw_bytes: Vec<u8> = Vec::new();
        push_le32(&mut pw_bytes, pw);
        let w0w1 = crate::crypto::pbkdf2_hmac_sha256(
            pw_bytes.as_slice(),
            salt,
            iter,
            2 * CRYPTO_W_SIZE_BYTES,
        );
        let order = p256_order();
        let w0s = vstd::slice::slice_subrange(w0w1.as_slice(), 0, CRYPTO_W_SIZE_BYTES);
        let w1s = vstd::slice::slice_subrange(
            w0w1.as_slice(),
            CRYPTO_W_SIZE_BYTES,
            2 * CRYPTO_W_SIZE_BYTES,
        );
        let w0 = match bn_mod(w0s, order.as_slice()) {
            Ok(v) => v,
            Err(e) => {
                return Err(e);
            },
        };
        let w1 = match bn_mod(w1s, order.as_slice()) {
            Ok(v) => v,
            Err(e) => {
                return Err(e);
            },
        };
        self.w0w1 = w0w1;
        self.w0 = w0;
        self.w1 = w1;
        self.mode = Spake2Mode::Verifier;
        Ok(())
    }

    /// Derives the shared secret and both confirmation tags from a
    /// transcript: `Ka‖Ke` is the transcript hash split in half, the
    /// confirmation keys expand from `Ka`, and each side's tag is the
    /// HMAC of the other side's share.
    #[allow(non_snake_case)]
    pub fn get_Ke_and_cAcB(tt: &[u8], pa: &[u8], pb: &[u8]) -> (r: (Vec<u8>, Vec<u8>, Vec<u8>))
        ensures
            r.0@ == spec_sha256(tt@).subrange(16, 32),
            r.1@ == spec_hmac_sha256(spec_kca_kcb(tt@).subrange(0, 16), pb@),
            r.2@ == spec_hmac_sha256(spec_kca_kcb(tt@).subrange(16, 32), pa@),
    {
        let ka_ke = sha256(tt);
        let ka = vstd::slice::slice_subrange(ka_ke.as_slice(), 0, 16);
        let ke = vstd::slice::slice_subrange(ka_ke.as_slice(), 16, 32);
        let info = confirm_info();
        let kab = hkdf_sha256_expand(ka, info.as_slice(), 32);
        let kca = vstd::slice::slice_subrange(kab.as_slice(), 0, 16);
        let kcb = vstd::slice::slice_subrange(kab.as_slice(), 16, 32);
        let ca = hmac_sha256(kca, pb);
        let cb = hmac_sha256(kcb, pa);
        (vstd::slice::slice_to_vec(ke), ca, cb)
    }

    /// Handles the prover share: draws the random scalar, computes our
    /// share `Y = y·P + w0·N`, the shared points `Z = y·(X − w0·M)` and
    /// `V = y·L` with `L = w1·P`, folds the transcript and derives the
    /// secret and tags.  Returns our share and our confirmation tag.
    #[allow(non_snake_case)]
    pub fn handle_pA(&mut self, pa: &[u8]) -> (r: Result<(Vec<u8>, Vec<u8>), Error>)
        requires
            old(self).context@.len() < 0x1000_0000,
            pa@.len() < 0x1_0000_0000,
        ensures
            match r {
                Ok((pb_out, cb_out)) => {
                    &&& final(self).pb@ == spec_p256_add(
                        spec_p256_base_mul(spec_be_val(final(self).y@)),
                        spec_p256_mul(spec_matter_n(), spec_be_val(final(self).w0@)),
                    )
                    &&& pb_out@ == final(self).pb@
                    &&& 0 <= spec_be_val(final(self).y@) < spec_be_val(spec_p256_order())
                    &&& final(self).ke@ == spec_sha256(spec_tt(*final(self), pa@)).subrange(16, 32)
                    &&& cb_out@ == spec_hmac_sha256(
                        spec_kca_kcb(spec_tt(*final(self), pa@)).subrange(16, 32),
                        pa@,
                    )
                    &&& final(self).cb@ == cb_out@
                    &&& final(self).ca@ == spec_hmac_sha256(
                        spec_kca_kcb(spec_tt(*final(self), pa@)).subrange(0, 16),
                        final(self).pb@,
                    )
                    &&& final(self).w0 == old(self).w0
                    &&& final(self).w1 == old(self).w1
                    &&& final(self).context == old(self).context
                    &&& final(self).mode == old(self).mode
                },
                Err(e) => e == Error::Invalid && *final(self) == *old(self),
            },
    {
        let order = p256_order();
        let y = match bn_rand_below(order.as_slice()) {
            Ok(v) => v,
            Err(e) => {
                return Err(e);
            },
        };
        let m = matter_m();
        let n = matter_n();
        // Y = y*P + w0*N
        let y_p = match p256_base_mul(y.as_slice()) {
            Ok(v) => v,
            Err(e) => {
                return Err(e);
            },
        };
        let w0_n = match p256_mul(n.as_slice(), self.w0.as_slice()) {
            Ok(v) => v,
            Err(e) => {
                return Err(e);
            },
        };
        let big_y = match p256_add(y_p.as_slice(), w0_n.as_slice()) {
            Ok(v) => v,
            Err(e) => {
                return Err(e);
            },
        };
        // L = w1*P
        let big_l = match p256_base_mul(self.w1.as_slice()) {
            Ok(v) => v,
            Err(e) => {
                return Err(e);
            },
        };
        // Z = y*X + (y*w0 mod n)*(-M); V = y*L
        let tmp = match bn_mod_mul(y.as_slice(), self.w0.as_slice(), order.as_slice()) {
            Ok(v) => v,
            Err(e) => {
                return Err(e);
            },
        };
        let m_inv = match p256_neg(m.as_slice()) {
            Ok(v) => v,
            Err(e) => {
                return Err(e);
            },
        };
        let y_x = match p256_mul(pa, y.as_slice()) {
            Ok(v) => v,
            Err(e) => {
                return Err(e);
            },
        };
        let tmp_minv = match p256_mul(m_inv.as_slice(), tmp.as_slice()) {
            Ok(v) => v,
            Err(e) => {
                return Err(e);
            },
        };
        let big_z = match p256_add(y_x.as_slice(), tmp_minv.as_slice()) {
            Ok(v) => v,
            Err(e) => {
                return Err(e);
            },
        };
        let big_v = match p256_mul(big_l.as_slice(), y.as_slice()) {
            Ok(v) => v,
            Err(e) => {
                return Err(e);
            },
        };
        if big_y.len() >= 0x1000_0000 || big_z.len() >= 0x1000_0000 || big_v.len() >= 0x1000_0000
            || self.w0.len() >= 0x1000_0000 {
            return Err(Error::Invalid);
        }
        self.y = y;
        self.pb = big_y;
        // Transcript TT
        let mut tt: Vec<u8> = Vec::new();
        push_lp(&mut tt, self.context.as_slice());
        let empty: Vec<u8> = Vec::new();
        push_lp(&mut tt, empty.as_slice());
        push_lp(&mut tt, empty.as_slice());
        push_lp(&mut tt, m.as_slice());
        push_lp(&mut tt, n.as_slice());
        push_lp(&mut tt, pa);
        push_lp(&mut tt, self.pb.as_slice());
        push_lp(&mut tt, big_z.as_slice());
        push_lp(&mut tt, big_v.as_slice());
        push_lp(&mut tt, self.w0.as_slice());
        proof {
            assert(empty@ =~= Seq::<u8>::empty());
            assert(tt@ =~= spec_tt(*self, pa@));
        }
        let (ke, ca, cb) = Spake2P::get_Ke_and_cAcB(tt.as_slice(), pa, self.pb.as_slice());
        self.ke = ke;
        self.ca = ca;
        self.cb = cb;
        let pb_out = vstd::slice::slice_to_vec(self.pb.as_slice());
        let cb_out = vstd::slice::slice_to_vec(self.cb.as_slice());
        Ok((pb_out, cb_out))
    }

    /// Splits the session key schedule out of the shared secret: the
    /// HKDF expansion of `Ke` under the session-keys info text, in three
    /// 16-byte slots for initiator key, responder key and attestation
    /// challenge.
    pub fn get_session_keys(&self) -> (r: (Vec<u8>, Vec<u8>, Vec<u8>))
        ensures
            r.0@ == spec_hkdf_sha256_expand(self.ke@, spec_session_keys_info(), 48).subrange(0, 16),
            r.1@ == spec_hkdf_sha256_expand(self.ke@, spec_session_keys_info(), 48).subrange(
                16,
                32,
            ),
            r.2@ == spec_hkdf_sha256_expand(self.ke@, spec_session_keys_info(), 48).subrange(
                32,
                48,
            ),
    {
        let info = session_keys_info();
        let okm = hkdf_sha256_expand(self.ke.as_slice(), info.as_slice(), 48);
        let k1 = vstd::slice::slice_subrange(okm.as_slice(), 0, 16);
        let k2 = vstd::slice::slice_subrange(okm.as_slice(), 16, 32);
        let k3 = vstd::slice::slice_subrange(okm.as_slice(), 32, 48);
        (vstd::slice::slice_to_vec(k1), vstd::slice::slice_to_vec(k2), vstd::slice::slice_to_vec(k3))
    }
}

/// The transcript a verifier builds for a prover share: the context,
/// empty prover and verifier identities, the fixed points, both shares,
/// the shared points and `w0` — every element, the context included,
/// under a little-endian 64-bit length prefix.
pub open spec fn spec_tt(s: Spake2P, pa: Seq<u8>) -> Seq<u8> {
    spec_lp(s.context@) + spec_lp(Seq::empty()) + spec_lp(Seq::empty()) + spec_lp(spec_matter_m())
        + spec_lp(spec_matter_n()) + spec_lp(pa) + spec_lp(s.pb@) + spec_lp(spec_z_of(s, pa))
        + spec_lp(spec_v_of(s)) + spec_lp(s.w0@)
}

/// The shared point `Z` the verifier computes for a prover share:
/// `y·X + (y·w0 mod n)·(−M)`.
pub open spec fn spec_z_of(s: Spake2P, pa: Seq<u8>) -> Seq<u8> {
    spec_p256_add(
        spec_p256_mul(pa, spec_be_val(s.y@)),
        spec_p256_mul(
            spec_p256_neg(spec_matter_m()),
            (spec_be_val(s.y@) * spec_be_val(s.w0@)) % spec_be_val(spec_p256_order()),
        ),
    )
}

/// The shared point `V = y·L` with `L = w1·P`.
pub open spec fn spec_v_of(s: Spake2P) -> Seq<u8> {
    spec_p256_mul(spec_p256_base_mul(spec_be_val(s.w1@)), spec_be_val(s.y@))
}

} // verus!
