//! Matter certificate subsystem: decoding the compact-TLV encoding of an
//! X.509 certificate into a byte-exact ASN.1/DER reconstruction of its
//! to-be-signed body, accessor queries against the TLV buffer, and the
//! chain walker that verifies ECDSA-P256 signatures up to a self-signed
//! root.
//!
//! Every decoding step is specified exactly: a spec-level mirror of the
//! fixed TLV walk maps the certificate buffer to the writer-op chain it
//! produces, and each exec function is proved to agree with it.

use vstd::prelude::*;

use crate::asn1_writer::{
    spec_bitstr_content, spec_len_encoding, spec_pop, spec_push, spec_write, utctime_text,
    ASN1Writer, Asn1View,
};
use crate::crypto::{ecdsa_p256_verify, sha256, spec_ecdsa_p256_verifies, spec_sha256};
use crate::error::Error;
use crate::tlv::{
    elem_bool, elem_bytes, elem_u16, elem_u32, elem_u64, elem_u8, find_tag, get_root_node_struct,
    read_elem, spec_elem_wf, spec_find_tag, spec_le_val, spec_parse_elem, ElemType, SpecElem,
    TLVElem, TagType,
};

verus! {

/// Context tags of the top-level certificate TLV struct.
#[derive(Clone, Copy, Debug, PartialEq, Eq, Structural)]
pub enum CertTags {
    SerialNum,
    SignAlgo,
    Issuer,
    NotBefore,
    NotAfter,
    Subject,
    PubKeyAlgo,
    EcCurveId,
    EcPubKey,
    Extensions,
    Signature,
}

impl CertTags {
    /// Wire value of the context tag.
    pub open spec fn spec_num(self) -> u8 {
        match self {
            CertTags::SerialNum => 1,
            CertTags::SignAlgo => 2,
            CertTags::Issuer => 3,
            CertTags::NotBefore => 4,
            CertTags::NotAfter => 5,
            CertTags::Subject => 6,
            CertTags::PubKeyAlgo => 7,
            CertTags::EcCurveId => 8,
            CertTags::EcPubKey => 9,
            CertTags::Extensions => 10,
            CertTags::Signature => 11,
        }
    }

    /// Wire value of the context tag.
    pub fn num(self) -> (r: u8)
        ensures
            r == self.spec_num(),
    {
        match self {
            CertTags::SerialNum => 1,
            CertTags::SignAlgo => 2,
            CertTags::Issuer => 3,
            CertTags::NotBefore => 4,
            CertTags::NotAfter => 5,
            CertTags::Subject => 6,
            CertTags::PubKeyAlgo => 7,
            CertTags::EcCurveId => 8,
            CertTags::EcPubKey => 9,
            CertTags::Extensions => 10,
            CertTags::Signature => 11,
        }
    }
}

/// The one elliptic curve the certificate profile admits.
#[derive(Clone, Copy, Debug, PartialEq, Eq, Structural)]
pub enum EcCurveIdValue {
    Prime256V1,
}

/// Curve id for a wire value, if it names a supported curve.
pub fn get_ec_curve_id(algo: u8) -> (r: Option<EcCurveIdValue>)
    ensures
        r == if algo == 1 {
            Some(EcCurveIdValue::Prime256V1)
        } else {
            None::<EcCurveIdValue>
        },
{
    if algo == 1 {
        Some(EcCurveIdValue::Prime256V1)
    } else {
        None
    }
}

/// The one public-key algorithm the certificate profile admits.
#[derive(Clone, Copy, Debug, PartialEq, Eq, Structural)]
pub enum PubKeyAlgoValue {
    EcPubKey,
}

/// Public-key algorithm for a wire value, if supported.
pub fn get_pubkey_algo(algo: u8) -> (r: Option<PubKeyAlgoValue>)
    ensures
        r == if algo == 1 {
            Some(PubKeyAlgoValue::EcPubKey)
        } else {
            None::<PubKeyAlgoValue>
        },
{
    if algo == 1 {
        Some(PubKeyAlgoValue::EcPubKey)
    } else {
        None
    }
}

/// The one signature algorithm the certificate profile admits.
#[derive(Clone, Copy, Debug, PartialEq, Eq, Structural)]
pub enum SignAlgoValue {
    ECDSAWithSHA256,
}

/// Signature algorithm for a wire value, if supported.
pub fn get_sign_algo(algo: u8) -> (r: Option<SignAlgoValue>)
    ensures
        r == if algo == 1 {
            Some(SignAlgoValue::ECDSAWithSHA256)
        } else {
            None::<SignAlgoValue>
        },
{
    if algo == 1 {
        Some(SignAlgoValue::ECDSAWithSHA256)
    } else {
        None
    }
}

// --- Result-threading forms of the writer ops -------------------------

/// `spec_push` lifted over an error-carrying chain.
pub open spec fn w_push_r(r: Result<Asn1View, Error>, tag: u8) -> Result<Asn1View, Error> {
    match r {
        Ok(v) => spec_push(v, tag),
        Err(e) => Err(e),
    }
}

/// `spec_write` lifted over an error-carrying chain.
pub open spec fn w_write_r(r: Result<Asn1View, Error>, tag: u8, data: Seq<u8>) -> Result<
    Asn1View,
    Error,
> {
    match r {
        Ok(v) => spec_write(v, tag, data),
        Err(e) => Err(e),
    }
}

/// `spec_pop` lifted over an error-carrying chain.
pub open spec fn w_pop_r(r: Result<Asn1View, Error>) -> Result<Asn1View, Error> {
    match r {
        Ok(v) => spec_pop(v),
        Err(e) => Err(e),
    }
}

// --- Object identifiers ----------------------------------------------

/// The object identifiers the certificate profile emits.
#[derive(Clone, Copy, Debug, PartialEq, Eq, Structural)]
pub enum OidKind {
    EcPubKey,
    Prime256V1,
    EcdsaWithSha256,
    MatterNodeId,
    MatterFwSignId,
    MatterIcaId,
    MatterRootCaId,
    MatterFabricId,
    MatterNocCatId,
    BasicConstraints,
    KeyUsage,
    ExtKeyUsage,
    SubjKeyIdentifier,
    AuthKeyId,
    ServerAuth,
    ClientAuth,
    CodeSign,
    EmailProt,
    Timestamp,
    OcspSign,
}

/// Encoded content bytes of each object identifier.
pub open spec fn spec_oid(k: OidKind) -> Seq<u8> {
    match k {
        OidKind::EcPubKey => seq![0x2Au8, 0x86, 0x48, 0xCE, 0x3D, 0x02, 0x01],
        OidKind::Prime256V1 => seq![0x2Au8, 0x86, 0x48, 0xCE, 0x3D, 0x03, 0x01, 0x07],
        OidKind::EcdsaWithSha256 => seq![0x2Au8, 0x86, 0x48, 0xCE, 0x3D, 0x04, 0x03, 0x02],
        OidKind::MatterNodeId => seq![0x2Bu8, 0x06, 0x01, 0x04, 0x01, 0x82, 0xA2, 0x7C, 0x01, 0x01],
        OidKind::MatterFwSignId => seq![
            0x2Bu8,
            0x06,
            0x01,
            0x04,
            0x01,
            0x82,
            0xA2,
            0x7C,
            0x01,
            0x02,
        ],
        OidKind::MatterIcaId => seq![0x2Bu8, 0x06, 0x01, 0x04, 0x01, 0x82, 0xA2, 0x7C, 0x01, 0x03],
        OidKind::MatterRootCaId => seq![
            0x2Bu8,
            0x06,
            0x01,
            0x04,
            0x01,
            0x82,
            0xA2,
            0x7C,
            0x01,
            0x04,
        ],
        OidKind::MatterFabricId => seq![
            0x2Bu8,
            0x06,
            0x01,
            0x04,
            0x01,
            0x82,
            0xA2,
            0x7C,
            0x01,
            0x05,
        ],
        OidKind::MatterNocCatId => seq![
            0x2Bu8,
            0x06,
            0x01,
            0x04,
            0x01,
            0x82,
            0xA2,
            0x7C,
            0x01,
            0x06,
        ],
        OidKind::BasicConstraints => seq![0x55u8, 0x1D, 0x13],
        OidKind::KeyUsage => seq![0x55u8, 0x1D, 0x0F],
        OidKind::ExtKeyUsage => seq![0x55u8, 0x1D, 0x25],
        OidKind::SubjKeyIdentifier => seq![0x55u8, 0x1D, 0x0E],
        OidKind::AuthKeyId => seq![0x55u8, 0x1D, 0x23],
        OidKind::ServerAuth => seq![0x2Bu8, 0x06, 0x01, 0x05, 0x05, 0x07, 0x03, 0x01],
        OidKind::ClientAuth => seq![0x2Bu8, 0x06, 0x01, 0x05, 0x05, 0x07, 0x03, 0x02],
        OidKind::CodeSign => seq![0x2Bu8, 0x06, 0x01, 0x05, 0x05, 0x07, 0x03, 0x03],
        OidKind::EmailProt => seq![0x2Bu8, 0x06, 0x01, 0x05, 0x05, 0x07, 0x03, 0x04],
        OidKind::Timestamp => seq![0x2Bu8, 0x06, 0x01, 0x05, 0x05, 0x07, 0x03, 0x08],
        OidKind::OcspSign => seq![0x2Bu8, 0x06, 0x01, 0x05, 0x05, 0x07, 0x03, 0x09],
    }
}

/// Encoded content bytes of an object identifier.
fn oid_bytes(k: OidKind) -> (r: Vec<u8>)
    ensures
        r@ == spec_oid(k),
{
    let mut v: Vec<u8> = Vec::new();
    match k {
        OidKind::EcPubKey => {
            v.push(0x2A);
            v.push(0x86);
            v.push(0x48);
            v.push(0xCE);
            v.push(0x3D);
            v.push(0x02);
            v.push(0x01);
        },
        OidKind::Prime256V1 => {
            v.push(0x2A);
            v.push(0x86);
            v.push(0x48);
            v.push(0xCE);
            v.push(0x3D);
            v.push(0x03);
            v.push(0x01);
            v.push(0x07);
        },
        OidKind::EcdsaWithSha256 => {
            v.push(0x2A);
            v.push(0x86);
            v.push(0x48);
            v.push(0xCE);
            v.push(0x3D);
            v.push(0x04);
            v.push(0x03);
            v.push(0x02);
        },
        OidKind::MatterNodeId | OidKind::MatterFwSignId | OidKind::MatterIcaId
            | OidKind::MatterRootCaId | OidKind::MatterFabricId | OidKind::MatterNocCatId => {
            v.push(0x2B);
            v.push(0x06);
            v.push(0x01);
            v.push(0x04);
            v.push(0x01);
            v.push(0x82);
            v.push(0xA2);
            v.push(0x7C);
            v.push(0x01);
            let last: u8 = match k {
                OidKind::MatterNodeId => 0x01,
                OidKind::MatterFwSignId => 0x02,
                OidKind::MatterIcaId => 0x03,
                OidKind::MatterRootCaId => 0x04,
                OidKind::MatterFabricId => 0x05,
                _ => 0x06,
            };
            v.push(last);
        },
        OidKind::BasicConstraints => {
            v.push(0x55);
            v.push(0x1D);
            v.push(0x13);
        },
        OidKind::KeyUsage => {
            v.push(0x55);
            v.push(0x1D);
            v.push(0x0F);
        },
        OidKind::ExtKeyUsage => {
            v.push(0x55);
            v.push(0x1D);
            v.push(0x25);
        },
        OidKind::SubjKeyIdentifier => {
            v.push(0x55);
            v.push(0x1D);
            v.push(0x0E);
        },
        OidKind::AuthKeyId => {
            v.push(0x55);
            v.push(0x1D);
            v.push(0x23);
        },
        OidKind::ServerAuth | OidKind::ClientAuth | OidKind::CodeSign | OidKind::EmailProt
            | OidKind::Timestamp | OidKind::OcspSign => {
            v.push(0x2B);
            v.push(0x06);
            v.push(0x01);
            v.push(0x05);
            v.push(0x05);
            v.push(0x07);
            v.push(0x03);
            let last: u8 = match k {
                OidKind::ServerAuth => 0x01,
                OidKind::ClientAuth => 0x02,
                OidKind::CodeSign => 0x03,
                OidKind::EmailProt => 0x04,
                OidKind::Timestamp => 0x08,
                _ => 0x09,
            };
            v.push(last);
        },
    }
    proof {
        assert(v@ =~= spec_oid(k));
    }
    v
}

// --- Hex rendering of Matter identifiers ------------------------------

/// ASCII code of one upper-case hex digit.
pub open spec fn spec_hex_digit(n: int) -> u8 {
    if n < 10 {
        (0x30 + n) as u8
    } else {
        (0x37 + n) as u8
    }
}

/// Fixed-width upper-case hex rendering, most significant digit first.
pub open spec fn spec_hex(v: int, digits: nat) -> Seq<u8>
    decreases digits,
{
    if digits == 0 {
        Seq::empty()
    } else {
        spec_hex(v / 16, (digits - 1) as nat).push(spec_hex_digit(v % 16))
    }
}

/// Fixed-width upper-case hex rendering of a 64-bit identifier.
fn hex_u64(v: u64, digits: usize) -> (r: Vec<u8>)
    requires
        digits <= 16,
    ensures
        r@ == spec_hex(v as int, digits as nat),
{
    let mut out: Vec<u8> = Vec::new();
    let mut i: usize = 0;
    while i < digits
        invariant
            i <= digits,
            out@.len() == i,
        decreases digits - i,
    {
        out.push(0);
        i = i + 1;
    }
    let mut cur: u64 = v;
    let mut k: usize = digits;
    while k > 0
        invariant
            k <= digits,
            out@.len() == digits,
            spec_hex(v as int, digits as nat) == spec_hex(cur as int, k as nat) + out@.subrange(
                k as int,
                digits as int,
            ),
        decreases k,
    {
        let ghost prev_out = out@;
        let ghost prev_cur = cur as int;
        let d = (cur % 16) as u8;
        let digit: u8 = if d < 10 {
            0x30 + d
        } else {
            0x37 + d
        };
        out[k - 1] = digit;
        cur = cur / 16;
        k = k - 1;
        proof {
            assert(spec_hex(prev_cur, (k + 1) as nat) == spec_hex(cur as int, k as nat).push(
                spec_hex_digit(prev_cur % 16),
            ));
            assert(digit == spec_hex_digit(prev_cur % 16));
            assert(spec_hex(cur as int, k as nat).push(spec_hex_digit(prev_cur % 16))
                + prev_out.subrange(k + 1, digits as int) =~= spec_hex(cur as int, k as nat)
                + out@.subrange(k as int, digits as int));
        }
    }
    proof {
        assert(spec_hex(v as int, digits as nat) =~= out@.subrange(0, digits as int));
        assert(out@.subrange(0, digits as int) =~= out@);
    }
    out
}

// --- Key-usage bit reversal -------------------------------------------

/// Bit-reversal of one nibble.
pub open spec fn spec_rev_nib(x: u8) -> u8 {
    if x == 0 {
        0x0
    } else if x == 1 {
        0x8
    } else if x == 2 {
        0x4
    } else if x == 3 {
        0xc
    } else if x == 4 {
        0x2
    } else if x == 5 {
        0xa
    } else if x == 6 {
        0x6
    } else if x == 7 {
        0xe
    } else if x == 8 {
        0x1
    } else if x == 9 {
        0x9
    } else if x == 10 {
        0x5
    } else if x == 11 {
        0xd
    } else if x == 12 {
        0x3
    } else if x == 13 {
        0xb
    } else if x == 14 {
        0x7
    } else {
        0xf
    }
}

/// Bit-reversal of one byte.
pub open spec fn spec_rev8(x: u8) -> u8 {
    (spec_rev_nib((x & 0x0f) as u8) * 16 + spec_rev_nib((x / 16) as u8)) as u8
}

/// The two key-usage bit-string bytes for a 16-bit flag word: each byte
/// bit-reversed, least significant byte first.
pub open spec fn spec_key_usage_bytes(ku: int) -> Seq<u8> {
    seq![spec_rev8((ku % 256) as u8), spec_rev8((ku / 256 % 256) as u8)]
}

/// Bit-reversal of one nibble.
fn rev_nib(x: u8) -> (r: u8)
    requires
        x < 16,
    ensures
        r == spec_rev_nib(x),
        r < 16,
{
    if x == 0 {
        0x0
    } else if x == 1 {
        0x8
    } else if x == 2 {
        0x4
    } else if x == 3 {
        0xc
    } else if x == 4 {
        0x2
    } else if x == 5 {
        0xa
    } else if x == 6 {
        0x6
    } else if x == 7 {
        0xe
    } else if x == 8 {
        0x1
    } else if x == 9 {
        0x9
    } else if x == 10 {
        0x5
    } else if x == 11 {
        0xd
    } else if x == 12 {
        0x3
    } else if x == 13 {
        0xb
    } else if x == 14 {
        0x7
    } else {
        0xf
    }
}

/// Bit-reversal of one byte.
fn reverse_byte(x: u8) -> (r: u8)
    ensures
        r == spec_rev8(x),
{
    proof {
        assert(x & 0x0f < 16) by (bit_vector);
    }
    let lo = rev_nib(x & 0x0f);
    let hi = rev_nib(x / 16);
    lo * 16 + hi
}

/// The two key-usage bit-string bytes of a 16-bit flag word.
fn int_to_bitstring(a: u16) -> (r: Vec<u8>)
    ensures
        r@ == spec_key_usage_bytes(a as int),
{
    let mut out: Vec<u8> = Vec::new();
    out.push(reverse_byte((a % 256) as u8));
    out.push(reverse_byte((a / 256 % 256) as u8));
    proof {
        assert(out@ =~= spec_key_usage_bytes(a as int));
    }
    out
}

// --- Spec-level mirror of the certificate walk ------------------------

/// Value bytes of a primitive element.
pub open spec fn spec_val_bytes(b: Seq<u8>, e: SpecElem) -> Seq<u8> {
    b.subrange(e.vstart, e.vstart + e.vlen)
}

/// The element a sequential walk expects next: present, not an
/// end-of-container, and carrying the given context tag.
pub open spec fn spec_next_tag(b: Seq<u8>, pos: int, tag: u8) -> Result<SpecElem, Error> {
    match spec_parse_elem(b, pos) {
        None => Err(Error::Invalid),
        Some(e) => {
            if e.etype == ElemType::EndCnt {
                Err(Error::Invalid)
            } else if e.tag != TagType::Context(tag) {
                Err(Error::TLVTypeMismatch)
            } else {
                Ok(e)
            }
        },
    }
}

/// Common opening of an X.509 extension: SEQUENCE, OID, optional
/// critical flag, and a compound OCTET STRING for the value.
pub open spec fn spec_ext_start(r: Result<Asn1View, Error>, oid: Seq<u8>, critical: bool) -> Result<
    Asn1View,
    Error,
> {
    let r1 = w_write_r(w_push_r(r, 0x30), 0x06, oid);
    let r2 = if critical {
        w_write_r(r1, 0x01, seq![0xFFu8])
    } else {
        r1
    };
    w_push_r(r2, 0x04)
}

/// Common closing of an X.509 extension.
pub open spec fn spec_ext_end(r: Result<Asn1View, Error>) -> Result<Asn1View, Error> {
    w_pop_r(w_pop_r(r))
}

/// Children of the BasicConstraints TLV struct: a true CA flag becomes
/// a DER BOOLEAN, everything else is tolerated and skipped.
pub open spec fn spec_bc_items(b: Seq<u8>, pos: int, r: Result<Asn1View, Error>) -> Result<
    Asn1View,
    Error,
>
    decreases b.len() - pos,
{
    if r is Err {
        r
    } else {
        match spec_parse_elem(b, pos) {
            None => Err(Error::InvalidData),
            Some(e) => {
                if e.etype == ElemType::EndCnt {
                    r
                } else {
                    let r2 = if e.tag == TagType::Context(1) {
                        if e.etype == ElemType::BoolTrue {
                            w_write_r(r, 0x01, seq![0xFFu8])
                        } else if e.etype == ElemType::BoolFalse {
                            r
                        } else {
                            Err(Error::TLVTypeMismatch)
                        }
                    } else {
                        r
                    };
                    if e.end <= pos || e.end > b.len() {
                        Err(Error::InvalidData)
                    } else {
                        spec_bc_items(b, e.end, r2)
                    }
                }
            },
        }
    }
}

/// The BasicConstraints extension body: a SEQUENCE around the decoded
/// struct members.
pub open spec fn spec_dec_bc(b: Seq<u8>, t: SpecElem, r: Result<Asn1View, Error>) -> Result<
    Asn1View,
    Error,
> {
    let r1 = w_push_r(r, 0x30);
    if r1 is Err {
        r1
    } else if t.etype != ElemType::Struct {
        Err(Error::TLVTypeMismatch)
    } else {
        w_pop_r(spec_bc_items(b, t.vstart, r1))
    }
}

/// The KeyUsage extension body: the 16-bit flag word as a right-trimmed
/// DER BIT STRING, bits reversed bytewise.
pub open spec fn spec_dec_ku(b: Seq<u8>, t: SpecElem, r: Result<Asn1View, Error>) -> Result<
    Asn1View,
    Error,
> {
    if r is Err {
        r
    } else if t.etype != ElemType::UInt8 && t.etype != ElemType::UInt16 {
        Err(Error::TLVTypeMismatch)
    } else {
        w_write_r(
            r,
            0x03,
            spec_bitstr_content(true, spec_key_usage_bytes(spec_le_val(b, t.vstart, t.vlen))),
        )
    }
}

/// Key-purpose OID for an ExtendedKeyUsage wire value from one to six.
pub open spec fn spec_eku_oid_of(v: int) -> OidKind {
    if v == 1 {
        OidKind::ServerAuth
    } else if v == 2 {
        OidKind::ClientAuth
    } else if v == 3 {
        OidKind::CodeSign
    } else if v == 4 {
        OidKind::EmailProt
    } else if v == 5 {
        OidKind::Timestamp
    } else {
        OidKind::OcspSign
    }
}

/// Children of the ExtendedKeyUsage TLV array: each one-byte purpose
/// code becomes its OID.
pub open spec fn spec_eku_items(b: Seq<u8>, pos: int, r: Result<Asn1View, Error>) -> Result<
    Asn1View,
    Error,
>
    decreases b.len() - pos,
{
    if r is Err {
        r
    } else {
        match spec_parse_elem(b, pos) {
            None => Err(Error::InvalidData),
            Some(e) => {
                if e.etype == ElemType::EndCnt {
                    r
                } else if e.etype != ElemType::UInt8 {
                    Err(Error::TLVTypeMismatch)
                } else {
                    let v = spec_le_val(b, e.vstart, e.vlen);
                    if 1 <= v <= 6 {
                        let r2 = w_write_r(r, 0x06, spec_oid(spec_eku_oid_of(v)));
                        if e.end <= pos || e.end > b.len() {
                            Err(Error::InvalidData)
                        } else {
                            spec_eku_items(b, e.end, r2)
                        }
                    } else {
                        Err(Error::Invalid)
                    }
                }
            },
        }
    }
}

/// The ExtendedKeyUsage extension body: a SEQUENCE of purpose OIDs.
pub open spec fn spec_dec_eku(b: Seq<u8>, t: SpecElem, r: Result<Asn1View, Error>) -> Result<
    Asn1View,
    Error,
> {
    if r is Err {
        r
    } else if t.etype != ElemType::Array {
        Err(Error::TLVTypeMismatch)
    } else {
        w_pop_r(spec_eku_items(b, t.vstart, w_push_r(r, 0x30)))
    }
}

/// Matter DN OID for a distinguished-name context tag.
pub open spec fn spec_dn_oid_of(tn: u8) -> OidKind {
    if tn == 17 {
        OidKind::MatterNodeId
    } else if tn == 18 {
        OidKind::MatterFwSignId
    } else if tn == 19 {
        OidKind::MatterIcaId
    } else if tn == 20 {
        OidKind::MatterRootCaId
    } else if tn == 21 {
        OidKind::MatterFabricId
    } else {
        OidKind::MatterNocCatId
    }
}

/// Hex text of a distinguished-name value: sixteen digits for 64-bit
/// identifiers, eight for the 32-bit CASE authenticated tag.
pub open spec fn spec_dn_value(b: Seq<u8>, e: SpecElem, tn: u8) -> Result<Seq<u8>, Error> {
    if tn == 22 {
        if e.etype == ElemType::UInt8 || e.etype == ElemType::UInt16 || e.etype
            == ElemType::UInt32 {
            Ok(spec_hex(spec_le_val(b, e.vstart, e.vlen), 8))
        } else {
            Err(Error::TLVTypeMismatch)
        }
    } else {
        if e.etype.is_uint() {
            Ok(spec_hex(spec_le_val(b, e.vstart, e.vlen), 16))
        } else {
            Err(Error::TLVTypeMismatch)
        }
    }
}

/// Children of a distinguished-name TLV list: each member becomes a SET
/// holding a SEQUENCE of OID and hex-text value.
pub open spec fn spec_dn_items(b: Seq<u8>, pos: int, r: Result<Asn1View, Error>) -> Result<
    Asn1View,
    Error,
>
    decreases b.len() - pos,
{
    if r is Err {
        r
    } else {
        match spec_parse_elem(b, pos) {
            None => Err(Error::InvalidData),
            Some(e) => {
                if e.etype == ElemType::EndCnt {
                    r
                } else {
                    let r1 = w_push_r(r, 0x31);
                    let r2 = match e.tag {
                        TagType::Context(tn) => {
                            if 17 <= tn <= 22 {
                                match spec_dn_value(b, e, tn) {
                                    Err(err) => if r1 is Err {
                                        r1
                                    } else {
                                        Err(err)
                                    },
                                    Ok(text) => w_pop_r(
                                        w_write_r(
                                            w_write_r(
                                                w_push_r(r1, 0x30),
                                                0x06,
                                                spec_oid(spec_dn_oid_of(tn)),
                                            ),
                                            0x0c,
                                            text,
                                        ),
                                    ),
                                }
                            } else {
                                if r1 is Err {
                                    r1
                                } else {
                                    Err(Error::InvalidData)
                                }
                            }
                        },
                        TagType::Anonymous => r1,
                    };
                    let r3 = w_pop_r(r2);
                    if e.end <= pos || e.end > b.len() {
                        Err(Error::InvalidData)
                    } else {
                        spec_dn_items(b, e.end, r3)
                    }
                }
            },
        }
    }
}

/// A distinguished-name TLV list as a DER SEQUENCE of SETs.
pub open spec fn spec_dec_dn(b: Seq<u8>, t: SpecElem, r: Result<Asn1View, Error>) -> Result<
    Asn1View,
    Error,
> {
    if t.etype != ElemType::List {
        Err(Error::TLVTypeMismatch)
    } else {
        w_pop_r(spec_dn_items(b, t.vstart, w_push_r(r, 0x30)))
    }
}

/// Children of the extensions TLV list, each mapped to its X.509
/// extension encoding; future extensions are tolerated and skipped.
pub open spec fn spec_ext_items(b: Seq<u8>, pos: int, r: Result<Asn1View, Error>) -> Result<
    Asn1View,
    Error,
>
    decreases b.len() - pos,
{
    if r is Err {
        r
    } else {
        match spec_parse_elem(b, pos) {
            None => Err(Error::InvalidData),
            Some(e) => {
                if e.etype == ElemType::EndCnt {
                    r
                } else {
                    let r2 = match e.tag {
                        TagType::Context(tn) => {
                            if tn == 1 {
                                spec_ext_end(
                                    spec_dec_bc(
                                        b,
                                        e,
                                        spec_ext_start(r, spec_oid(OidKind::BasicConstraints), true),
                                    ),
                                )
                            } else if tn == 2 {
                                spec_ext_end(
                                    spec_dec_ku(
                                        b,
                                        e,
                                        spec_ext_start(r, spec_oid(OidKind::KeyUsage), true),
                                    ),
                                )
                            } else if tn == 3 {
                                spec_ext_end(
                                    spec_dec_eku(
                                        b,
                                        e,
                                        spec_ext_start(r, spec_oid(OidKind::ExtKeyUsage), true),
                                    ),
                                )
                            } else if tn == 4 {
                                let rs = spec_ext_start(
                                    r,
                                    spec_oid(OidKind::SubjKeyIdentifier),
                                    false,
                                );
                                if rs is Err {
                                    rs
                                } else if !e.etype.is_str() {
                                    Err(Error::TLVTypeMismatch)
                                } else {
                                    spec_ext_end(w_write_r(rs, 0x04, spec_val_bytes(b, e)))
                                }
                            } else if tn == 5 {
                                let rs = spec_ext_start(r, spec_oid(OidKind::AuthKeyId), false);
                                if rs is Err {
                                    rs
                                } else if !e.etype.is_str() {
                                    Err(Error::TLVTypeMismatch)
                                } else {
                                    spec_ext_end(
                                        w_pop_r(
                                            w_write_r(
                                                w_push_r(rs, 0x30),
                                                0x80,
                                                spec_val_bytes(b, e),
                                            ),
                                        ),
                                    )
                                }
                            } else if tn == 6 {
                                r
                            } else {
                                Err(Error::InvalidData)
                            }
                        },
                        TagType::Anonymous => r,
                    };
                    if e.end <= pos || e.end > b.len() {
                        Err(Error::InvalidData)
                    } else {
                        spec_ext_items(b, e.end, r2)
                    }
                }
            },
        }
    }
}

/// The extensions TLV list as the X509v3-extensions context element.
pub open spec fn spec_dec_extensions(b: Seq<u8>, t: SpecElem, r: Result<Asn1View, Error>) -> Result<
    Asn1View,
    Error,
> {
    let r1 = w_push_r(w_push_r(r, 0xA3), 0x30);
    if r1 is Err {
        r1
    } else if t.etype != ElemType::List {
        Err(Error::TLVTypeMismatch)
    } else {
        w_pop_r(w_pop_r(spec_ext_items(b, t.vstart, r1)))
    }
}


/// An error-carrying chain stays at its error through the item walks.
pub proof fn lemma_bc_items_err(b: Seq<u8>, pos: int, e: Error)
    ensures
        spec_bc_items(b, pos, Err(e)) == Err::<Asn1View, Error>(e),
{
}

/// An error-carrying chain stays at its error through the item walks.
pub proof fn lemma_eku_items_err(b: Seq<u8>, pos: int, e: Error)
    ensures
        spec_eku_items(b, pos, Err(e)) == Err::<Asn1View, Error>(e),
{
}

/// An error-carrying chain stays at its error through the item walks.
pub proof fn lemma_dn_items_err(b: Seq<u8>, pos: int, e: Error)
    ensures
        spec_dn_items(b, pos, Err(e)) == Err::<Asn1View, Error>(e),
{
}

/// An error-carrying chain stays at its error through the item walks.
pub proof fn lemma_ext_items_err(b: Seq<u8>, pos: int, e: Error)
    ensures
        spec_ext_items(b, pos, Err(e)) == Err::<Asn1View, Error>(e),
{
}

/// State of the sequential certificate walk: the writer chain so far
/// and the read cursor.
pub ghost struct CertStep {
    pub r: Result<Asn1View, Error>,
    pub pos: int,
}

/// A failed walk keeps its cursor and records the error.
pub open spec fn sp_fail(st: CertStep, e: Error) -> CertStep {
    CertStep { r: Err(e), pos: st.pos }
}

/// Serial number: the next element under tag one, as a DER INTEGER.
pub open spec fn sp_serial(b: Seq<u8>, st: CertStep) -> CertStep {
    if st.r is Err {
        st
    } else {
        match spec_next_tag(b, st.pos, 1) {
            Err(e) => sp_fail(st, e),
            Ok(e) => {
                if !e.etype.is_str() {
                    sp_fail(st, Error::TLVTypeMismatch)
                } else {
                    CertStep { r: w_write_r(st.r, 0x02, spec_val_bytes(b, e)), pos: e.end }
                }
            },
        }
    }
}

/// Signature algorithm: tag two must name ECDSA-with-SHA256.
pub open spec fn sp_sign_algo(b: Seq<u8>, st: CertStep) -> CertStep {
    if st.r is Err {
        st
    } else {
        match spec_next_tag(b, st.pos, 2) {
            Err(e) => sp_fail(st, e),
            Ok(e) => {
                if e.etype != ElemType::UInt8 {
                    sp_fail(st, Error::TLVTypeMismatch)
                } else if spec_le_val(b, e.vstart, e.vlen) != 1 {
                    sp_fail(st, Error::Invalid)
                } else {
                    CertStep {
                        r: w_pop_r(
                            w_write_r(
                                w_push_r(st.r, 0x30),
                                0x06,
                                spec_oid(OidKind::EcdsaWithSha256),
                            ),
                        ),
                        pos: e.end,
                    }
                }
            },
        }
    }
}

/// A distinguished name under the given tag.
pub open spec fn sp_dn(b: Seq<u8>, st: CertStep, tag: u8) -> CertStep {
    if st.r is Err {
        st
    } else {
        match spec_next_tag(b, st.pos, tag) {
            Err(e) => sp_fail(st, e),
            Ok(e) => CertStep { r: spec_dec_dn(b, e, st.r), pos: e.end },
        }
    }
}

/// Validity: not-before and not-after under tags four and five, each a
/// DER UTCTime in a shared SEQUENCE.
pub open spec fn sp_validity(b: Seq<u8>, st: CertStep) -> CertStep {
    if st.r is Err {
        st
    } else {
        let r1 = w_push_r(st.r, 0x30);
        if r1 is Err {
            CertStep { r: r1, pos: st.pos }
        } else {
            match spec_next_tag(b, st.pos, 4) {
                Err(e) => sp_fail(st, e),
                Ok(e4) => {
                    if !(e4.etype == ElemType::UInt8 || e4.etype == ElemType::UInt16 || e4.etype
                        == ElemType::UInt32) {
                        sp_fail(st, Error::TLVTypeMismatch)
                    } else {
                        let r2 = w_write_r(
                            r1,
                            0x17,
                            utctime_text(spec_le_val(b, e4.vstart, e4.vlen) as u32),
                        );
                        if r2 is Err {
                            CertStep { r: r2, pos: e4.end }
                        } else {
                            match spec_next_tag(b, e4.end, 5) {
                            Err(e) => CertStep { r: Err(e), pos: e4.end },
                            Ok(e5) => {
                                if !(e5.etype == ElemType::UInt8 || e5.etype == ElemType::UInt16
                                    || e5.etype == ElemType::UInt32) {
                                    CertStep { r: Err(Error::TLVTypeMismatch), pos: e4.end }
                                } else {
                                    CertStep {
                                        r: w_pop_r(
                                            w_write_r(
                                                r2,
                                                0x17,
                                                utctime_text(
                                                    spec_le_val(b, e5.vstart, e5.vlen) as u32,
                                                ),
                                            ),
                                        ),
                                        pos: e5.end,
                                    }
                                }
                            },
                            }
                        }
                    }
                }
            }
        }
    }
}

/// Subject public key info: algorithm OIDs under tags seven and eight,
/// then the public key under tag nine as an untrimmed BIT STRING.
pub open spec fn sp_pubkey(b: Seq<u8>, st: CertStep) -> CertStep {
    if st.r is Err {
        st
    } else {
        let r1 = w_push_r(w_push_r(st.r, 0x30), 0x30);
        if r1 is Err {
            CertStep { r: r1, pos: st.pos }
        } else {
            match spec_next_tag(b, st.pos, 7) {
                Err(e) => sp_fail(st, e),
                Ok(e7) => {
                    if e7.etype != ElemType::UInt8 {
                        sp_fail(st, Error::TLVTypeMismatch)
                    } else if spec_le_val(b, e7.vstart, e7.vlen) != 1 {
                        sp_fail(st, Error::Invalid)
                    } else {
                        let r2 = w_write_r(r1, 0x06, spec_oid(OidKind::EcPubKey));
                        if r2 is Err {
                            CertStep { r: r2, pos: e7.end }
                        } else {
                            match spec_next_tag(b, e7.end, 8) {
                            Err(e) => CertStep { r: Err(e), pos: e7.end },
                            Ok(e8) => {
                                if e8.etype != ElemType::UInt8 {
                                    CertStep { r: Err(Error::TLVTypeMismatch), pos: e7.end }
                                } else if spec_le_val(b, e8.vstart, e8.vlen) != 1 {
                                    CertStep { r: Err(Error::Invalid), pos: e7.end }
                                } else {
                                    let r3 = w_pop_r(
                                        w_write_r(r2, 0x06, spec_oid(OidKind::Prime256V1)),
                                    );
                                    if r3 is Err {
                                        CertStep { r: r3, pos: e8.end }
                                    } else {
                                        match spec_next_tag(b, e8.end, 9) {
                                        Err(e) => CertStep { r: Err(e), pos: e8.end },
                                        Ok(e9) => {
                                            if !e9.etype.is_str() {
                                                CertStep {
                                                    r: Err(Error::TLVTypeMismatch),
                                                    pos: e8.end,
                                                }
                                            } else {
                                                CertStep {
                                                    r: w_pop_r(
                                                        w_write_r(
                                                            r3,
                                                            0x03,
                                                            spec_bitstr_content(
                                                                false,
                                                                spec_val_bytes(b, e9),
                                                            ),
                                                        ),
                                                    ),
                                                    pos: e9.end,
                                                }
                                            }
                                        },
                                        }
                                    }
                                }
                            },
                            }
                        }
                    }
                }
            }
        }
    }
}

/// Extensions under tag ten.
pub open spec fn sp_exts(b: Seq<u8>, st: CertStep) -> CertStep {
    if st.r is Err {
        st
    } else {
        match spec_next_tag(b, st.pos, 10) {
            Err(e) => sp_fail(st, e),
            Ok(e) => CertStep { r: spec_dec_extensions(b, e, st.r), pos: e.end },
        }
    }
}

/// The whole walk: the DER rendering of the to-be-signed certificate
/// body that `decode_cert` pushes for a given TLV buffer and writer
/// state, or the error it stops with.  The signature element is
/// deliberately not part of the output.
pub open spec fn spec_decode_cert(b: Seq<u8>, r0: Result<Asn1View, Error>) -> Result<
    Asn1View,
    Error,
> {
    match spec_parse_elem(b, 0) {
        None => Err(Error::InvalidData),
        Some(root) => {
            if root.etype != ElemType::Struct || root.tag != TagType::Anonymous {
                Err(Error::InvalidData)
            } else {
                let st0 = CertStep {
                    r: w_pop_r(w_write_r(w_push_r(w_push_r(r0, 0x30), 0xA0), 0x02, seq![2u8])),
                    pos: root.vstart,
                };
                let st = sp_exts(
                    b,
                    sp_pubkey(
                        b,
                        sp_dn(b, sp_validity(b, sp_dn(b, sp_sign_algo(b, sp_serial(b, st0)), 3)), 6),
                    ),
                );
                w_pop_r(st.r)
            }
        },
    }
}

// --- Exec decode functions --------------------------------------------

/// The element a sequential walk expects next under the given tag.
fn get_next_tag(buf: &[u8], pos: usize, tag: u8) -> (r: Result<TLVElem, Error>)
    ensures
        match r {
            Ok(e) => spec_next_tag(buf@, pos as int, tag) == Ok::<SpecElem, Error>(e@)
                && spec_elem_wf(buf@, e@) && pos < e.end <= buf.len(),
            Err(err) => spec_next_tag(buf@, pos as int, tag) == Err::<SpecElem, Error>(err),
        },
{
    let e = match read_elem(buf, pos) {
        Ok(e) => e,
        Err(_) => {
            return Err(Error::Invalid);
        },
    };
    if matches!(e.etype, ElemType::EndCnt) {
        return Err(Error::Invalid);
    }
    match e.tag {
        TagType::Context(t) => {
            if t == tag {
                Ok(e)
            } else {
                Err(Error::TLVTypeMismatch)
            }
        },
        TagType::Anonymous => Err(Error::TLVTypeMismatch),
    }
}

/// Opens one X.509 extension: SEQUENCE, OID, optional critical flag,
/// compound OCTET STRING.
fn decode_extension_start(k: OidKind, critical: bool, w: &mut ASN1Writer) -> (r: Result<(), Error>)
    requires
        old(w).wf(),
    ensures
        final(w).wf(),
        match r {
            Ok(()) => spec_ext_start(Ok(old(w)@), spec_oid(k), critical) == Ok::<Asn1View, Error>(
                final(w)@,
            ),
            Err(e) => spec_ext_start(Ok(old(w)@), spec_oid(k), critical) == Err::<Asn1View, Error>(
                e,
            ),
        },
{
    w.start_seq()?;
    let oid = oid_bytes(k);
    w.oid(oid.as_slice())?;
    if critical {
        w.bool_val(true)?;
    }
    w.start_compound_ostr()?;
    Ok(())
}

/// Closes one X.509 extension.
fn decode_extension_end(w: &mut ASN1Writer) -> (r: Result<(), Error>)
    requires
        old(w).wf(),
    ensures
        final(w).wf(),
        match r {
            Ok(()) => spec_ext_end(Ok(old(w)@)) == Ok::<Asn1View, Error>(final(w)@),
            Err(e) => spec_ext_end(Ok(old(w)@)) == Err::<Asn1View, Error>(e),
        },
{
    w.end_compound_ostr()?;
    w.end_seq()?;
    Ok(())
}

/// BasicConstraints: renders the TLV struct as its DER SEQUENCE,
/// emitting `CA` only when the flag is set.
#[verifier::rlimit(100)]
#[verifier::loop_isolation(false)]
pub fn decode_basic_constraints(buf: &[u8], t: &TLVElem, w: &mut ASN1Writer) -> (r: Result<
    (),
    Error,
>)
    requires
        old(w).wf(),
        spec_elem_wf(buf@, t@),
    ensures
        final(w).wf(),
        match r {
            Ok(()) => spec_dec_bc(buf@, t@, Ok(old(w)@)) == Ok::<Asn1View, Error>(final(w)@),
            Err(e) => spec_dec_bc(buf@, t@, Ok(old(w)@)) == Err::<Asn1View, Error>(e),
        },
{
    w.start_seq()?;
    if !matches!(t.etype, ElemType::Struct) {
        return Err(Error::TLVTypeMismatch);
    }
    let ghost r1 = Ok::<Asn1View, Error>(w@);
    let mut cur: usize = t.vstart;
    loop
        invariant
            w.wf(),
            t.vstart <= cur <= buf.len(),
            spec_bc_items(buf@, t@.vstart, r1) == spec_bc_items(buf@, cur as int, Ok(w@)),
        decreases buf.len() - cur,
    {
        let e = match read_elem(buf, cur) {
            Ok(e) => e,
            Err(_) => {
                return Err(Error::InvalidData);
            },
        };
        if matches!(e.etype, ElemType::EndCnt) {
            w.end_seq()?;
            return Ok(());
        }
        match e.tag {
            TagType::Context(tn) => {
                if tn == 1 {
                    let flag = match elem_bool(buf, &e) {
                        Ok(v) => v,
                        Err(err) => {
                            proof {
                                lemma_bc_items_err(buf@, e@.end, err);
                            }
                            return Err(err);
                        },
                    };
                    if flag {
                        match w.bool_val(true) {
                            Ok(()) => {},
                            Err(err) => {
                                proof {
                                    lemma_bc_items_err(buf@, e@.end, err);
                                }
                                return Err(err);
                            },
                        }
                    }
                }
            },
            TagType::Anonymous => {},
        }
        cur = e.end;
    }
}

/// KeyUsage: the 16-bit flag word as a trimmed DER BIT STRING.
fn decode_key_usage(buf: &[u8], t: &TLVElem, w: &mut ASN1Writer) -> (r: Result<(), Error>)
    requires
        old(w).wf(),
        spec_elem_wf(buf@, t@),
    ensures
        final(w).wf(),
        match r {
            Ok(()) => spec_dec_ku(buf@, t@, Ok(old(w)@)) == Ok::<Asn1View, Error>(final(w)@),
            Err(e) => spec_dec_ku(buf@, t@, Ok(old(w)@)) == Err::<Asn1View, Error>(e),
        },
{
    let ku = match elem_u16(buf, t) {
        Ok(v) => v,
        Err(err) => {
            return Err(err);
        },
    };
    let bytes = int_to_bitstring(ku);
    w.bitstr(true, bytes.as_slice())?;
    Ok(())
}

/// Key-purpose OID for an ExtendedKeyUsage wire value.
fn eku_oid_of(v: u8) -> (r: OidKind)
    requires
        1 <= v <= 6,
    ensures
        r == spec_eku_oid_of(v as int),
{
    if v == 1 {
        OidKind::ServerAuth
    } else if v == 2 {
        OidKind::ClientAuth
    } else if v == 3 {
        OidKind::CodeSign
    } else if v == 4 {
        OidKind::EmailProt
    } else if v == 5 {
        OidKind::Timestamp
    } else {
        OidKind::OcspSign
    }
}

/// ExtendedKeyUsage: the TLV array of purpose codes as a SEQUENCE of
/// OIDs.
#[verifier::rlimit(100)]
#[verifier::loop_isolation(false)]
fn decode_extended_key_usage(buf: &[u8], t: &TLVElem, w: &mut ASN1Writer) -> (r: Result<(), Error>)
    requires
        old(w).wf(),
        spec_elem_wf(buf@, t@),
    ensures
        final(w).wf(),
        match r {
            Ok(()) => spec_dec_eku(buf@, t@, Ok(old(w)@)) == Ok::<Asn1View, Error>(final(w)@),
            Err(e) => spec_dec_eku(buf@, t@, Ok(old(w)@)) == Err::<Asn1View, Error>(e),
        },
{
    if !matches!(t.etype, ElemType::Array) {
        return Err(Error::TLVTypeMismatch);
    }
    w.start_seq()?;
    let ghost r1 = Ok::<Asn1View, Error>(w@);
    let mut cur: usize = t.vstart;
    loop
        invariant
            w.wf(),
            t.vstart <= cur <= buf.len(),
            spec_eku_items(buf@, t@.vstart, r1) == spec_eku_items(buf@, cur as int, Ok(w@)),
        decreases buf.len() - cur,
    {
        let e = match read_elem(buf, cur) {
            Ok(e) => e,
            Err(_) => {
                return Err(Error::InvalidData);
            },
        };
        if matches!(e.etype, ElemType::EndCnt) {
            w.end_seq()?;
            return Ok(());
        }
        let v = match elem_u8(buf, &e) {
            Ok(v) => v,
            Err(err) => {
                return Err(err);
            },
        };
        if v < 1 || v > 6 {
            return Err(Error::Invalid);
        }
        let oid = oid_bytes(eku_oid_of(v));
        match w.oid(oid.as_slice()) {
            Ok(()) => {},
            Err(err) => {
                proof {
                    lemma_eku_items_err(buf@, e@.end, err);
                }
                return Err(err);
            },
        }
        cur = e.end;
    }
}

/// Matter DN OID for a distinguished-name context tag.
fn dn_oid_of(tn: u8) -> (r: OidKind)
    requires
        17 <= tn <= 22,
    ensures
        r == spec_dn_oid_of(tn),
{
    if tn == 17 {
        OidKind::MatterNodeId
    } else if tn == 18 {
        OidKind::MatterFwSignId
    } else if tn == 19 {
        OidKind::MatterIcaId
    } else if tn == 20 {
        OidKind::MatterRootCaId
    } else if tn == 21 {
        OidKind::MatterFabricId
    } else {
        OidKind::MatterNocCatId
    }
}

/// A distinguished-name TLV list as a DER SEQUENCE of SETs, each member
/// a SEQUENCE of Matter OID and fixed-width hex text.
#[verifier::rlimit(100)]
#[verifier::loop_isolation(false)]
fn decode_dn_list(buf: &[u8], t: &TLVElem, w: &mut ASN1Writer) -> (r: Result<(), Error>)
    requires
        old(w).wf(),
        spec_elem_wf(buf@, t@),
    ensures
        final(w).wf(),
        match r {
            Ok(()) => spec_dec_dn(buf@, t@, Ok(old(w)@)) == Ok::<Asn1View, Error>(final(w)@),
            Err(e) => spec_dec_dn(buf@, t@, Ok(old(w)@)) == Err::<Asn1View, Error>(e),
        },
{
    if !matches!(t.etype, ElemType::List) {
        return Err(Error::TLVTypeMismatch);
    }
    w.start_seq()?;
    let ghost r1 = Ok::<Asn1View, Error>(w@);
    let mut cur: usize = t.vstart;
    loop
        invariant
            w.wf(),
            t.vstart <= cur <= buf.len(),
            spec_dn_items(buf@, t@.vstart, r1) == spec_dn_items(buf@, cur as int, Ok(w@)),
        decreases buf.len() - cur,
    {
        let e = match read_elem(buf, cur) {
            Ok(e) => e,
            Err(_) => {
                return Err(Error::InvalidData);
            },
        };
        if matches!(e.etype, ElemType::EndCnt) {
            w.end_seq()?;
            return Ok(());
        }
        match w.start_set() {
            Ok(()) => {},
            Err(err) => {
                proof {
                    lemma_dn_items_err(buf@, e@.end, err);
                }
                return Err(err);
            },
        }
        match e.tag {
            TagType::Context(tn) => {
                if 17 <= tn && tn <= 22 {
                    let text: Vec<u8> = if tn == 22 {
                        let v = match elem_u32(buf, &e) {
                            Ok(v) => v,
                            Err(err) => {
                                proof {
                                    lemma_dn_items_err(buf@, e@.end, err);
                                }
                                return Err(err);
                            },
                        };
                        proof {
                            crate::tlv::lemma_le_val_bound(buf@, e@.vstart, e@.vlen);
                            crate::tlv::lemma_pow256_vals();
                        }
                        hex_u64(v as u64, 8)
                    } else {
                        let v = match elem_u64(buf, &e) {
                            Ok(v) => v,
                            Err(err) => {
                                proof {
                                    lemma_dn_items_err(buf@, e@.end, err);
                                }
                                return Err(err);
                            },
                        };
                        hex_u64(v, 16)
                    };
                    let oid = oid_bytes(dn_oid_of(tn));
                    match w.start_seq() {
                        Ok(()) => {},
                        Err(err) => {
                            proof {
                                lemma_dn_items_err(buf@, e@.end, err);
                            }
                            return Err(err);
                        },
                    }
                    match w.oid(oid.as_slice()) {
                        Ok(()) => {},
                        Err(err) => {
                            proof {
                                lemma_dn_items_err(buf@, e@.end, err);
                            }
                            return Err(err);
                        },
                    }
                    match w.utf8str(text.as_slice()) {
                        Ok(()) => {},
                        Err(err) => {
                            proof {
                                lemma_dn_items_err(buf@, e@.end, err);
                            }
                            return Err(err);
                        },
                    }
                    match w.end_seq() {
                        Ok(()) => {},
                        Err(err) => {
                            proof {
                                lemma_dn_items_err(buf@, e@.end, err);
                            }
                            return Err(err);
                        },
                    }
                } else {
                    proof {
                        lemma_dn_items_err(buf@, e@.end, Error::InvalidData);
                    }
                    return Err(Error::InvalidData);
                }
            },
            TagType::Anonymous => {},
        }
        match w.end_set() {
            Ok(()) => {},
            Err(err) => {
                proof {
                    lemma_dn_items_err(buf@, e@.end, err);
                }
                return Err(err);
            },
        }
        cur = e.end;
    }
}

/// One BasicConstraints extension member.
fn ext_arm_bc(buf: &[u8], e: &TLVElem, w: &mut ASN1Writer) -> (r: Result<(), Error>)
    requires
        old(w).wf(),
        spec_elem_wf(buf@, e@),
    ensures
        final(w).wf(),
        match r {
            Ok(()) => spec_ext_end(
                spec_dec_bc(buf@, e@, spec_ext_start(Ok(old(w)@), spec_oid(OidKind::BasicConstraints), true)),
            ) == Ok::<Asn1View, Error>(final(w)@),
            Err(err) => spec_ext_end(
                spec_dec_bc(buf@, e@, spec_ext_start(Ok(old(w)@), spec_oid(OidKind::BasicConstraints), true)),
            ) == Err::<Asn1View, Error>(err),
        },
{
    decode_extension_start(OidKind::BasicConstraints, true, w)?;
    decode_basic_constraints(buf, e, w)?;
    decode_extension_end(w)?;
    Ok(())
}

/// One KeyUsage extension member.
fn ext_arm_ku(buf: &[u8], e: &TLVElem, w: &mut ASN1Writer) -> (r: Result<(), Error>)
    requires
        old(w).wf(),
        spec_elem_wf(buf@, e@),
    ensures
        final(w).wf(),
        match r {
            Ok(()) => spec_ext_end(
                spec_dec_ku(buf@, e@, spec_ext_start(Ok(old(w)@), spec_oid(OidKind::KeyUsage), true)),
            ) == Ok::<Asn1View, Error>(final(w)@),
            Err(err) => spec_ext_end(
                spec_dec_ku(buf@, e@, spec_ext_start(Ok(old(w)@), spec_oid(OidKind::KeyUsage), true)),
            ) == Err::<Asn1View, Error>(err),
        },
{
    decode_extension_start(OidKind::KeyUsage, true, w)?;
    decode_key_usage(buf, e, w)?;
    decode_extension_end(w)?;
    Ok(())
}

/// One ExtendedKeyUsage extension member.
fn ext_arm_eku(buf: &[u8], e: &TLVElem, w: &mut ASN1Writer) -> (r: Result<(), Error>)
    requires
        old(w).wf(),
        spec_elem_wf(buf@, e@),
    ensures
        final(w).wf(),
        match r {
            Ok(()) => spec_ext_end(
                spec_dec_eku(buf@, e@, spec_ext_start(Ok(old(w)@), spec_oid(OidKind::ExtKeyUsage), true)),
            ) == Ok::<Asn1View, Error>(final(w)@),
            Err(err) => spec_ext_end(
                spec_dec_eku(buf@, e@, spec_ext_start(Ok(old(w)@), spec_oid(OidKind::ExtKeyUsage), true)),
            ) == Err::<Asn1View, Error>(err),
        },
{
    decode_extension_start(OidKind::ExtKeyUsage, true, w)?;
    decode_extended_key_usage(buf, e, w)?;
    decode_extension_end(w)?;
    Ok(())
}

/// One SubjectKeyId extension member: its spec-side result.
pub open spec fn spec_ext_arm_skid(b: Seq<u8>, e: SpecElem, r: Result<Asn1View, Error>) -> Result<
    Asn1View,
    Error,
> {
    let rs = spec_ext_start(r, spec_oid(OidKind::SubjKeyIdentifier), false);
    if rs is Err {
        rs
    } else if !e.etype.is_str() {
        Err(Error::TLVTypeMismatch)
    } else {
        spec_ext_end(w_write_r(rs, 0x04, spec_val_bytes(b, e)))
    }
}

/// One SubjectKeyId extension member.
fn ext_arm_skid(buf: &[u8], e: &TLVElem, w: &mut ASN1Writer) -> (r: Result<(), Error>)
    requires
        old(w).wf(),
        spec_elem_wf(buf@, e@),
    ensures
        final(w).wf(),
        match r {
            Ok(()) => spec_ext_arm_skid(buf@, e@, Ok(old(w)@)) == Ok::<Asn1View, Error>(final(w)@),
            Err(err) => spec_ext_arm_skid(buf@, e@, Ok(old(w)@)) == Err::<Asn1View, Error>(err),
        },
{
    decode_extension_start(OidKind::SubjKeyIdentifier, false, w)?;
    let vb = match elem_bytes(buf, e) {
        Ok(v) => v,
        Err(err) => {
            return Err(err);
        },
    };
    w.ostr(vb.as_slice())?;
    decode_extension_end(w)?;
    Ok(())
}

/// One AuthKeyId extension member: its spec-side result.
pub open spec fn spec_ext_arm_akid(b: Seq<u8>, e: SpecElem, r: Result<Asn1View, Error>) -> Result<
    Asn1View,
    Error,
> {
    let rs = spec_ext_start(r, spec_oid(OidKind::AuthKeyId), false);
    if rs is Err {
        rs
    } else if !e.etype.is_str() {
        Err(Error::TLVTypeMismatch)
    } else {
        spec_ext_end(w_pop_r(w_write_r(w_push_r(rs, 0x30), 0x80, spec_val_bytes(b, e))))
    }
}

/// One AuthKeyId extension member.
fn ext_arm_akid(buf: &[u8], e: &TLVElem, w: &mut ASN1Writer) -> (r: Result<(), Error>)
    requires
        old(w).wf(),
        spec_elem_wf(buf@, e@),
    ensures
        final(w).wf(),
        match r {
            Ok(()) => spec_ext_arm_akid(buf@, e@, Ok(old(w)@)) == Ok::<Asn1View, Error>(final(w)@),
            Err(err) => spec_ext_arm_akid(buf@, e@, Ok(old(w)@)) == Err::<Asn1View, Error>(err),
        },
{
    decode_extension_start(OidKind::AuthKeyId, false, w)?;
    let vb = match elem_bytes(buf, e) {
        Ok(v) => v,
        Err(err) => {
            return Err(err);
        },
    };
    w.start_seq()?;
    proof {
        assert((0x80u8 | 0u8) == 0x80u8) by (bit_vector);
    }
    w.ctx(0, vb.as_slice())?;
    w.end_seq()?;
    decode_extension_end(w)?;
    Ok(())
}

/// The extensions TLV list as the X509v3-extensions context element of
/// the TBS certificate.
#[verifier::rlimit(100)]
#[verifier::loop_isolation(false)]
fn decode_extensions(buf: &[u8], t: &TLVElem, w: &mut ASN1Writer) -> (r: Result<(), Error>)
    requires
        old(w).wf(),
        spec_elem_wf(buf@, t@),
    ensures
        final(w).wf(),
        match r {
            Ok(()) => spec_dec_extensions(buf@, t@, Ok(old(w)@)) == Ok::<Asn1View, Error>(
                final(w)@,
            ),
            Err(e) => spec_dec_extensions(buf@, t@, Ok(old(w)@)) == Err::<Asn1View, Error>(e),
        },
{
    proof {
        assert((0xA0u8 | 3u8) == 0xA3u8) by (bit_vector);
    }
    w.start_ctx(3)?;
    w.start_seq()?;
    if !matches!(t.etype, ElemType::List) {
        return Err(Error::TLVTypeMismatch);
    }
    let ghost r1 = Ok::<Asn1View, Error>(w@);
    let mut cur: usize = t.vstart;
    loop
        invariant
            w.wf(),
            t.vstart <= cur <= buf.len(),
            spec_ext_items(buf@, t@.vstart, r1) == spec_ext_items(buf@, cur as int, Ok(w@)),
        decreases buf.len() - cur,
    {
        let e = match read_elem(buf, cur) {
            Ok(e) => e,
            Err(_) => {
                return Err(Error::InvalidData);
            },
        };
        if matches!(e.etype, ElemType::EndCnt) {
            w.end_seq()?;
            w.end_ctx()?;
            return Ok(());
        }
        match e.tag {
            TagType::Context(tn) => {
                if tn == 1 {
                    match ext_arm_bc(buf, &e, w) {
                        Ok(()) => {},
                        Err(err) => {
                            proof {
                                lemma_ext_items_err(buf@, e@.end, err);
                            }
                            return Err(err);
                        },
                    }
                } else if tn == 2 {
                    match ext_arm_ku(buf, &e, w) {
                        Ok(()) => {},
                        Err(err) => {
                            proof {
                                lemma_ext_items_err(buf@, e@.end, err);
                            }
                            return Err(err);
                        },
                    }
                } else if tn == 3 {
                    match ext_arm_eku(buf, &e, w) {
                        Ok(()) => {},
                        Err(err) => {
                            proof {
                                lemma_ext_items_err(buf@, e@.end, err);
                            }
                            return Err(err);
                        },
                    }
                } else if tn == 4 {
                    match ext_arm_skid(buf, &e, w) {
                        Ok(()) => {},
                        Err(err) => {
                            proof {
                                lemma_ext_items_err(buf@, e@.end, err);
                            }
                            return Err(err);
                        },
                    }
                } else if tn == 5 {
                    match ext_arm_akid(buf, &e, w) {
                        Ok(()) => {},
                        Err(err) => {
                            proof {
                                lemma_ext_items_err(buf@, e@.end, err);
                            }
                            return Err(err);
                        },
                    }
                } else if tn == 6 {
                } else {
                    proof {
                        lemma_ext_items_err(buf@, e@.end, Error::InvalidData);
                    }
                    return Err(Error::InvalidData);
                }
            },
            TagType::Anonymous => {},
        }
        cur = e.end;
    }
}

/// Serial number phase of the walk.
fn cert_serial(buf: &[u8], pos: usize, w: &mut ASN1Writer) -> (r: Result<usize, Error>)
    requires
        old(w).wf(),
        pos <= buf.len(),
    ensures
        final(w).wf(),
        match r {
            Ok(p2) => sp_serial(buf@, CertStep { r: Ok(old(w)@), pos: pos as int }) == (CertStep {
                r: Ok::<Asn1View, Error>(final(w)@),
                pos: p2 as int,
            }) && p2 <= buf.len(),
            Err(e) => sp_serial(buf@, CertStep { r: Ok(old(w)@), pos: pos as int }).r == Err::<
                Asn1View,
                Error,
            >(e),
        },
{
    let e1 = get_next_tag(buf, pos, 1)?;
    let sl = match elem_bytes(buf, &e1) {
        Ok(v) => v,
        Err(err) => {
            return Err(err);
        },
    };
    w.integer(sl.as_slice())?;
    Ok(e1.end)
}

/// Signature algorithm phase of the walk.
fn cert_sign_algo(buf: &[u8], pos: usize, w: &mut ASN1Writer) -> (r: Result<usize, Error>)
    requires
        old(w).wf(),
        pos <= buf.len(),
    ensures
        final(w).wf(),
        match r {
            Ok(p2) => sp_sign_algo(buf@, CertStep { r: Ok(old(w)@), pos: pos as int })
                == (CertStep { r: Ok::<Asn1View, Error>(final(w)@), pos: p2 as int }) && p2
                <= buf.len(),
            Err(e) => sp_sign_algo(buf@, CertStep { r: Ok(old(w)@), pos: pos as int }).r == Err::<
                Asn1View,
                Error,
            >(e),
        },
{
    let e2 = get_next_tag(buf, pos, 2)?;
    let algo = match elem_u8(buf, &e2) {
        Ok(v) => v,
        Err(err) => {
            return Err(err);
        },
    };
    if algo != 1 {
        return Err(Error::Invalid);
    }
    w.start_seq()?;
    let oid_sig = oid_bytes(OidKind::EcdsaWithSha256);
    w.oid(oid_sig.as_slice())?;
    w.end_seq()?;
    Ok(e2.end)
}

/// Distinguished-name phase of the walk, for issuer or subject.
fn cert_dn(buf: &[u8], pos: usize, tag: u8, w: &mut ASN1Writer) -> (r: Result<usize, Error>)
    requires
        old(w).wf(),
        pos <= buf.len(),
    ensures
        final(w).wf(),
        match r {
            Ok(p2) => sp_dn(buf@, CertStep { r: Ok(old(w)@), pos: pos as int }, tag) == (CertStep {
                r: Ok::<Asn1View, Error>(final(w)@),
                pos: p2 as int,
            }) && p2 <= buf.len(),
            Err(e) => sp_dn(buf@, CertStep { r: Ok(old(w)@), pos: pos as int }, tag).r == Err::<
                Asn1View,
                Error,
            >(e),
        },
{
    let e = get_next_tag(buf, pos, tag)?;
    decode_dn_list(buf, &e, w)?;
    Ok(e.end)
}

/// Validity phase of the walk: not-before and not-after.
fn cert_validity(buf: &[u8], pos: usize, w: &mut ASN1Writer) -> (r: Result<usize, Error>)
    requires
        old(w).wf(),
        pos <= buf.len(),
    ensures
        final(w).wf(),
        match r {
            Ok(p2) => sp_validity(buf@, CertStep { r: Ok(old(w)@), pos: pos as int })
                == (CertStep { r: Ok::<Asn1View, Error>(final(w)@), pos: p2 as int }) && p2
                <= buf.len(),
            Err(e) => sp_validity(buf@, CertStep { r: Ok(old(w)@), pos: pos as int }).r == Err::<
                Asn1View,
                Error,
            >(e),
        },
{
    w.start_seq()?;
    let e4 = get_next_tag(buf, pos, 4)?;
    let t4 = match elem_u32(buf, &e4) {
        Ok(v) => v,
        Err(err) => {
            return Err(err);
        },
    };
    proof {
        crate::tlv::lemma_le_val_bound(buf@, e4@.vstart, e4@.vlen);
        crate::tlv::lemma_pow256_vals();
    }
    w.utctime(t4)?;
    let e5 = get_next_tag(buf, e4.end, 5)?;
    let t5 = match elem_u32(buf, &e5) {
        Ok(v) => v,
        Err(err) => {
            return Err(err);
        },
    };
    proof {
        crate::tlv::lemma_le_val_bound(buf@, e5@.vstart, e5@.vlen);
        crate::tlv::lemma_pow256_vals();
    }
    w.utctime(t5)?;
    w.end_seq()?;
    Ok(e5.end)
}

/// Subject-public-key phase of the walk.
#[verifier::rlimit(100)]
fn cert_pubkey(buf: &[u8], pos: usize, w: &mut ASN1Writer) -> (r: Result<usize, Error>)
    requires
        old(w).wf(),
        pos <= buf.len(),
    ensures
        final(w).wf(),
        match r {
            Ok(p2) => sp_pubkey(buf@, CertStep { r: Ok(old(w)@), pos: pos as int }) == (CertStep {
                r: Ok::<Asn1View, Error>(final(w)@),
                pos: p2 as int,
            }) && p2 <= buf.len(),
            Err(e) => sp_pubkey(buf@, CertStep { r: Ok(old(w)@), pos: pos as int }).r == Err::<
                Asn1View,
                Error,
            >(e),
        },
{
    w.start_seq()?;
    w.start_seq()?;
    let e7 = get_next_tag(buf, pos, 7)?;
    let a7 = match elem_u8(buf, &e7) {
        Ok(v) => v,
        Err(err) => {
            return Err(err);
        },
    };
    if a7 != 1 {
        return Err(Error::Invalid);
    }
    let oid_pk = oid_bytes(OidKind::EcPubKey);
    w.oid(oid_pk.as_slice())?;
    let e8 = get_next_tag(buf, e7.end, 8)?;
    let a8 = match elem_u8(buf, &e8) {
        Ok(v) => v,
        Err(err) => {
            return Err(err);
        },
    };
    if a8 != 1 {
        return Err(Error::Invalid);
    }
    let oid_curve = oid_bytes(OidKind::Prime256V1);
    w.oid(oid_curve.as_slice())?;
    w.end_seq()?;
    let e9 = get_next_tag(buf, e8.end, 9)?;
    let pk = match elem_bytes(buf, &e9) {
        Ok(v) => v,
        Err(err) => {
            return Err(err);
        },
    };
    w.bitstr(false, pk.as_slice())?;
    w.end_seq()?;
    Ok(e9.end)
}

/// Extensions phase of the walk.
fn cert_exts(buf: &[u8], pos: usize, w: &mut ASN1Writer) -> (r: Result<usize, Error>)
    requires
        old(w).wf(),
        pos <= buf.len(),
    ensures
        final(w).wf(),
        match r {
            Ok(p2) => sp_exts(buf@, CertStep { r: Ok(old(w)@), pos: pos as int }) == (CertStep {
                r: Ok::<Asn1View, Error>(final(w)@),
                pos: p2 as int,
            }) && p2 <= buf.len(),
            Err(e) => sp_exts(buf@, CertStep { r: Ok(old(w)@), pos: pos as int }).r == Err::<
                Asn1View,
                Error,
            >(e),
        },
{
    let e = get_next_tag(buf, pos, 10)?;
    decode_extensions(buf, &e, w)?;
    Ok(e.end)
}

/// Decodes a Matter TLV certificate into the byte-exact DER rendering
/// of its to-be-signed body, pushed to the writer.  The TLV signature
/// element is not part of the DER output.
#[verifier::rlimit(100)]
pub fn decode_cert(buf: &[u8], w: &mut ASN1Writer) -> (r: Result<(), Error>)
    requires
        old(w).wf(),
    ensures
        final(w).wf(),
        match r {
            Ok(()) => spec_decode_cert(buf@, Ok(old(w)@)) == Ok::<Asn1View, Error>(final(w)@),
            Err(e) => spec_decode_cert(buf@, Ok(old(w)@)) == Err::<Asn1View, Error>(e),
        },
{
    let root = match get_root_node_struct(buf) {
        Ok(e) => e,
        Err(_) => {
            return Err(Error::InvalidData);
        },
    };
    let ghost st0 = CertStep {
        r: w_pop_r(w_write_r(w_push_r(w_push_r(Ok(old(w)@), 0x30), 0xA0), 0x02, seq![2u8])),
        pos: root@.vstart,
    };
    proof {
        assert((0xA0u8 | 0u8) == 0xA0u8) by (bit_vector);
    }
    w.start_seq()?;
    w.start_ctx(0)?;
    let mut two: Vec<u8> = Vec::new();
    two.push(2);
    proof {
        assert(two@ =~= seq![2u8]);
    }
    w.integer(two.as_slice())?;
    w.end_ctx()?;
    proof {
        assert(st0.r == Ok::<Asn1View, Error>(w@));
    }
    let p1 = cert_serial(buf, root.vstart, w)?;
    let ghost st1 = sp_serial(buf@, st0);
    let p2 = cert_sign_algo(buf, p1, w)?;
    let ghost st2 = sp_sign_algo(buf@, st1);
    let p3 = cert_dn(buf, p2, 3, w)?;
    let ghost st3 = sp_dn(buf@, st2, 3);
    let p4 = cert_validity(buf, p3, w)?;
    let ghost st4 = sp_validity(buf@, st3);
    let p5 = cert_dn(buf, p4, 6, w)?;
    let ghost st5 = sp_dn(buf@, st4, 6);
    let p6 = cert_pubkey(buf, p5, w)?;
    let ghost st6 = sp_pubkey(buf@, st5);
    let p7 = cert_exts(buf, p6, w)?;
    let ghost st7 = sp_exts(buf@, st6);
    proof {
        assert(st7 == CertStep { r: Ok::<Asn1View, Error>(w@), pos: p7 as int });
    }
    w.end_seq()?;
    Ok(())
}

// --- Certificate queries and the chain verifier -----------------------

/// Node identifier from the subject distinguished name.
pub open spec fn spec_cert_node_id(b: Seq<u8>) -> Result<u64, Error> {
    match spec_parse_elem(b, 0) {
        None => Err(Error::InvalidData),
        Some(root) => {
            if root.etype != ElemType::Struct || root.tag != TagType::Anonymous {
                Err(Error::InvalidData)
            } else {
                match spec_find_tag(b, root.vstart, 6) {
                    None => Err(Error::Invalid),
                    Some(e6) => {
                        if e6.etype != ElemType::List {
                            Err(Error::TLVTypeMismatch)
                        } else {
                            match spec_find_tag(b, e6.vstart, 17) {
                                None => Err(Error::NoNodeId),
                                Some(e) => {
                                    if !e.etype.is_uint() {
                                        Err(Error::TLVTypeMismatch)
                                    } else {
                                        Ok(spec_le_val(b, e.vstart, e.vlen) as u64)
                                    }
                                },
                            }
                        }
                    },
                }
            }
        },
    }
}

/// Fabric identifier from the subject distinguished name.
pub open spec fn spec_cert_fabric_id(b: Seq<u8>) -> Result<u64, Error> {
    match spec_parse_elem(b, 0) {
        None => Err(Error::InvalidData),
        Some(root) => {
            if root.etype != ElemType::Struct || root.tag != TagType::Anonymous {
                Err(Error::InvalidData)
            } else {
                match spec_find_tag(b, root.vstart, 6) {
                    None => Err(Error::Invalid),
                    Some(e6) => {
                        if e6.etype != ElemType::List {
                            Err(Error::TLVTypeMismatch)
                        } else {
                            match spec_find_tag(b, e6.vstart, 21) {
                                None => Err(Error::NoFabricId),
                                Some(e) => {
                                    if !e.etype.is_uint() {
                                        Err(Error::TLVTypeMismatch)
                                    } else {
                                        Ok(spec_le_val(b, e.vstart, e.vlen) as u64)
                                    }
                                },
                            }
                        }
                    },
                }
            }
        },
    }
}

/// Value bytes of a string element found under `tag` among the root's
/// children.
pub open spec fn spec_cert_root_slice(b: Seq<u8>, tag: u8) -> Result<Seq<u8>, Error> {
    match spec_parse_elem(b, 0) {
        None => Err(Error::InvalidData),
        Some(root) => {
            if root.etype != ElemType::Struct || root.tag != TagType::Anonymous {
                Err(Error::InvalidData)
            } else {
                match spec_find_tag(b, root.vstart, tag) {
                    None => Err(Error::Invalid),
                    Some(e) => {
                        if !e.etype.is_str() {
                            Err(Error::TLVTypeMismatch)
                        } else {
                            Ok(spec_val_bytes(b, e))
                        }
                    },
                }
            }
        },
    }
}

/// Value bytes of a string element found under `tag` in the extensions
/// list.
pub open spec fn spec_cert_ext_slice(b: Seq<u8>, tag: u8) -> Result<Seq<u8>, Error> {
    match spec_parse_elem(b, 0) {
        None => Err(Error::InvalidData),
        Some(root) => {
            if root.etype != ElemType::Struct || root.tag != TagType::Anonymous {
                Err(Error::InvalidData)
            } else {
                match spec_find_tag(b, root.vstart, 10) {
                    None => Err(Error::Invalid),
                    Some(e10) => {
                        if e10.etype != ElemType::List {
                            Err(Error::TLVTypeMismatch)
                        } else {
                            match spec_find_tag(b, e10.vstart, tag) {
                                None => Err(Error::Invalid),
                                Some(e) => {
                                    if !e.etype.is_str() {
                                        Err(Error::TLVTypeMismatch)
                                    } else {
                                        Ok(spec_val_bytes(b, e))
                                    }
                                },
                            }
                        }
                    },
                }
            }
        },
    }
}

/// Whether `parent` is the authority of the certificate `b`: the auth
/// key id of `b` equals the subject key id of `parent`.
pub open spec fn spec_is_authority(b: Seq<u8>, parent: Seq<u8>) -> Result<bool, Error> {
    match spec_cert_ext_slice(b, 5) {
        Err(e) => Err(e),
        Ok(our_auth) => match spec_cert_ext_slice(parent, 4) {
            Err(e) => Err(e),
            Ok(their_subject) => Ok(our_auth == their_subject),
        },
    }
}

/// An empty writer view of the given capacity.
pub open spec fn spec_empty_view(cap: int) -> Asn1View {
    Asn1View { bytes: Seq::empty(), stack: Seq::empty(), cap: cap }
}

/// The DER rendering of the to-be-signed body, from a writer of the
/// given capacity.
pub open spec fn spec_as_asn1(b: Seq<u8>, cap: int) -> Result<Seq<u8>, Error> {
    match spec_decode_cert(b, Ok(spec_empty_view(cap))) {
        Ok(v) => Ok(v.bytes),
        Err(e) => Err(e),
    }
}

/// Size of the bounded DER reconstruction buffer used by the chain
/// verifier.
pub const MAX_ASN1_CERT_SIZE: usize = 800;

/// How a chain step reports a failed certificate read: running out of
/// DER buffer stays NoSpace, every malformed-TLV shape is InvalidData.
pub open spec fn spec_chain_err(e: Error) -> Error {
    if e == Error::NoSpace {
        Error::NoSpace
    } else {
        Error::InvalidData
    }
}

/// One chain-verification step: the parent must be the child's
/// authority, and the child's signature over the DER rendering of its
/// to-be-signed body must verify under the parent's public key.  The
/// possible errors are exactly InvalidAuthKey, InvalidSignature,
/// NoSpace and InvalidData.
pub open spec fn spec_add_cert(child: Seq<u8>, parent: Seq<u8>) -> Result<Seq<u8>, Error> {
    match spec_is_authority(child, parent) {
        Err(e) => Err(spec_chain_err(e)),
        Ok(auth) => {
            if !auth {
                Err(Error::InvalidAuthKey)
            } else {
                match spec_as_asn1(child, MAX_ASN1_CERT_SIZE as int) {
                    Err(e) => Err(spec_chain_err(e)),
                    Ok(der) => match spec_cert_root_slice(parent, 9) {
                        Err(e) => Err(spec_chain_err(e)),
                        Ok(pk) => match spec_cert_root_slice(child, 11) {
                            Err(e) => Err(spec_chain_err(e)),
                            Ok(sig) => {
                                if spec_ecdsa_p256_verifies(pk, spec_sha256(der), sig) {
                                    Ok(parent)
                                } else {
                                    Err(Error::InvalidSignature)
                                }
                            },
                        },
                    },
                }
            }
        },
    }
}

/// An owned Matter certificate in its compact-TLV encoding.  All
/// queries are lazy decodes against the buffer.
pub struct Cert {
    bytes: Vec<u8>,
}

impl View for Cert {
    type V = Seq<u8>;

    closed spec fn view(&self) -> Seq<u8> {
        self.bytes@
    }
}

impl Cert {
    /// A certificate from its TLV encoding.
    pub fn new(cert_bin: &[u8]) -> (r: Cert)
        ensures
            r@ == cert_bin@,
    {
        Cert { bytes: vstd::slice::slice_to_vec(cert_bin) }
    }

    /// Node identifier from the subject distinguished name.
    pub fn get_node_id(&self) -> (r: Result<u64, Error>)
        ensures
            r == spec_cert_node_id(self@),
    {
        let buf = self.bytes.as_slice();
        let root = match get_root_node_struct(buf) {
            Ok(e) => e,
            Err(_) => {
                return Err(Error::InvalidData);
            },
        };
        let e6 = match find_tag(buf, root.vstart, 6) {
            Ok(e) => e,
            Err(_) => {
                return Err(Error::Invalid);
            },
        };
        if !matches!(e6.etype, ElemType::List) {
            return Err(Error::TLVTypeMismatch);
        }
        let e = match find_tag(buf, e6.vstart, 17) {
            Ok(e) => e,
            Err(_) => {
                return Err(Error::NoNodeId);
            },
        };
        match elem_u64(buf, &e) {
            Ok(v) => Ok(v),
            Err(err) => Err(err),
        }
    }

    /// Fabric identifier from the subject distinguished name.
    pub fn get_fabric_id(&self) -> (r: Result<u64, Error>)
        ensures
            r == spec_cert_fabric_id(self@),
    {
        let buf = self.bytes.as_slice();
        let root = match get_root_node_struct(buf) {
            Ok(e) => e,
            Err(_) => {
                return Err(Error::InvalidData);
            },
        };
        let e6 = match find_tag(buf, root.vstart, 6) {
            Ok(e) => e,
            Err(_) => {
                return Err(Error::Invalid);
            },
        };
        if !matches!(e6.etype, ElemType::List) {
            return Err(Error::TLVTypeMismatch);
        }
        let e = match find_tag(buf, e6.vstart, 21) {
            Ok(e) => e,
            Err(_) => {
                return Err(Error::NoFabricId);
            },
        };
        match elem_u64(buf, &e) {
            Ok(v) => Ok(v),
            Err(err) => Err(err),
        }
    }

    /// Value bytes of a string element under `tag` among the root's
    /// children.
    fn root_slice(&self, tag: u8) -> (r: Result<Vec<u8>, Error>)
        ensures
            match r {
                Ok(v) => spec_cert_root_slice(self@, tag) == Ok::<Seq<u8>, Error>(v@),
                Err(e) => spec_cert_root_slice(self@, tag) == Err::<Seq<u8>, Error>(e),
            },
    {
        let buf = self.bytes.as_slice();
        let root = match get_root_node_struct(buf) {
            Ok(e) => e,
            Err(_) => {
                return Err(Error::InvalidData);
            },
        };
        let e = match find_tag(buf, root.vstart, tag) {
            Ok(e) => e,
            Err(_) => {
                return Err(Error::Invalid);
            },
        };
        elem_bytes(buf, &e)
    }

    /// Value bytes of a string element under `tag` in the extensions
    /// list.
    fn ext_slice(&self, tag: u8) -> (r: Result<Vec<u8>, Error>)
        ensures
            match r {
                Ok(v) => spec_cert_ext_slice(self@, tag) == Ok::<Seq<u8>, Error>(v@),
                Err(e) => spec_cert_ext_slice(self@, tag) == Err::<Seq<u8>, Error>(e),
            },
    {
        let buf = self.bytes.as_slice();
        let root = match get_root_node_struct(buf) {
            Ok(e) => e,
            Err(_) => {
                return Err(Error::InvalidData);
            },
        };
        let e10 = match find_tag(buf, root.vstart, 10) {
            Ok(e) => e,
            Err(_) => {
                return Err(Error::Invalid);
            },
        };
        if !matches!(e10.etype, ElemType::List) {
            return Err(Error::TLVTypeMismatch);
        }
        let e = match find_tag(buf, e10.vstart, tag) {
            Ok(e) => e,
            Err(_) => {
                return Err(Error::Invalid);
            },
        };
        elem_bytes(buf, &e)
    }

    /// The subject public key.
    pub fn get_pubkey(&self) -> (r: Result<Vec<u8>, Error>)
        ensures
            match r {
                Ok(v) => spec_cert_root_slice(self@, 9) == Ok::<Seq<u8>, Error>(v@),
                Err(e) => spec_cert_root_slice(self@, 9) == Err::<Seq<u8>, Error>(e),
            },
    {
        self.root_slice(9)
    }

    /// The subject key identifier extension value.
    pub fn get_subject_key_id(&self) -> (r: Result<Vec<u8>, Error>)
        ensures
            match r {
                Ok(v) => spec_cert_ext_slice(self@, 4) == Ok::<Seq<u8>, Error>(v@),
                Err(e) => spec_cert_ext_slice(self@, 4) == Err::<Seq<u8>, Error>(e),
            },
    {
        self.ext_slice(4)
    }

    /// Whether `their` is this certificate's authority: our auth key id
    /// equals their subject key id.
    #[verifier::loop_isolation(false)]
    pub fn is_authority(&self, their: &Cert) -> (r: Result<bool, Error>)
        ensures
            r == spec_is_authority(self@, their@),
    {
        let our_auth = match self.ext_slice(5) {
            Ok(v) => v,
            Err(e) => {
                return Err(e);
            },
        };
        let their_subject = match their.get_subject_key_id() {
            Ok(v) => v,
            Err(e) => {
                return Err(e);
            },
        };
        if our_auth.len() != their_subject.len() {
            proof {
                assert(our_auth@ != their_subject@);
            }
            return Ok(false);
        }
        let mut i: usize = 0;
        while i < our_auth.len()
            invariant
                i <= our_auth@.len(),
                our_auth@.len() == their_subject@.len(),
                forall|j: int| 0 <= j < i ==> our_auth@[j] == their_subject@[j],
            decreases our_auth@.len() - i,
        {
            if our_auth[i] != their_subject[i] {
                proof {
                    assert(our_auth@[i as int] != their_subject@[i as int]);
                    assert(our_auth@ != their_subject@);
                }
                return Ok(false);
            }
            i = i + 1;
        }
        proof {
            assert(our_auth@ =~= their_subject@);
        }
        Ok(true)
    }

    /// The signature element.
    pub fn get_signature(&self) -> (r: Result<Vec<u8>, Error>)
        ensures
            match r {
                Ok(v) => spec_cert_root_slice(self@, 11) == Ok::<Seq<u8>, Error>(v@),
                Err(e) => spec_cert_root_slice(self@, 11) == Err::<Seq<u8>, Error>(e),
            },
    {
        self.root_slice(11)
    }

    /// The raw TLV encoding.
    pub fn as_slice(&self) -> (r: Result<&[u8], Error>)
        ensures
            match r {
                Ok(v) => v@ == self@,
                Err(_) => false,
            },
    {
        Ok(self.bytes.as_slice())
    }

    /// The DER rendering of the to-be-signed body, built in a buffer of
    /// the given size.
    pub fn as_asn1(&self, buf_size: usize) -> (r: Result<Vec<u8>, Error>)
        ensures
            match r {
                Ok(v) => spec_as_asn1(self@, buf_size as int) == Ok::<Seq<u8>, Error>(v@),
                Err(e) => spec_as_asn1(self@, buf_size as int) == Err::<Seq<u8>, Error>(e),
            },
    {
        let mut w = ASN1Writer::new(buf_size);
        match decode_cert(self.bytes.as_slice(), &mut w) {
            Ok(()) => {},
            Err(e) => {
                return Err(e);
            },
        }
        Ok(vstd::slice::slice_to_vec(w.as_slice()))
    }

    /// Starts a chain verification at this certificate.
    pub fn verify_chain_start(&self) -> (r: CertVerifier)
        ensures
            r@ == self@,
    {
        CertVerifier::new(self)
    }
}

/// Maps a failed certificate read onto the chain-step error taxonomy.
fn chain_err(e: Error) -> (r: Error)
    ensures
        r == spec_chain_err(e),
{
    match e {
        Error::NoSpace => Error::NoSpace,
        _ => Error::InvalidData,
    }
}

/// Walks a certificate chain from a leaf up to a self-signed root,
/// verifying each link's authority and signature.
pub struct CertVerifier {
    cert: Cert,
}

impl View for CertVerifier {
    type V = Seq<u8>;

    closed spec fn view(&self) -> Seq<u8> {
        self.cert@
    }
}

impl CertVerifier {
    /// A verifier positioned at the given certificate.
    pub fn new(cert: &Cert) -> (r: CertVerifier)
        ensures
            r@ == cert@,
    {
        let c = match cert.as_slice() {
            Ok(s) => Cert::new(s),
            Err(_) => Cert::new(&[]),
        };
        CertVerifier { cert: c }
    }

    /// One chain step: checks that `parent` is the current
    /// certificate's authority and that the current certificate's
    /// signature over its DER body verifies under the parent's public
    /// key; on success the walk moves to the parent.
    pub fn add_cert(self, parent: &Cert) -> (r: Result<CertVerifier, Error>)
        ensures
            match r {
                Ok(cv) => spec_add_cert(self@, parent@) == Ok::<Seq<u8>, Error>(cv@),
                Err(e) => spec_add_cert(self@, parent@) == Err::<Seq<u8>, Error>(e),
            },
    {
        let auth = match self.cert.is_authority(parent) {
            Ok(v) => v,
            Err(e) => {
                return Err(chain_err(e));
            },
        };
        if !auth {
            return Err(Error::InvalidAuthKey);
        }
        let der = match self.cert.as_asn1(MAX_ASN1_CERT_SIZE) {
            Ok(v) => v,
            Err(e) => {
                return Err(chain_err(e));
            },
        };
        let pk = match parent.get_pubkey() {
            Ok(v) => v,
            Err(e) => {
                return Err(chain_err(e));
            },
        };
        let sig = match self.cert.get_signature() {
            Ok(v) => v,
            Err(e) => {
                return Err(chain_err(e));
            },
        };
        let digest = sha256(der.as_slice());
        if ecdsa_p256_verify(pk.as_slice(), digest.as_slice(), sig.as_slice()) {
            Ok(CertVerifier::new(parent))
        } else {
            Err(Error::InvalidSignature)
        }
    }

    /// Ends the walk: the last certificate must be self-signed.
    pub fn finalise(self) -> (r: Result<(), Error>)
        ensures
            match r {
                Ok(()) => spec_add_cert(self@, self@) is Ok,
                Err(e) => spec_add_cert(self@, self@) == Err::<Seq<u8>, Error>(e),
            },
    {
        let cert_copy = match self.cert.as_slice() {
            Ok(s) => Cert::new(s),
            Err(_) => Cert::new(&[]),
        };
        match self.add_cert(&cert_copy) {
            Ok(_) => Ok(()),
            Err(e) => Err(e),
        }
    }
}

} // verus!
