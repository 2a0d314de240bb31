//! Packet codec: the Matter message header and payload (protocol)
//! header envelope, little-endian on the wire, with the plain/encrypted
//! split carried alongside the decoded fields.
//!
//! The wire form of each header is defined by spec functions over the
//! decoded records; encoding and parsing are proved inverse to those
//! definitions.

use vstd::prelude::*;

use crate::error::Error;

verus! {

/// Little-endian bytes of a 16-bit value.
pub open spec fn spec_le16(v: u16) -> Seq<u8> {
    seq![(v % 256) as u8, (v / 256) as u8]
}

/// Little-endian bytes of a 32-bit value.
pub open spec fn spec_le32(v: u32) -> Seq<u8> {
    seq![
        (v % 256) as u8,
        (v / 256 % 256) as u8,
        (v / 0x10000 % 256) as u8,
        (v / 0x1000000 % 256) as u8,
    ]
}

/// Little-endian bytes of a 64-bit value.
pub open spec fn spec_le64(v: u64) -> Seq<u8> {
    seq![
        (v % 256) as u8,
        (v / 0x100 % 256) as u8,
        (v / 0x10000 % 256) as u8,
        (v / 0x1000000 % 256) as u8,
        (v / 0x1_0000_0000 % 256) as u8,
        (v / 0x100_0000_0000 % 256) as u8,
        (v / 0x1_0000_0000_0000 % 256) as u8,
        (v / 0x100_0000_0000_0000 % 256) as u8,
    ]
}

/// Appends the little-endian bytes of a 16-bit value.
pub fn push_le16(out: &mut Vec<u8>, v: u16)
    ensures
        final(out)@ == old(out)@ + spec_le16(v),
{
    out.push((v % 256) as u8);
    out.push((v / 256) as u8);
    proof {
        assert(out@ =~= old(out)@ + spec_le16(v));
    }
}

/// Appends the little-endian bytes of a 32-bit value.
pub fn push_le32(out: &mut Vec<u8>, v: u32)
    ensures
        final(out)@ == old(out)@ + spec_le32(v),
{
    out.push((v % 256) as u8);
    out.push((v / 256 % 256) as u8);
    out.push((v / 0x10000 % 256) as u8);
    out.push((v / 0x1000000 % 256) as u8);
    proof {
        assert(out@ =~= old(out)@ + spec_le32(v));
    }
}

/// Appends the little-endian bytes of a 64-bit value.
pub fn push_le64(out: &mut Vec<u8>, v: u64)
    ensures
        final(out)@ == old(out)@ + spec_le64(v),
{
    out.push((v % 256) as u8);
    out.push((v / 0x100 % 256) as u8);
    out.push((v / 0x10000 % 256) as u8);
    out.push((v / 0x1000000 % 256) as u8);
    out.push((v / 0x1_0000_0000 % 256) as u8);
    out.push((v / 0x100_0000_0000 % 256) as u8);
    out.push((v / 0x1_0000_0000_0000 % 256) as u8);
    out.push((v / 0x100_0000_0000_0000 % 256) as u8);
    proof {
        assert(out@ =~= old(out)@ + spec_le64(v));
    }
}

/// Destination of a message: absent, a full 8-byte node id, or a
/// 2-byte group id, per the destination-size flag bits.
#[derive(Clone, Copy, Debug, PartialEq, Eq, Structural)]
pub enum Destination {
    Absent,
    Node(u64),
    Group(u16),
}

/// Decoded Matter message header: 1 byte flags, 2 bytes session id,
/// 1 byte security flags, 4 bytes message counter, then the optional
/// source node id and destination the flags announce.
#[derive(Clone, Copy, Debug, PartialEq, Eq, Structural)]
pub struct PlainHdr {
    pub sess_id: u16,
    pub sec_flags: u8,
    pub ctr: u32,
    pub src_nodeid: Option<u64>,
    pub dst: Destination,
}

/// The flags byte a header encodes to: bit 2 announces a source node
/// id, the destination-size bits a node-id or group destination.
pub open spec fn spec_plain_flags(h: PlainHdr) -> u8 {
    ((if h.src_nodeid is Some {
        4u8
    } else {
        0u8
    }) + (match h.dst {
        Destination::Absent => 0u8,
        Destination::Node(_) => 1u8,
        Destination::Group(_) => 2u8,
    })) as u8
}

/// Wire bytes of the message header.
pub open spec fn spec_plain_hdr_bytes(h: PlainHdr) -> Seq<u8> {
    seq![spec_plain_flags(h)] + spec_le16(h.sess_id) + seq![h.sec_flags] + spec_le32(h.ctr) + (
    match h.src_nodeid {
        Some(n) => spec_le64(n),
        None => Seq::empty(),
    }) + (match h.dst {
        Destination::Absent => Seq::empty(),
        Destination::Node(n) => spec_le64(n),
        Destination::Group(g) => spec_le16(g),
    })
}

/// Decoded payload (protocol) header: exchange flags, opcode, exchange
/// id, protocol id and the acknowledged counter when present.
#[derive(Clone, Copy, Debug, PartialEq, Eq, Structural)]
pub struct ProtoHdr {
    pub exch_id: u16,
    pub proto_id: u16,
    pub proto_opcode: u8,
    pub ack_ctr: Option<u32>,
    pub is_initiator: bool,
    pub is_reliable: bool,
}

/// The exchange-flags byte: initiator, acknowledgement-present and
/// reliability bits.
pub open spec fn spec_proto_flags(h: ProtoHdr) -> u8 {
    ((if h.is_initiator {
        1u8
    } else {
        0u8
    }) + (if h.ack_ctr is Some {
        2u8
    } else {
        0u8
    }) + (if h.is_reliable {
        4u8
    } else {
        0u8
    })) as u8
}

/// Wire bytes of the payload header.
pub open spec fn spec_proto_hdr_bytes(h: ProtoHdr) -> Seq<u8> {
    seq![spec_proto_flags(h), h.proto_opcode] + spec_le16(h.exch_id) + spec_le16(h.proto_id) + (
    match h.ack_ctr {
        Some(a) => spec_le32(a),
        None => Seq::empty(),
    })
}

/// One message in decoded form: the plaintext header, the protocol
/// header and the application payload.
#[derive(Debug)]
pub struct Packet {
    pub plain: PlainHdr,
    pub proto: ProtoHdr,
    pub payload: Vec<u8>,
}

impl Packet {
    /// An empty outbound packet.
    pub fn new_tx() -> (r: Packet)
        ensures
            r.plain == (PlainHdr {
                sess_id: 0u16,
                sec_flags: 0u8,
                ctr: 0u32,
                src_nodeid: None::<u64>,
                dst: Destination::Absent,
            }),
            r.proto == (ProtoHdr {
                exch_id: 0u16,
                proto_id: 0u16,
                proto_opcode: 0u8,
                ack_ctr: None::<u32>,
                is_initiator: false,
                is_reliable: false,
            }),
            r.payload@ == Seq::<u8>::empty(),
    {
        let r = Packet {
            plain: PlainHdr { sess_id: 0, sec_flags: 0, ctr: 0, src_nodeid: None, dst: Destination::Absent },
            proto: ProtoHdr {
                exch_id: 0,
                proto_id: 0,
                proto_opcode: 0,
                ack_ctr: None,
                is_initiator: false,
                is_reliable: false,
            },
            payload: Vec::new(),
        };
        proof {
            assert(r.payload@ =~= Seq::<u8>::empty());
        }
        r
    }

    /// Sets the protocol id.
    pub fn set_proto_id(&mut self, proto_id: u16)
        ensures
            *final(self) == (Packet {
                proto: ProtoHdr { proto_id, ..old(self).proto },
                ..*old(self)
            }),
    {
        self.proto.proto_id = proto_id;
    }

    /// Sets the protocol opcode.
    pub fn set_proto_opcode(&mut self, opcode: u8)
        ensures
            *final(self) == (Packet {
                proto: ProtoHdr { proto_opcode: opcode, ..old(self).proto },
                ..*old(self)
            }),
    {
        self.proto.proto_opcode = opcode;
    }

    /// Marks the packet as an exchange initiator's.
    pub fn set_initiator(&mut self)
        ensures
            *final(self) == (Packet {
                proto: ProtoHdr { is_initiator: true, ..old(self).proto },
                ..*old(self)
            }),
    {
        self.proto.is_initiator = true;
    }

    /// Clears the reliability bit: the message needs no acknowledgement.
    pub fn unset_reliable(&mut self)
        ensures
            *final(self) == (Packet {
                proto: ProtoHdr { is_reliable: false, ..old(self).proto },
                ..*old(self)
            }),
    {
        self.proto.is_reliable = false;
    }

    /// Encodes the plaintext message header.
    pub fn encode_plain_hdr(&self) -> (r: Vec<u8>)
        ensures
            r@ == spec_plain_hdr_bytes(self.plain),
    {
        let mut out: Vec<u8> = Vec::new();
        let flags: u8 = (match self.plain.src_nodeid {
            Some(_) => 4u8,
            None => 0u8,
        }) + (match self.plain.dst {
            Destination::Absent => 0u8,
            Destination::Node(_) => 1u8,
            Destination::Group(_) => 2u8,
        });
        out.push(flags);
        push_le16(&mut out, self.plain.sess_id);
        out.push(self.plain.sec_flags);
        push_le32(&mut out, self.plain.ctr);
        match self.plain.src_nodeid {
            Some(n) => push_le64(&mut out, n),
            None => {},
        }
        match self.plain.dst {
            Destination::Absent => {},
            Destination::Node(n) => push_le64(&mut out, n),
            Destination::Group(g) => push_le16(&mut out, g),
        }
        proof {
            assert(out@ =~= spec_plain_hdr_bytes(self.plain));
        }
        out
    }

    /// Encodes the payload header followed by the application payload:
    /// what encryption covers, or what follows the message header in
    /// plaintext.
    pub fn encode_proto(&self) -> (r: Vec<u8>)
        ensures
            r@ == spec_proto_hdr_bytes(self.proto) + self.payload@,
    {
        let mut out: Vec<u8> = Vec::new();
        let flags: u8 = (if self.proto.is_initiator {
            1u8
        } else {
            0u8
        }) + (match self.proto.ack_ctr {
            Some(_) => 2u8,
            None => 0u8,
        }) + (if self.proto.is_reliable {
            4u8
        } else {
            0u8
        });
        out.push(flags);
        out.push(self.proto.proto_opcode);
        push_le16(&mut out, self.proto.exch_id);
        push_le16(&mut out, self.proto.proto_id);
        match self.proto.ack_ctr {
            Some(a) => push_le32(&mut out, a),
            None => {},
        }
        let mut i: usize = 0;
        let ghost hdr = out@;
        while i < self.payload.len()
            invariant
                i <= self.payload@.len(),
                out@ == hdr + self.payload@.subrange(0, i as int),
            decreases self.payload@.len() - i,
        {
            out.push(self.payload[i]);
            proof {
                assert(out@ =~= hdr + self.payload@.subrange(0, i + 1));
            }
            i = i + 1;
        }
        proof {
            assert(self.payload@.subrange(0, self.payload@.len() as int) =~= self.payload@);
            assert(out@ =~= spec_proto_hdr_bytes(self.proto) + self.payload@);
        }
        out
    }

    /// The 13-byte AES-CCM nonce of this message: a zero byte, the
    /// counter, then the source node id or zero.
    pub fn ccm_nonce(&self) -> (r: Vec<u8>)
        ensures
            r@ == spec_ccm_nonce(self.plain),
            r@.len() == 13,
    {
        plain_ccm_nonce(&self.plain)
    }
}

/// The 13-byte AES-CCM nonce of a message header: a zero byte, the
/// counter, then the source node id or zero.
pub open spec fn spec_ccm_nonce(h: PlainHdr) -> Seq<u8> {
    seq![0u8] + spec_le32(h.ctr) + spec_le64(
        match h.src_nodeid {
            Some(n) => n,
            None => 0u64,
        },
    )
}

/// The 13-byte AES-CCM nonce of a message header.
pub fn plain_ccm_nonce(h: &PlainHdr) -> (r: Vec<u8>)
    ensures
        r@ == spec_ccm_nonce(*h),
        r@.len() == 13,
{
    let mut out: Vec<u8> = Vec::new();
    out.push(0);
    push_le32(&mut out, h.ctr);
    match h.src_nodeid {
        Some(n) => push_le64(&mut out, n),
        None => push_le64(&mut out, 0),
    }
    proof {
        assert(out@ =~= spec_ccm_nonce(*h));
    }
    out
}

/// Whether a buffer starts with a well-formed message header: enough
/// bytes for the fixed part and the node ids its flags announce, and no
/// unsupported flag bits.
pub open spec fn spec_plain_parseable(b: Seq<u8>) -> bool {
    &&& b.len() >= 8
    &&& b[0] < 8
    &&& b[0] % 4 < 3
    &&& b.len() >= spec_plain_consumed(b)
}

/// Bytes a well-formed message header occupies.
pub open spec fn spec_plain_consumed(b: Seq<u8>) -> int {
    8 + (if b.len() >= 1 && b[0] >= 4 {
        8int
    } else {
        0int
    }) + (if b.len() >= 1 && b[0] % 4 == 1 {
        8int
    } else if b.len() >= 1 && b[0] % 4 == 2 {
        2int
    } else {
        0int
    })
}

/// Parses the message header at the front of a buffer.  On success the
/// returned header re-encodes to exactly the consumed bytes.
#[verifier::rlimit(100)]
pub fn parse_plain_hdr(buf: &[u8]) -> (r: Result<(PlainHdr, usize), Error>)
    ensures
        match r {
            Ok((h, consumed)) => spec_plain_parseable(buf@) && consumed == spec_plain_consumed(
                buf@,
            ) && consumed <= buf@.len() && spec_plain_hdr_bytes(h) == buf@.subrange(
                0,
                consumed as int,
            ),
            Err(e) => e == Error::InvalidData && !spec_plain_parseable(buf@),
        },
{
    if buf.len() < 8 {
        return Err(Error::InvalidData);
    }
    let flags = buf[0];
    if flags >= 8 || flags % 4 >= 3 {
        return Err(Error::InvalidData);
    }
    let has_src = flags >= 4;
    let dsiz = flags % 4;
    let consumed: usize = 8 + (if has_src {
        8
    } else {
        0
    }) + (if dsiz == 1 {
        8
    } else if dsiz == 2 {
        2
    } else {
        0
    });
    if buf.len() < consumed {
        return Err(Error::InvalidData);
    }
    let sess_id = read_le16(buf, 1);
    let sec_flags = buf[3];
    let ctr = read_le32(buf, 4);
    let mut pos: usize = 8;
    let src_nodeid: Option<u64> = if has_src {
        let v = read_le64(buf, pos);
        pos = pos + 8;
        Some(v)
    } else {
        None
    };
    let dst: Destination = if dsiz == 1 {
        let v = read_le64(buf, pos);
        pos = pos + 8;
        Destination::Node(v)
    } else if dsiz == 2 {
        let v = read_le16(buf, pos);
        pos = pos + 2;
        Destination::Group(v)
    } else {
        Destination::Absent
    };
    let h = PlainHdr { sess_id, sec_flags, ctr, src_nodeid, dst };
    proof {
        assert(spec_plain_hdr_bytes(h) =~= buf@.subrange(0, consumed as int));
    }
    Ok((h, consumed))
}

/// Little-endian value of eight bytes at a position.
#[verifier::loop_isolation(false)]
#[verifier::rlimit(100)]
fn read_le64(buf: &[u8], pos: usize) -> (r: u64)
    requires
        pos + 8 <= buf@.len(),
    ensures
        spec_le64(r) == buf@.subrange(pos as int, pos + 8),
{
    let blen = buf.len();
    proof {
        assert(buf@.len() == blen);
    }
    let mut v: u64 = 0;
    let mut i: usize = 8;
    while i > 0
        invariant
            i <= 8,
            pos + 8 <= buf@.len(),
            v < crate::tlv::pow256(8 - i as int),
            v == crate::tlv::spec_le_val(buf@, pos + i as int, 8 - i as int),
        decreases i,
    {
        proof {
            crate::tlv::lemma_pow256_vals();
            crate::tlv::lemma_pow256_mono(8 - i as int, 7);
        }
        i = i - 1;
        v = v * 256 + (buf[pos + i] as u64);
        proof {
            crate::tlv::lemma_le_val_bound(buf@, pos + i as int, 8 - i as int);
        }
    }
    proof {
        crate::tlv::lemma_pow256_vals();
        lemma_le64_inverse(buf@, pos as int, v);
    }
    v
}

/// A value read as eight little-endian bytes re-encodes to those bytes.
#[verifier::rlimit(100)]
proof fn lemma_le64_inverse(b: Seq<u8>, pos: int, v: u64)
    requires
        0 <= pos,
        pos + 8 <= b.len(),
        v == crate::tlv::spec_le_val(b, pos, 8),
    ensures
        spec_le64(v) == b.subrange(pos, pos + 8),
{
    crate::tlv::lemma_le_val_bound(b, pos, 8);
    crate::tlv::lemma_pow256_vals();
    assert(spec_le64(v) =~= b.subrange(pos, pos + 8)) by {
        assert forall|k: int| 0 <= k < 8 implies spec_le64(v)[k] == b[pos + k] by {
            lemma_le_val_digits(b, pos, 8, k);
            crate::tlv::lemma_pow256_vals();
        }
    }
}

/// A value read as two little-endian bytes re-encodes to those bytes.
proof fn lemma_le16_inverse(b: Seq<u8>, pos: int, v: u16)
    requires
        0 <= pos,
        pos + 2 <= b.len(),
        v == crate::tlv::spec_le_val(b, pos, 2),
    ensures
        spec_le16(v) == b.subrange(pos, pos + 2),
{
    crate::tlv::lemma_le_val_bound(b, pos, 2);
    crate::tlv::lemma_pow256_vals();
    assert(spec_le16(v) =~= b.subrange(pos, pos + 2)) by {
        assert forall|k: int| 0 <= k < 2 implies spec_le16(v)[k] == b[pos + k] by {
            lemma_le_val_digits(b, pos, 2, k);
        }
    }
}

/// A value read as four little-endian bytes re-encodes to those bytes.
proof fn lemma_le32_inverse(b: Seq<u8>, pos: int, v: u32)
    requires
        0 <= pos,
        pos + 4 <= b.len(),
        v == crate::tlv::spec_le_val(b, pos, 4),
    ensures
        spec_le32(v) == b.subrange(pos, pos + 4),
{
    crate::tlv::lemma_le_val_bound(b, pos, 4);
    crate::tlv::lemma_pow256_vals();
    assert(spec_le32(v) =~= b.subrange(pos, pos + 4)) by {
        assert forall|k: int| 0 <= k < 4 implies spec_le32(v)[k] == b[pos + k] by {
            lemma_le_val_digits(b, pos, 4, k);
        }
    }
}

/// Little-endian value of two bytes at a position.
fn read_le16(buf: &[u8], pos: usize) -> (r: u16)
    requires
        pos + 2 <= buf@.len(),
    ensures
        spec_le16(r) == buf@.subrange(pos as int, pos + 2),
{
    let v = (buf[pos] as u16) + 256 * (buf[pos + 1] as u16);
    proof {
        assert(crate::tlv::spec_le_val(buf@, pos + 2int, 0) == 0);
        assert(crate::tlv::spec_le_val(buf@, pos + 1int, 1) == buf@[pos + 1int]);
        assert(v == crate::tlv::spec_le_val(buf@, pos as int, 2));
        lemma_le16_inverse(buf@, pos as int, v);
    }
    v
}

/// Little-endian value of four bytes at a position.
fn read_le32(buf: &[u8], pos: usize) -> (r: u32)
    requires
        pos + 4 <= buf@.len(),
    ensures
        spec_le32(r) == buf@.subrange(pos as int, pos + 4),
{
    let v = (buf[pos] as u32) + 0x100 * (buf[pos + 1] as u32) + 0x10000 * (buf[pos + 2] as u32)
        + 0x1000000 * (buf[pos + 3] as u32);
    proof {
        assert(crate::tlv::spec_le_val(buf@, pos + 4int, 0) == 0);
        assert(crate::tlv::spec_le_val(buf@, pos + 3int, 1) == buf@[pos + 3int]);
        assert(crate::tlv::spec_le_val(buf@, pos + 2int, 2) == buf@[pos + 2int] + 0x100
            * buf@[pos + 3int]);
        assert(crate::tlv::spec_le_val(buf@, pos + 1int, 3) == buf@[pos + 1int] + 0x100
            * buf@[pos + 2int] + 0x10000 * buf@[pos + 3int]);
        assert(v == crate::tlv::spec_le_val(buf@, pos as int, 4));
        lemma_le32_inverse(buf@, pos as int, v);
    }
    v
}

/// Digit extraction from a little-endian value: dividing by the right
/// power of 256 recovers each byte.
proof fn lemma_le_val_digits(b: Seq<u8>, pos: int, len: int, k: int)
    requires
        0 <= pos,
        0 <= k < len,
        pos + len <= b.len(),
    ensures
        crate::tlv::spec_le_val(b, pos, len) / crate::tlv::pow256(k) % 256 == b[pos + k],
    decreases k,
{
    crate::tlv::lemma_pow256_vals();
    if k == 0 {
        crate::tlv::lemma_le_val_bound(b, pos + 1, len - 1);
        assert(crate::tlv::spec_le_val(b, pos, len) == b[pos] + 256 * crate::tlv::spec_le_val(
            b,
            pos + 1,
            len - 1,
        ));
        assert((b[pos] + 256 * crate::tlv::spec_le_val(b, pos + 1, len - 1)) % 256 == b[pos]) by {
            vstd::arithmetic::div_mod::lemma_mod_multiples_vanish(
                crate::tlv::spec_le_val(b, pos + 1, len - 1),
                b[pos] as int,
                256,
            );
        }
        assert(crate::tlv::pow256(0) == 1);
    } else {
        lemma_le_val_digits(b, pos + 1, len - 1, k - 1);
        crate::tlv::lemma_le_val_bound(b, pos + 1, len - 1);
        let rest = crate::tlv::spec_le_val(b, pos + 1, len - 1);
        assert(crate::tlv::spec_le_val(b, pos, len) == b[pos] + 256 * rest);
        assert(crate::tlv::pow256(k) == 256 * crate::tlv::pow256(k - 1));
        assert((b[pos] + 256 * rest) / crate::tlv::pow256(k) == rest / crate::tlv::pow256(k - 1))
            by {
            assert((b[pos] + 256 * rest) / (256 * crate::tlv::pow256(k - 1)) == ((b[pos] + 256
                * rest) / 256) / crate::tlv::pow256(k - 1)) by {
                crate::tlv::lemma_pow256_pos(k - 1);
                vstd::arithmetic::div_mod::lemma_div_denominator(
                    b[pos] + 256 * rest,
                    256,
                    crate::tlv::pow256(k - 1),
                );
            }
            assert((b[pos] + 256 * rest) / 256 == rest) by {
                vstd::arithmetic::div_mod::lemma_div_multiples_vanish_fancy(
                    rest,
                    b[pos] as int,
                    256,
                );
            }
        }
    }
}

/// The exchange id field of a payload header's raw bytes.
pub open spec fn spec_proto_exch_id(b: Seq<u8>) -> u16 {
    (b[2] + b[3] * 0x100) as u16
}

/// The initiator bit of a payload header's raw bytes.
pub open spec fn spec_proto_is_initiator(b: Seq<u8>) -> bool {
    b[0] % 2 == 1
}

/// Whether a buffer is a well-formed payload header followed by the
/// application payload: enough bytes for the fixed part and any
/// acknowledged counter, and no unsupported flag bits.
pub open spec fn spec_proto_parseable(b: Seq<u8>) -> bool {
    &&& b.len() >= 6
    &&& b[0] < 8
    &&& (b[0] == 2 || b[0] == 3 || b[0] == 6 || b[0] == 7 ==> b.len() >= 10)
}

/// Parses the payload header at the front of a buffer; the rest is the
/// application payload.  On success the returned header and payload
/// re-encode to exactly the input bytes.
#[verifier::rlimit(100)]
#[verifier::loop_isolation(false)]
pub fn parse_proto(buf: &[u8]) -> (r: Result<Packet, Error>)
    ensures
        match r {
            Ok(p) => spec_proto_parseable(buf@) && spec_proto_hdr_bytes(p.proto) + p.payload@
                == buf@ && p.proto.exch_id == spec_proto_exch_id(buf@) && p.proto.is_initiator
                == spec_proto_is_initiator(buf@) && p.plain == (PlainHdr {
                sess_id: 0u16,
                sec_flags: 0u8,
                ctr: 0u32,
                src_nodeid: None::<u64>,
                dst: Destination::Absent,
            }),
            Err(e) => e == Error::InvalidData && !spec_proto_parseable(buf@),
        },
{
    if buf.len() < 6 {
        return Err(Error::InvalidData);
    }
    let flags = buf[0];
    if flags >= 8 {
        return Err(Error::InvalidData);
    }
    let is_initiator = flags % 2 == 1;
    let has_ack = flags / 2 % 2 == 1;
    let is_reliable = flags / 4 % 2 == 1;
    let opcode = buf[1];
    let exch_id = read_le16(buf, 2);
    let proto_id = read_le16(buf, 4);
    let mut pos: usize = 6;
    let ack_ctr: Option<u32> = if has_ack {
        if buf.len() < 10 {
            return Err(Error::InvalidData);
        }
        let a = read_le32(buf, 6);
        pos = 10;
        Some(a)
    } else {
        None
    };
    let mut payload: Vec<u8> = Vec::new();
    let mut i: usize = pos;
    while i < buf.len()
        invariant
            pos <= i <= buf@.len(),
            payload@ == buf@.subrange(pos as int, i as int),
        decreases buf@.len() - i,
    {
        payload.push(buf[i]);
        proof {
            assert(payload@ =~= buf@.subrange(pos as int, i + 1));
        }
        i = i + 1;
    }
    let proto = ProtoHdr { exch_id, proto_id, proto_opcode: opcode, ack_ctr, is_initiator, is_reliable };
    let p = Packet {
        plain: PlainHdr { sess_id: 0, sec_flags: 0, ctr: 0, src_nodeid: None, dst: Destination::Absent },
        proto,
        payload,
    };
    proof {
        assert(spec_proto_hdr_bytes(p.proto) + p.payload@ =~= buf@);
    }
    Ok(p)
}

} // verus!
