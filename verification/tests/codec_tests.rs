//! Codec tests: compact-TLV reading and writing, the ASN.1/DER writer
//! including its determinism under a fixed script, the packet header
//! round trip, and the canned secure-channel messages.

use matter::asn1_writer::ASN1Writer;
use matter::error::Error;
use matter::packet::{parse_plain_hdr, parse_proto, Destination, Packet, PlainHdr, ProtoHdr};
use matter::secure_channel::{create_mrp_standalone_ack, create_sc_status_report, SCStatusCodes};
use matter::session::{Address, Session, SessionMode};
use matter::cert::Cert;
use matter::tlv::{
    elem_bool, elem_u16, elem_u64, find_tag, get_root_node_struct, ElemType, TLVWriter,
};

#[test]
fn test_tlv_reader_basics() {
    // {1: u8 7, 2: u16 0x1234, 3: bool true, 4: octets [9, 9]}
    let buf: Vec<u8> = vec![
        0x15, 0x24, 0x01, 0x07, 0x25, 0x02, 0x34, 0x12, 0x29, 0x03, 0x30, 0x04, 0x02, 0x09, 0x09,
        0x18,
    ];
    let root = get_root_node_struct(&buf).unwrap();
    assert_eq!(root.etype, ElemType::Struct);
    let e1 = find_tag(&buf, root.vstart, 1).unwrap();
    assert_eq!(elem_u64(&buf, &e1).unwrap(), 7);
    let e2 = find_tag(&buf, root.vstart, 2).unwrap();
    assert_eq!(elem_u16(&buf, &e2).unwrap(), 0x1234);
    // A narrower read than the stored width is refused.
    assert_eq!(
        matter::tlv::elem_u8(&buf, &e2),
        Err(Error::TLVTypeMismatch)
    );
    let e3 = find_tag(&buf, root.vstart, 3).unwrap();
    assert_eq!(elem_bool(&buf, &e3).unwrap(), true);
    let e4 = find_tag(&buf, root.vstart, 4).unwrap();
    assert_eq!(matter::tlv::elem_bytes(&buf, &e4).unwrap(), vec![9, 9]);
    // A missing tag is an error.
    assert_eq!(find_tag(&buf, root.vstart, 9), Err(Error::Invalid));
}

#[test]
fn test_tlv_writer_reader_roundtrip() {
    let mut tw = TLVWriter::new();
    tw.put_start_struct_anon();
    tw.put_str8(1, &[0xde, 0xad]).unwrap();
    tw.put_u16(2, 513);
    tw.put_u32(3, 70000);
    tw.put_end_container();
    let buf = tw.buf;
    let root = get_root_node_struct(&buf).unwrap();
    let e1 = find_tag(&buf, root.vstart, 1).unwrap();
    assert_eq!(matter::tlv::elem_bytes(&buf, &e1).unwrap(), vec![0xde, 0xad]);
    let e2 = find_tag(&buf, root.vstart, 2).unwrap();
    assert_eq!(elem_u16(&buf, &e2).unwrap(), 513);
    let e3 = find_tag(&buf, root.vstart, 3).unwrap();
    assert_eq!(matter::tlv::elem_u32(&buf, &e3).unwrap(), 70000);
}

fn run_der_script(w: &mut ASN1Writer) {
    w.start_seq().unwrap();
    w.integer(&[0x05]).unwrap();
    w.start_set().unwrap();
    w.utf8str(b"DER").unwrap();
    w.end_set().unwrap();
    w.bitstr(true, &[0x60, 0x00]).unwrap();
    w.ostr(&[1, 2, 3]).unwrap();
    w.bool_val(true).unwrap();
    w.end_seq().unwrap();
}

#[test]
fn test_asn1_writer_fixed_script() {
    let mut w = ASN1Writer::new(128);
    run_der_script(&mut w);
    let expected: Vec<u8> = vec![
        0x30, 0x16, 0x02, 0x01, 0x05, 0x31, 0x05, 0x0c, 0x03, 0x44, 0x45, 0x52, 0x03, 0x02, 0x05,
        0x60, 0x04, 0x03, 0x01, 0x02, 0x03, 0x01, 0x01, 0xff,
    ];
    assert_eq!(w.as_slice(), &expected[..]);
    // Determinism: the same script yields byte-identical output.
    let mut w2 = ASN1Writer::new(128);
    run_der_script(&mut w2);
    assert_eq!(w.as_slice(), w2.as_slice());
}

#[test]
fn test_asn1_writer_failures() {
    // Closing with nothing open is invalid.
    let mut w = ASN1Writer::new(64);
    assert_eq!(w.end_seq(), Err(Error::Invalid));
    // A buffer too small for the reserved length bytes runs out.
    let mut w2 = ASN1Writer::new(3);
    assert_eq!(w2.start_seq(), Err(Error::NoSpace));
}

#[test]
fn test_asn1_utctime() {
    let mut w = ASN1Writer::new(64);
    w.utctime(0).unwrap();
    let mut expected: Vec<u8> = vec![0x17, 13];
    expected.extend_from_slice(b"000101000000Z");
    assert_eq!(w.as_slice(), &expected[..]);
}

#[test]
fn test_plain_hdr_roundtrip() {
    let mut p = Packet::new_tx();
    p.plain = PlainHdr {
        sess_id: 0x1234,
        sec_flags: 0,
        ctr: 0xdeadbeef,
        src_nodeid: Some(0x1122334455667788),
        dst: Destination::Node(0xa1a2a3a4a5a6a7a8),
    };
    let bytes = p.encode_plain_hdr();
    let (h, consumed) = parse_plain_hdr(&bytes).unwrap();
    assert_eq!(consumed, bytes.len());
    assert_eq!(h, p.plain);
    // The two-byte group destination form round-trips too.
    p.plain.dst = Destination::Group(0xfe05);
    let bytes2 = p.encode_plain_hdr();
    let (h2, consumed2) = parse_plain_hdr(&bytes2).unwrap();
    assert_eq!(consumed2, bytes2.len());
    assert_eq!(h2, p.plain);
}

#[test]
fn test_proto_hdr_roundtrip() {
    let mut p = Packet::new_tx();
    p.proto = ProtoHdr {
        exch_id: 77,
        proto_id: 1,
        proto_opcode: 0x20,
        ack_ctr: Some(9),
        is_initiator: true,
        is_reliable: true,
    };
    p.payload = vec![1, 2, 3, 4];
    let bytes = p.encode_proto();
    let q = parse_proto(&bytes).unwrap();
    assert_eq!(q.proto, p.proto);
    assert_eq!(q.payload, p.payload);
    // A truncated buffer is rejected.
    assert_eq!(parse_proto(&bytes[..3]).map(|_| ()), Err(Error::InvalidData));
}

#[test]
fn test_status_report_bytes() {
    let mut p = Packet::new_tx();
    create_sc_status_report(&mut p, SCStatusCodes::CloseSession, None).unwrap();
    assert_eq!(p.proto.proto_opcode, 0x40);
    assert_eq!(p.proto.proto_id, 0);
    // CloseSession maps to the success general code.
    assert_eq!(p.payload, vec![0, 0, 0, 0, 0, 0, 3, 0]);

    let mut p2 = Packet::new_tx();
    create_sc_status_report(&mut p2, SCStatusCodes::InvalidParameter, Some(&[7])).unwrap();
    assert_eq!(p2.payload, vec![1, 0, 0, 0, 0, 0, 2, 0, 7]);
}

#[test]
fn test_standalone_ack() {
    let mut p = Packet::new_tx();
    p.proto.is_reliable = true;
    create_mrp_standalone_ack(&mut p);
    assert_eq!(p.proto.proto_opcode, 0x10);
    assert_eq!(p.proto.proto_id, 0);
    assert!(!p.proto.is_reliable);
}

#[test]
fn test_session_send_plaintext_frame() {
    let s = Session::new(5, Address { ip: 1, port: 2 });
    let mut p = Packet::new_tx();
    p.plain.ctr = 1;
    p.proto.proto_opcode = 0x20;
    p.payload = vec![0xab];
    let wire = s.send(&p).unwrap();
    // Message header (8 bytes) followed by the protocol header and
    // payload, all in the clear on a plaintext session.
    assert_eq!(&wire[0..8], &[0, 0, 0, 0, 1, 0, 0, 0]);
    assert_eq!(&wire[8..], &[0x00, 0x20, 0, 0, 0, 0, 0xab]);
}

#[test]
fn test_cert_query_errors() {
    let c = Cert::new(&[]);
    assert_eq!(c.as_asn1(256).map(|_| ()), Err(Error::InvalidData));
    assert_eq!(c.get_node_id(), Err(Error::InvalidData));
    // A struct with no subject yields the lookup error.
    let c2 = Cert::new(&[0x15, 0x18]);
    assert_eq!(c2.get_node_id(), Err(Error::Invalid));
    assert_eq!(c2.get_pubkey().map(|_| ()), Err(Error::Invalid));
}

#[test]
fn test_cert_identity_queries() {
    // The subject of this certificate names node 0xbc5c02 on fabric 1.
    let noc: Vec<u8> = vec![
        0x15, 0x30, 0x1, 0x1, 0x1, 0x24, 0x2, 0x1, 0x37, 0x3, 0x24, 0x13, 0x1, 0x24, 0x15, 0x1,
        0x18, 0x26, 0x4, 0x80, 0x22, 0x81, 0x27, 0x26, 0x5, 0x80, 0x25, 0x4d, 0x3a, 0x37, 0x6,
        0x26, 0x11, 0x2, 0x5c, 0xbc, 0x0, 0x24, 0x15, 0x1, 0x18, 0x24, 0x7, 0x1, 0x24, 0x8, 0x1,
        0x30, 0x9, 0x2, 0xaa, 0xbb, 0x37, 0xa, 0x18, 0x18,
    ];
    let c = Cert::new(&noc);
    assert_eq!(c.get_node_id().unwrap(), 0xbc5c02);
    assert_eq!(c.get_fabric_id().unwrap(), 1);
    assert_eq!(c.get_pubkey().unwrap(), vec![0xaa, 0xbb]);
}
