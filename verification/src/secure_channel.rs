//! Secure-channel protocol constants and the two canned messages the
//! transport emits on its own: status reports and standalone
//! acknowledgements.

use vstd::prelude::*;

use crate::error::Error;
use crate::packet::{spec_le16, spec_le32, Packet, ProtoHdr};

verus! {

/// Protocol id of the secure channel.
pub const PROTO_ID_SECURE_CHANNEL: u16 = 0x00;

/// Secure-channel opcodes.
#[derive(Clone, Copy, Debug, PartialEq, Eq, Structural)]
pub enum OpCode {
    MsgCounterSyncReq,
    MsgCounterSyncResp,
    MRPStandAloneAck,
    PBKDFParamRequest,
    PBKDFParamResponse,
    PASEPake1,
    PASEPake2,
    PASEPake3,
    CASESigma1,
    CASESigma2,
    CASESigma3,
    CASESigma2Resume,
    StatusReport,
}

impl OpCode {
    /// Wire value of the opcode.
    pub open spec fn spec_num(self) -> u8 {
        match self {
            OpCode::MsgCounterSyncReq => 0x00,
            OpCode::MsgCounterSyncResp => 0x01,
            OpCode::MRPStandAloneAck => 0x10,
            OpCode::PBKDFParamRequest => 0x20,
            OpCode::PBKDFParamResponse => 0x21,
            OpCode::PASEPake1 => 0x22,
            OpCode::PASEPake2 => 0x23,
            OpCode::PASEPake3 => 0x24,
            OpCode::CASESigma1 => 0x30,
            OpCode::CASESigma2 => 0x31,
            OpCode::CASESigma3 => 0x32,
            OpCode::CASESigma2Resume => 0x33,
            OpCode::StatusReport => 0x40,
        }
    }

    /// Wire value of the opcode.
    pub fn num(self) -> (r: u8)
        ensures
            r == self.spec_num(),
    {
        match self {
            OpCode::MsgCounterSyncReq => 0x00,
            OpCode::MsgCounterSyncResp => 0x01,
            OpCode::MRPStandAloneAck => 0x10,
            OpCode::PBKDFParamRequest => 0x20,
            OpCode::PBKDFParamResponse => 0x21,
            OpCode::PASEPake1 => 0x22,
            OpCode::PASEPake2 => 0x23,
            OpCode::PASEPake3 => 0x24,
            OpCode::CASESigma1 => 0x30,
            OpCode::CASESigma2 => 0x31,
            OpCode::CASESigma3 => 0x32,
            OpCode::CASESigma2Resume => 0x33,
            OpCode::StatusReport => 0x40,
        }
    }
}

/// Secure-channel status codes carried by StatusReport messages.
#[derive(Clone, Copy, Debug, PartialEq, Eq, Structural)]
pub enum SCStatusCodes {
    SessionEstablishmentSuccess,
    NoSharedTrustRoots,
    InvalidParameter,
    CloseSession,
    Busy,
    SessionNotFound,
}

impl SCStatusCodes {
    /// Wire value of the status code.
    pub open spec fn spec_num(self) -> u16 {
        match self {
            SCStatusCodes::SessionEstablishmentSuccess => 0,
            SCStatusCodes::NoSharedTrustRoots => 1,
            SCStatusCodes::InvalidParameter => 2,
            SCStatusCodes::CloseSession => 3,
            SCStatusCodes::Busy => 4,
            SCStatusCodes::SessionNotFound => 5,
        }
    }

    /// Wire value of the status code.
    pub fn num(self) -> (r: u16)
        ensures
            r == self.spec_num(),
    {
        match self {
            SCStatusCodes::SessionEstablishmentSuccess => 0,
            SCStatusCodes::NoSharedTrustRoots => 1,
            SCStatusCodes::InvalidParameter => 2,
            SCStatusCodes::CloseSession => 3,
            SCStatusCodes::Busy => 4,
            SCStatusCodes::SessionNotFound => 5,
        }
    }

    /// The general code a status code maps to: zero for success and
    /// session close, one for every failure.
    pub open spec fn spec_general_code(self) -> u16 {
        match self {
            SCStatusCodes::SessionEstablishmentSuccess | SCStatusCodes::CloseSession => 0,
            _ => 1,
        }
    }
}

/// Status-report wire body: general code, protocol id and protocol
/// code, little-endian, followed by any protocol data.
pub open spec fn spec_status_report_body(
    general_code: u16,
    proto_id: u32,
    proto_code: u16,
    data: Seq<u8>,
) -> Seq<u8> {
    spec_le16(general_code) + spec_le32(proto_id) + spec_le16(proto_code) + data
}

/// Fills a packet with a secure-channel status report: protocol id
/// zero, the StatusReport opcode and the status body as payload.
pub fn create_sc_status_report(
    proto_tx: &mut Packet,
    status_code: SCStatusCodes,
    proto_data: Option<&[u8]>,
) -> (r: Result<(), Error>)
    ensures
        r is Ok,
        final(proto_tx).proto == (ProtoHdr {
            proto_id: PROTO_ID_SECURE_CHANNEL,
            proto_opcode: OpCode::StatusReport.spec_num(),
            ..old(proto_tx).proto
        }),
        final(proto_tx).plain == old(proto_tx).plain,
        final(proto_tx).payload@ == spec_status_report_body(
            status_code.spec_general_code(),
            PROTO_ID_SECURE_CHANNEL as u32,
            status_code.spec_num(),
            match proto_data {
                Some(d) => d@,
                None => Seq::empty(),
            },
        ),
{
    proto_tx.set_proto_id(PROTO_ID_SECURE_CHANNEL);
    proto_tx.set_proto_opcode(OpCode::StatusReport.num());
    let general_code: u16 = match status_code {
        SCStatusCodes::SessionEstablishmentSuccess | SCStatusCodes::CloseSession => 0,
        SCStatusCodes::Busy | SCStatusCodes::InvalidParameter | SCStatusCodes::NoSharedTrustRoots
            | SCStatusCodes::SessionNotFound => 1,
    };
    let mut body: Vec<u8> = Vec::new();
    crate::packet::push_le16(&mut body, general_code);
    crate::packet::push_le32(&mut body, PROTO_ID_SECURE_CHANNEL as u32);
    crate::packet::push_le16(&mut body, status_code.num());
    match proto_data {
        Some(d) => {
            let mut i: usize = 0;
            let ghost hdr = body@;
            while i < d.len()
                invariant
                    i <= d@.len(),
                    body@ == hdr + d@.subrange(0, i as int),
                decreases d@.len() - i,
            {
                body.push(d[i]);
                proof {
                    assert(body@ =~= hdr + d@.subrange(0, i + 1));
                }
                i = i + 1;
            }
            proof {
                assert(d@.subrange(0, d@.len() as int) =~= d@);
            }
        },
        None => {},
    }
    proto_tx.payload = body;
    proof {
        assert(final(proto_tx).payload@ =~= spec_status_report_body(
            status_code.spec_general_code(),
            PROTO_ID_SECURE_CHANNEL as u32,
            status_code.spec_num(),
            match proto_data {
                Some(d) => d@,
                None => Seq::empty(),
            },
        ));
    }
    Ok(())
}

/// Fills a packet with a standalone acknowledgement: protocol id zero,
/// the MRPStandAloneAck opcode, no payload and the reliability bit
/// cleared.
pub fn create_mrp_standalone_ack(proto_tx: &mut Packet)
    ensures
        final(proto_tx).proto == (ProtoHdr {
            proto_id: PROTO_ID_SECURE_CHANNEL,
            proto_opcode: OpCode::MRPStandAloneAck.spec_num(),
            is_reliable: false,
            ..old(proto_tx).proto
        }),
        final(proto_tx).plain == old(proto_tx).plain,
        final(proto_tx).payload@ == old(proto_tx).payload@,
{
    proto_tx.set_proto_id(PROTO_ID_SECURE_CHANNEL);
    proto_tx.set_proto_opcode(OpCode::MRPStandAloneAck.num());
    proto_tx.unset_reliable();
}

} // verus!
