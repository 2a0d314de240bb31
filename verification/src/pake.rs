//! PASE secure-channel handlers, verifier role: PBKDFParamRequest
//! produces the parameter response and a fresh SPAKE2+ engine seeded
//! with both messages as context, PASEPake1 produces the verifier share
//! and confirmation tag, and PASEPake3 checks the prover's tag and
//! hands out the derived session keys.
//!
//! The handlers parse and build compact-TLV payloads; what they emit is
//! specified exactly over the parsed request fields and the engine's
//! state.

use vstd::prelude::*;

use crate::crypto::fill_random;
use crate::error::Error;
use crate::spake2p::{spec_context_prefix, Spake2Mode, Spake2P};
use crate::tlv::{
    elem_bool, elem_bytes, elem_u16, find_tag, get_root_node_struct, spec_find_tag,
    spec_parse_elem, ElemType, TLVWriter, TagType,
};


verus! {

/// PBKDF2 iteration count used by this node.
pub const ITERATION_COUNT: u32 = 2000;

/// The commissioning passcode this node is provisioned with.
pub const SPAKE2_PASSWORD: u32 = 123456;

/// Length of the initiator and responder random values.
pub const PBKDF_RANDOM_LEN: usize = 32;

/// A parsed PBKDFParamRequest.
#[derive(Debug)]
pub struct PBKDFParamReq {
    pub initiator_random: Vec<u8>,
    pub initiator_sessid: u16,
    pub passcode_id: u16,
    pub has_params: bool,
}

impl PBKDFParamReq {
    /// A request record; the initiator random must be 32 bytes.
    pub fn new(
        initiator_random_ref: &[u8],
        initiator_sessid: u16,
        passcode_id: u16,
        has_params: bool,
    ) -> (r: Option<PBKDFParamReq>)
        ensures
            match r {
                Some(req) => initiator_random_ref@.len() == PBKDF_RANDOM_LEN
                    && req.initiator_random@ == initiator_random_ref@ && req.initiator_sessid
                    == initiator_sessid && req.passcode_id == passcode_id && req.has_params
                    == has_params,
                None => initiator_random_ref@.len() != PBKDF_RANDOM_LEN,
            },
    {
        if initiator_random_ref.len() != PBKDF_RANDOM_LEN {
            None
        } else {
            Some(
                PBKDFParamReq {
                    initiator_random: vstd::slice::slice_to_vec(initiator_random_ref),
                    initiator_sessid,
                    passcode_id,
                    has_params,
                },
            )
        }
    }
}

/// Value bytes of a string element under `tag` among the root's
/// children of a payload.
pub open spec fn spec_payload_slice(b: Seq<u8>, tag: u8) -> Option<Seq<u8>> {
    match spec_parse_elem(b, 0) {
        None => None,
        Some(root) => {
            if root.etype != ElemType::Struct || root.tag != TagType::Anonymous {
                None
            } else {
                match spec_find_tag(b, root.vstart, tag) {
                    None => None,
                    Some(e) => {
                        if !e.etype.is_str() {
                            None
                        } else {
                            Some(b.subrange(e.vstart, e.vstart + e.vlen))
                        }
                    },
                }
            }
        },
    }
}

/// Truth value of a boolean element under `tag` among the root's
/// children of a payload.
pub open spec fn spec_payload_bool(b: Seq<u8>, tag: u8) -> Option<bool> {
    match spec_parse_elem(b, 0) {
        None => None,
        Some(root) => {
            if root.etype != ElemType::Struct || root.tag != TagType::Anonymous {
                None
            } else {
                match spec_find_tag(b, root.vstart, tag) {
                    None => None,
                    Some(e) => {
                        if e.etype == ElemType::BoolTrue {
                            Some(true)
                        } else if e.etype == ElemType::BoolFalse {
                            Some(false)
                        } else {
                            None
                        }
                    },
                }
            }
        },
    }
}

/// Value of an unsigned element of at most sixteen bits under `tag`
/// among the root's children of a payload.
pub open spec fn spec_payload_u16(b: Seq<u8>, tag: u8) -> Option<u16> {
    match spec_parse_elem(b, 0) {
        None => None,
        Some(root) => {
            if root.etype != ElemType::Struct || root.tag != TagType::Anonymous {
                None
            } else {
                match spec_find_tag(b, root.vstart, tag) {
                    None => None,
                    Some(e) => {
                        if e.etype == ElemType::UInt8 || e.etype == ElemType::UInt16 {
                            Some(crate::tlv::spec_le_val(b, e.vstart, e.vlen) as u16)
                        } else {
                            None
                        }
                    },
                }
            }
        },
    }
}

/// The PBKDFParamResponse body for the given fields: initiator random,
/// our random, our session id, and, when the initiator had no
/// parameters, the iteration count and salt.
pub open spec fn spec_pbkdfparam_resp(
    initiator_random: Seq<u8>,
    our_random: Seq<u8>,
    sessid: u16,
    include_params: bool,
    salt: Seq<u8>,
) -> Seq<u8> {
    seq![0x15u8] + seq![0x30u8, 1u8, initiator_random.len() as u8] + initiator_random + seq![
        0x30u8,
        2u8,
        our_random.len() as u8,
    ] + our_random + seq![0x25u8, 3u8, (sessid % 256) as u8, (sessid / 256) as u8] + (
    if include_params {
        seq![0x35u8, 4u8] + seq![
            0x26u8,
            1u8,
            (ITERATION_COUNT % 256) as u8,
            (ITERATION_COUNT / 0x100 % 256) as u8,
            (ITERATION_COUNT / 0x10000 % 256) as u8,
            (ITERATION_COUNT / 0x1000000 % 256) as u8,
        ] + seq![0x30u8, 2u8, salt.len() as u8] + salt + seq![0x18u8]
    } else {
        Seq::empty()
    }) + seq![0x18u8]
}

/// The PASEPake2 body: our share then our confirmation tag.
pub open spec fn spec_pake2_resp(pb: Seq<u8>, cb: Seq<u8>) -> Seq<u8> {
    seq![0x15u8] + seq![0x30u8, 1u8, pb.len() as u8] + pb + seq![0x30u8, 2u8, cb.len() as u8] + cb
        + seq![0x18u8]
}

/// Builds the PASEPake2 body for a share and confirmation tag.
fn build_pake2_resp(pb: &[u8], cb: &[u8]) -> (r: Result<Vec<u8>, Error>)
    ensures
        match r {
            Ok(v) => v@ == spec_pake2_resp(pb@, cb@),
            Err(e) => e == Error::NoSpace,
        },
{
    let mut tw = TLVWriter::new();
    tw.put_start_struct_anon();
    match tw.put_str8(1, pb) {
        Ok(()) => {},
        Err(e) => {
            return Err(e);
        },
    }
    match tw.put_str8(2, cb) {
        Ok(()) => {},
        Err(e) => {
            return Err(e);
        },
    }
    tw.put_end_container();
    proof {
        assert(tw.buf@ =~= spec_pake2_resp(pb@, cb@));
    }
    Ok(tw.buf)
}

/// The PASE verifier-side driver state: the salt and passcode this node
/// was provisioned with.
#[derive(Debug)]
pub struct PAKE {
    pub salt: Vec<u8>,
    pub passwd: u32,
}

impl PAKE {
    /// A driver with a random 16-byte salt and the provisioned
    /// passcode.
    pub fn new() -> (r: PAKE)
        ensures
            r.salt@.len() == 16,
            r.passwd == SPAKE2_PASSWORD,
    {
        PAKE { salt: fill_random(16), passwd: SPAKE2_PASSWORD }
    }

    /// Handles a PBKDFParamRequest: parses the initiator's fields,
    /// rejects a nonzero passcode id, builds the parameter response,
    /// seeds a fresh SPAKE2+ engine with request and response as
    /// context, and hands the parsed request back for the session the
    /// exchange will establish.  A well-formed request with passcode id
    /// zero always succeeds.
    #[verifier::rlimit(100)]
    pub fn handle_pbkdfparamrequest(&self, rx_buf: &[u8], local_child_sess_id: u16) -> (r: Result<
        (Vec<u8>, Spake2P, PBKDFParamReq),
        Error,
    >)
        requires
            16 <= self.salt@.len() <= 32,
        ensures
            match r {
                Ok((resp, sp, req)) => {
                    &&& sp.mode == Spake2Mode::Unknown
                    &&& sp.context@ == spec_context_prefix() + rx_buf@ + resp@
                    &&& spec_payload_slice(rx_buf@, 1) is Some
                    &&& spec_payload_u16(rx_buf@, 2) is Some
                    &&& spec_payload_u16(rx_buf@, 3) == Some(0u16)
                    &&& spec_payload_bool(rx_buf@, 4) is Some
                    &&& req.initiator_random@ == spec_payload_slice(rx_buf@, 1)->Some_0
                    &&& req.initiator_sessid == spec_payload_u16(rx_buf@, 2)->Some_0
                    &&& req.passcode_id == 0
                    &&& req.has_params == spec_payload_bool(rx_buf@, 4)->Some_0
                    &&& exists|our: Seq<u8>, inc: bool|
                        our.len() == PBKDF_RANDOM_LEN && inc == !spec_payload_bool(
                            rx_buf@,
                            4,
                        )->Some_0 && resp@ == #[trigger] spec_pbkdfparam_resp(
                            spec_payload_slice(rx_buf@, 1)->Some_0,
                            our,
                            local_child_sess_id,
                            inc,
                            self.salt@,
                        )
                },
                Err(e) => {
                    &&& (e == Error::Invalid || e == Error::InvalidData || e
                        == Error::TLVTypeMismatch || e == Error::NoSpace)
                    &&& (spec_payload_slice(rx_buf@, 1) is Some && spec_payload_u16(rx_buf@, 2)
                        is Some && spec_payload_u16(rx_buf@, 3) is Some && spec_payload_bool(
                        rx_buf@,
                        4,
                    ) is Some ==> spec_payload_u16(rx_buf@, 3) != Some(0u16) && e
                        == Error::Invalid)
                },
            },
            spec_payload_slice(rx_buf@, 1) is Some && spec_payload_u16(rx_buf@, 2) is Some
                && spec_payload_u16(rx_buf@, 3) == Some(0u16) && spec_payload_bool(rx_buf@, 4)
                is Some ==> r is Ok,
    {
        let root = match get_root_node_struct(rx_buf) {
            Ok(e) => e,
            Err(e) => {
                return Err(e);
            },
        };
        let e1 = match find_tag(rx_buf, root.vstart, 1) {
            Ok(e) => e,
            Err(e) => {
                return Err(e);
            },
        };
        let initiator_random = match elem_bytes(rx_buf, &e1) {
            Ok(v) => v,
            Err(e) => {
                return Err(e);
            },
        };
        let e2 = match find_tag(rx_buf, root.vstart, 2) {
            Ok(e) => e,
            Err(e) => {
                return Err(e);
            },
        };
        let initiator_sessid = match elem_u16(rx_buf, &e2) {
            Ok(v) => v,
            Err(e) => {
                return Err(e);
            },
        };
        let e3 = match find_tag(rx_buf, root.vstart, 3) {
            Ok(e) => e,
            Err(e) => {
                return Err(e);
            },
        };
        let passcode_id = match elem_u16(rx_buf, &e3) {
            Ok(v) => v,
            Err(e) => {
                return Err(e);
            },
        };
        let e4 = match find_tag(rx_buf, root.vstart, 4) {
            Ok(e) => e,
            Err(e) => {
                return Err(e);
            },
        };
        let has_params = match elem_bool(rx_buf, &e4) {
            Ok(v) => v,
            Err(e) => {
                return Err(e);
            },
        };
        if passcode_id != 0 {
            proof {
                assert(spec_payload_u16(rx_buf@, 3) == Some(passcode_id));
            }
            return Err(Error::Invalid);
        }
        let req = PBKDFParamReq {
            initiator_random: vstd::slice::slice_to_vec(initiator_random.as_slice()),
            initiator_sessid,
            passcode_id,
            has_params,
        };
        let our_random = fill_random(PBKDF_RANDOM_LEN);
        let mut tw = TLVWriter::new();
        tw.put_start_struct_anon();
        match tw.put_str8(1, initiator_random.as_slice()) {
            Ok(()) => {},
            Err(e) => {
                return Err(e);
            },
        }
        match tw.put_str8(2, our_random.as_slice()) {
            Ok(()) => {},
            Err(e) => {
                return Err(e);
            },
        }
        tw.put_u16(3, local_child_sess_id);
        if !has_params {
            tw.put_start_struct(4);
            tw.put_u32(1, ITERATION_COUNT);
            match tw.put_str8(2, self.salt.as_slice()) {
                Ok(()) => {},
                Err(e) => {
                    return Err(e);
                },
            }
            tw.put_end_container();
        }
        tw.put_end_container();
        let resp = tw.buf;
        proof {
            assert(resp@ =~= spec_pbkdfparam_resp(
                initiator_random@,
                our_random@,
                local_child_sess_id,
                !has_params,
                self.salt@,
            ));
            assert(spec_payload_slice(rx_buf@, 1) == Some(initiator_random@));
            assert(spec_payload_u16(rx_buf@, 2) == Some(initiator_sessid));
            assert(spec_payload_u16(rx_buf@, 3) == Some(passcode_id));
            assert(spec_payload_bool(rx_buf@, 4) == Some(has_params));
            assert(resp@ == spec_pbkdfparam_resp(
                spec_payload_slice(rx_buf@, 1)->Some_0,
                our_random@,
                local_child_sess_id,
                !spec_payload_bool(rx_buf@, 4)->Some_0,
                self.salt@,
            ));
        }
        let mut sp = Spake2P::new();
        sp.add_to_context(rx_buf);
        sp.add_to_context(resp.as_slice());
        Ok((resp, sp, req))
    }

    /// Handles a PASEPake1: stretches the passcode, feeds the prover
    /// share to the engine and replies with our share and confirmation
    /// tag.
    #[verifier::rlimit(100)]
    pub fn handle_pasepake1(&self, spake2: &mut Spake2P, rx_buf: &[u8]) -> (r: Result<
        Vec<u8>,
        Error,
    >)
        requires
            old(spake2).context@.len() < 0x1000_0000,
        ensures
            match r {
                Ok(resp) => {
                    &&& resp@ == spec_pake2_resp(final(spake2).pb@, final(spake2).cb@)
                    &&& final(spake2).mode == Spake2Mode::Verifier
                    &&& spec_payload_slice(rx_buf@, 1) is Some
                },
                Err(e) => {
                    &&& (e == Error::Invalid || e == Error::InvalidData || e
                        == Error::TLVTypeMismatch || e == Error::NoSpace)
                    &&& (spec_payload_slice(rx_buf@, 1) is Some ==> e == Error::Invalid || e
                        == Error::NoSpace)
                },
            },
            spec_payload_slice(rx_buf@, 1) is None ==> r is Err,
    {
        let root = match get_root_node_struct(rx_buf) {
            Ok(e) => e,
            Err(e) => {
                return Err(e);
            },
        };
        let e1 = match find_tag(rx_buf, root.vstart, 1) {
            Ok(e) => e,
            Err(e) => {
                return Err(e);
            },
        };
        let pa = match elem_bytes(rx_buf, &e1) {
            Ok(v) => v,
            Err(e) => {
                return Err(e);
            },
        };
        proof {
            assert(spec_payload_slice(rx_buf@, 1) == Some(pa@));
        }
        if pa.len() >= 0x1000_0000 {
            return Err(Error::Invalid);
        }
        match spake2.start_verifier(self.passwd, ITERATION_COUNT, self.salt.as_slice()) {
            Ok(()) => {},
            Err(e) => {
                return Err(e);
            },
        }
        let (pb, cb) = match spake2.handle_pA(pa.as_slice()) {
            Ok(v) => v,
            Err(e) => {
                return Err(e);
            },
        };
        let resp = match build_pake2_resp(pb.as_slice(), cb.as_slice()) {
            Ok(v) => v,
            Err(e) => {
                return Err(e);
            },
        };
        Ok(resp)
    }

    /// Handles a PASEPake3: checks the prover's confirmation tag
    /// against the engine's expectation; on the exact match the derived
    /// session keys are handed out as initiator key, responder key and
    /// attestation challenge.
    pub fn handle_pasepake3(&self, spake2: &Spake2P, rx_buf: &[u8]) -> (r: Result<
        (Vec<u8>, Vec<u8>, Vec<u8>),
        Error,
    >)
        ensures
            match r {
                Ok((k1, k2, k3)) => {
                    &&& spec_payload_slice(rx_buf@, 1) == Some(spake2.ca@)
                    &&& k1@ == crate::crypto::spec_hkdf_sha256_expand(
                        spake2.ke@,
                        crate::spake2p::spec_session_keys_info(),
                        48,
                    ).subrange(0, 16)
                    &&& k2@ == crate::crypto::spec_hkdf_sha256_expand(
                        spake2.ke@,
                        crate::spake2p::spec_session_keys_info(),
                        48,
                    ).subrange(16, 32)
                    &&& k3@ == crate::crypto::spec_hkdf_sha256_expand(
                        spake2.ke@,
                        crate::spake2p::spec_session_keys_info(),
                        48,
                    ).subrange(32, 48)
                },
                Err(e) => (e == Error::InvalidSignature ==> spec_payload_slice(rx_buf@, 1)
                    is Some && spec_payload_slice(rx_buf@, 1) != Some(spake2.ca@)) && (e
                    != Error::InvalidSignature ==> spec_payload_slice(rx_buf@, 1) is None),
            },
    {
        let root = match get_root_node_struct(rx_buf) {
            Ok(e) => e,
            Err(e) => {
                return Err(e);
            },
        };
        let e1 = match find_tag(rx_buf, root.vstart, 1) {
            Ok(e) => e,
            Err(e) => {
                return Err(e);
            },
        };
        let ca = match elem_bytes(rx_buf, &e1) {
            Ok(v) => v,
            Err(e) => {
                return Err(e);
            },
        };
        if ca.len() != spake2.ca.len() {
            proof {
                assert(ca@ != spake2.ca@);
            }
            return Err(Error::InvalidSignature);
        }
        let mut i: usize = 0;
        while i < ca.len()
            invariant
                i <= ca@.len(),
                ca@.len() == spake2.ca@.len(),
                forall|j: int| 0 <= j < i ==> ca@[j] == spake2.ca@[j],
                spec_payload_slice(rx_buf@, 1) == Some(ca@),
            decreases ca@.len() - i,
        {
            if ca[i] != spake2.ca[i] {
                proof {
                    assert(ca@[i as int] != spake2.ca@[i as int]);
                    assert(ca@ != spake2.ca@);
                }
                return Err(Error::InvalidSignature);
            }
            i = i + 1;
        }
        proof {
            assert(ca@ =~= spake2.ca@);
        }
        let (k1, k2, k3) = spake2.get_session_keys();
        Ok((k1, k2, k3))
    }
}

} // verus!
