//! Exchanges — short-lived request/response correlation objects — and
//! the manager that owns the global exchange table, the session table
//! and the receive and send dispatch between them.
//!
//! At most [`MAX_EXCHANGES`] exchanges are live at once, their ids
//! unique in the table.  An exchange is purged when nobody uses it and
//! its reliability state is empty.  When the session table overflows,
//! the least recently used session is evicted, a CloseSession report is
//! emitted on one of its exchanges, and all of its exchanges go with
//! it.

use vstd::prelude::*;

use crate::error::Error;
use crate::mrp::{AckEntry, ReliableMessage};
use crate::packet::{parse_proto, Packet, PlainHdr};
use crate::secure_channel::{create_sc_status_report, SCStatusCodes};
use crate::session::{
    spec_rx_seen, Address, CloneData, Session, SessionMgr, MATTER_AES128_KEY_SIZE, MAX_SESSIONS,
};
use crate::spake2p::Spake2P;

verus! {

/// Capacity of the global exchange table.
pub const MAX_EXCHANGES: usize = 8;

/// Role of this node on an exchange.
#[derive(Clone, Copy, Debug, PartialEq, Eq, Structural)]
pub enum ExchangeRole {
    Initiator,
    Responder,
}

/// The role matching an initiator flag.
pub fn get_role(is_initiator: bool) -> (r: ExchangeRole)
    ensures
        r == if is_initiator {
            ExchangeRole::Initiator
        } else {
            ExchangeRole::Responder
        },
{
    if is_initiator {
        ExchangeRole::Initiator
    } else {
        ExchangeRole::Responder
    }
}

/// The complement of the role an initiator flag announces: what a
/// message's receiver plays.
pub fn get_complementary_role(is_initiator: bool) -> (r: ExchangeRole)
    ensures
        r == if is_initiator {
            ExchangeRole::Responder
        } else {
            ExchangeRole::Initiator
        },
{
    if is_initiator {
        ExchangeRole::Responder
    } else {
        ExchangeRole::Initiator
    }
}

/// Handshake state parked on an exchange between round trips: the
/// SPAKE2+ engine and the initiator's session id, which becomes the
/// peer session id of the session the handshake establishes.
pub enum ExchangeData {
    Nothing,
    SpakeInProgress(Spake2P, u16),
}

impl ExchangeData {
    /// Whether any state is parked.
    pub open spec fn is_nothing(&self) -> bool {
        self is Nothing
    }
}

/// One request/response correlation object within a session.
pub struct Exchange {
    pub id: u16,
    pub sess_id: u16,
    pub role: ExchangeRole,
    pub user_cnt: u8,
    pub data: ExchangeData,
    pub mrp: ReliableMessage,
}

impl Exchange {
    /// A fresh exchange with one user and empty reliability state.
    pub fn new(id: u16, sess_id: u16, role: ExchangeRole) -> (r: Exchange)
        ensures
            r.id == id,
            r.sess_id == sess_id,
            r.role == role,
            r.user_cnt == 1,
            r.data.is_nothing(),
            r.mrp == (ReliableMessage { retrans: None::<crate::mrp::RetransEntry>, ack: None::<AckEntry> }),
    {
        Exchange {
            id,
            sess_id,
            role,
            user_cnt: 1,
            data: ExchangeData::Nothing,
            mrp: ReliableMessage { retrans: None, ack: None },
        }
    }

    /// Drops parked data and one user reference.
    pub fn close(&mut self)
        requires
            old(self).user_cnt >= 1,
        ensures
            final(self).user_cnt == old(self).user_cnt - 1,
            final(self).data.is_nothing(),
            final(self).id == old(self).id,
            final(self).sess_id == old(self).sess_id,
            final(self).role == old(self).role,
            final(self).mrp == old(self).mrp,
    {
        self.data = ExchangeData::Nothing;
        self.release();
    }

    /// Adds one user reference.
    pub fn acquire(&mut self)
        requires
            old(self).user_cnt < 255,
        ensures
            *final(self) == (Exchange { user_cnt: (old(self).user_cnt + 1) as u8, ..*old(self) }),
    {
        self.user_cnt = self.user_cnt + 1;
    }

    /// Drops one user reference; purging happens separately.
    pub fn release(&mut self)
        requires
            old(self).user_cnt >= 1,
        ensures
            *final(self) == (Exchange { user_cnt: (old(self).user_cnt - 1) as u8, ..*old(self) }),
    {
        self.user_cnt = self.user_cnt - 1;
    }

    /// No users and nothing outstanding or owed: the purge pass may
    /// drop this exchange.
    pub fn is_purgeable(&self) -> (r: bool)
        ensures
            r == spec_purgeable(*self),
    {
        self.user_cnt == 0 && self.mrp.is_empty()
    }

    /// The exchange id.
    pub fn get_id(&self) -> (r: u16)
        ensures
            r == self.id,
    {
        self.id
    }

    /// Our role on this exchange.
    pub fn get_role(&self) -> (r: ExchangeRole)
        ensures
            r == self.role,
    {
        self.role
    }

    /// Parks handshake state on this exchange.
    pub fn set_exchange_data(&mut self, data: ExchangeData)
        ensures
            *final(self) == (Exchange { data, ..*old(self) }),
    {
        self.data = data;
    }

    /// Drops any parked handshake state.
    pub fn clear_exchange_data(&mut self)
        ensures
            final(self).data.is_nothing(),
            final(self).id == old(self).id,
            final(self).sess_id == old(self).sess_id,
            final(self).role == old(self).role,
            final(self).user_cnt == old(self).user_cnt,
            final(self).mrp == old(self).mrp,
    {
        self.data = ExchangeData::Nothing;
    }

    /// A shared view of any parked handshake state.
    pub fn get_exchange_data(&self) -> (r: &ExchangeData)
        ensures
            r == &self.data,
    {
        &self.data
    }

    /// Takes the parked handshake state out, leaving nothing.
    pub fn take_exchange_data(&mut self) -> (r: ExchangeData)
        ensures
            r == old(self).data,
            final(self).data.is_nothing(),
            final(self).id == old(self).id,
            final(self).sess_id == old(self).sess_id,
            final(self).role == old(self).role,
            final(self).user_cnt == old(self).user_cnt,
            final(self).mrp == old(self).mrp,
    {
        let mut taken = ExchangeData::Nothing;
        core::mem::swap(&mut taken, &mut self.data);
        taken
    }

    /// Sends a message on this exchange over its session: stamps the
    /// exchange id and role, the session's ids and counter, runs the
    /// reliability bookkeeping and frames the wire bytes.  Success and
    /// every error are owed exactly: a session mismatch is
    /// InvalidState; an exhausted counter or an occupied retransmission
    /// slot is Invalid; an oversized encrypted body is InvalidData;
    /// otherwise the framed bytes come back.
    pub fn send(&mut self, proto_tx: &mut Packet, session: &mut Session) -> (r: Result<
        Vec<u8>,
        Error,
    >)
        requires
            old(session).wf(),
        ensures
            final(self).id == old(self).id,
            final(self).sess_id == old(self).sess_id,
            final(self).role == old(self).role,
            final(self).user_cnt == old(self).user_cnt,
            final(self).data == old(self).data,
            final(session).wf(),
            final(session).spec_local_sess_id() == old(session).spec_local_sess_id(),
            final(session).spec_child_local_sess_id() == old(session).spec_child_local_sess_id(),
            match r {
                Ok(v) => {
                    &&& old(self).sess_id == old(session).spec_local_sess_id()
                    &&& *final(session) == (Session {
                        msg_ctr: (old(session).spec_msg_ctr() + 1) as u32,
                        ..*old(session)
                    })
                    &&& final(proto_tx).proto == (crate::packet::ProtoHdr {
                        exch_id: old(self).id,
                        is_initiator: old(proto_tx).proto.is_initiator || old(self).role
                            == ExchangeRole::Initiator,
                        ack_ctr: match old(self).mrp.ack {
                            Some(a) => Some(a.msg_ctr),
                            None => old(proto_tx).proto.ack_ctr,
                        },
                        ..old(proto_tx).proto
                    })
                    &&& final(proto_tx).plain == (PlainHdr {
                        sess_id: old(session).spec_peer_sess_id(),
                        ctr: old(session).spec_msg_ctr(),
                        ..old(proto_tx).plain
                    })
                    &&& final(proto_tx).payload@ == old(proto_tx).payload@
                    &&& final(self).mrp.ack is None
                    &&& final(self).mrp.retrans == (if old(proto_tx).proto.is_reliable {
                        Some(
                            crate::mrp::RetransEntry { msg_ctr: old(session).spec_msg_ctr() },
                        )
                    } else {
                        old(self).mrp.retrans
                    })
                    &&& (old(session).spec_mode() == crate::session::SessionMode::PlainText
                        ==> v@ == crate::packet::spec_plain_hdr_bytes(final(proto_tx).plain)
                        + crate::packet::spec_proto_hdr_bytes(final(proto_tx).proto) + final(proto_tx).payload@)
                    &&& (old(session).spec_mode() != crate::session::SessionMode::PlainText
                        ==> v@ == crate::packet::spec_plain_hdr_bytes(final(proto_tx).plain)
                        + crate::crypto::spec_aes128_ccm_seal(
                        old(session).spec_enc_key(),
                        crate::packet::spec_ccm_nonce(final(proto_tx).plain),
                        crate::packet::spec_plain_hdr_bytes(final(proto_tx).plain),
                        crate::packet::spec_proto_hdr_bytes(final(proto_tx).proto) + final(proto_tx).payload@,
                    ))
                },
                Err(e) => {
                    &&& (e == Error::InvalidState || e == Error::Invalid || e
                        == Error::InvalidData)
                    &&& (e == Error::InvalidState || e == Error::Invalid ==> final(self).mrp
                        == old(self).mrp)
                    &&& (*final(session) == *old(session) || *final(session) == (Session {
                        msg_ctr: (old(session).spec_msg_ctr() + 1) as u32,
                        ..*old(session)
                    }))
                    &&& (e == Error::InvalidState <==> old(self).sess_id != old(session).spec_local_sess_id())
                    &&& (old(self).sess_id == old(session).spec_local_sess_id() && e
                        == Error::Invalid ==> old(session).spec_msg_ctr() == u32::MAX || (old(proto_tx).proto.is_reliable && old(self).mrp.retrans is Some))
                    &&& (e == Error::InvalidData ==> old(session).spec_mode()
                        != crate::session::SessionMode::PlainText)
                },
            },
            old(self).sess_id == old(session).spec_local_sess_id() && old(session).spec_msg_ctr() < u32::MAX && (old(proto_tx).proto.is_reliable ==> old(self).mrp.retrans is None) && old(proto_tx).payload@.len() + 10 <= 0xFFFF ==> r is Ok,
    {
        if self.sess_id != session.get_local_sess_id() {
            return Err(Error::InvalidState);
        }
        proto_tx.proto.exch_id = self.id;
        if matches!(self.role, ExchangeRole::Initiator) {
            proto_tx.set_initiator();
        }
        match session.pre_send(proto_tx) {
            Ok(()) => {},
            Err(e) => {
                return Err(e);
            },
        }
        match self.mrp.pre_send(proto_tx) {
            Ok(()) => {},
            Err(e) => {
                return Err(e);
            },
        }
        session.send(proto_tx)
    }
}

/// The acknowledgement listing is right: every listed id belongs to an
/// exchange that owes an acknowledgement, and every exchange that owes
/// one is listed.
pub open spec fn spec_pending_acks_ok(es: Seq<Exchange>, ids: Seq<u16>) -> bool {
    &&& forall|k: int| #![trigger ids[k]] 0 <= k < ids.len() ==> spec_owes_ack(es, ids[k])
    &&& forall|i: int|
        0 <= i < es.len() && (#[trigger] es[i]).mrp.ack is Some ==> exists|k: int|
            0 <= k < ids.len() && ids[k] == es[i].id
}

/// Whether some exchange with the given id owes an acknowledgement.
pub open spec fn spec_owes_ack(es: Seq<Exchange>, id: u16) -> bool {
    exists|i: int| 0 <= i < es.len() && (#[trigger] es[i]).id == id && es[i].mrp.ack is Some
}

/// Whether an exchange may be purged./// Whether an exchange may be purged.
pub open spec fn spec_purgeable(e: Exchange) -> bool {
    e.user_cnt == 0 && e.mrp.retrans is None && e.mrp.ack is None
}

/// The global exchange table over the session table.
pub struct ExchangeMgr {
    pub exchanges: Vec<Exchange>,
    pub sess_mgr: SessionMgr,
}

impl ExchangeMgr {
    /// Structural facts the manager maintains: a bounded table with
    /// unique exchange ids over a well-formed session table.
    pub open spec fn wf(&self) -> bool {
        &&& self.exchanges@.len() <= MAX_EXCHANGES
        &&& self.sess_mgr.wf()
        &&& forall|i: int, j: int|
            0 <= i < j < self.exchanges@.len() ==> (#[trigger] self.exchanges@[i].id) != (
            #[trigger] self.exchanges@[j].id)
    }

    /// A manager over a session table, with no exchanges yet.
    pub fn new(sess_mgr: SessionMgr) -> (r: ExchangeMgr)
        requires
            sess_mgr.wf(),
        ensures
            r.wf(),
            r.exchanges@ == Seq::<Exchange>::empty(),
            r.sess_mgr == sess_mgr,
    {
        let r = ExchangeMgr { exchanges: Vec::new(), sess_mgr };
        proof {
            assert(r.exchanges@ =~= Seq::<Exchange>::empty());
        }
        r
    }

    /// The session table.
    pub fn get_sess_mgr(&mut self) -> (r: &mut SessionMgr)
        ensures
            *r == old(self).sess_mgr,
            final(self).sess_mgr == *final(r),
            final(self).exchanges == old(self).exchanges,
    {
        &mut self.sess_mgr
    }

    /// Index of the exchange with an id.
    pub fn find_idx(&self, exch_id: u16) -> (r: Option<usize>)
        ensures
            match r {
                Some(i) => i < self.exchanges@.len() && self.exchanges@[i as int].id == exch_id
                    && (forall|j: int|
                    0 <= j < i ==> (#[trigger] self.exchanges@[j].id) != exch_id),
                None => forall|i: int|
                    0 <= i < self.exchanges@.len() ==> (#[trigger] self.exchanges@[i].id)
                        != exch_id,
            },
    {
        let mut i: usize = 0;
        while i < self.exchanges.len()
            invariant
                i <= self.exchanges@.len(),
                forall|j: int| 0 <= j < i ==> (#[trigger] self.exchanges@[j].id) != exch_id,
            decreases self.exchanges@.len() - i,
        {
            if self.exchanges[i].id == exch_id {
                return Some(i);
            }
            i = i + 1;
        }
        None
    }

    /// A mutable borrow of the exchange with an id, if it is live.
    pub fn get_with_id(&mut self, exch_id: u16) -> (r: Option<&mut Exchange>)
        ensures
            match r {
                Some(e) => *e == old(self).exchanges@[spec_idx_of(
                    old(self).exchanges@,
                    exch_id,
                )] && e.id == exch_id && 0 <= spec_idx_of(old(self).exchanges@, exch_id) < old(self).exchanges@.len() && final(self).exchanges@ == old(self).exchanges@.update(
                    spec_idx_of(old(self).exchanges@, exch_id),
                    *final(e),
                ) && final(self).sess_mgr == old(self).sess_mgr,
                None => *final(self) == *old(self) && (forall|i: int|
                    0 <= i < old(self).exchanges@.len() ==> (#[trigger] old(self).exchanges@[i].id) != exch_id),
            },
    {
        match self.find_idx(exch_id) {
            Some(i) => {
                proof {
                    lemma_idx_of(self.exchanges@, exch_id, i as int);
                }
                Some(&mut self.exchanges[i])
            },
            None => None,
        }
    }
}

/// Whether the table holds an exchange with the given id.
pub open spec fn spec_has_exch(es: Seq<Exchange>, id: u16) -> bool {
    exists|i: int| 0 <= i < es.len() && (#[trigger] es[i].id) == id
}

/// The index of the first exchange with an id in a table.
pub open spec fn spec_idx_of(es: Seq<Exchange>, exch_id: u16) -> int
    decreases es.len(),
{
    if es.len() == 0 {
        0
    } else if es[0].id == exch_id {
        0
    } else {
        1 + spec_idx_of(es.drop_first(), exch_id)
    }
}

/// An index holding the id is the first such index when ids are unique
/// up to it.
pub proof fn lemma_idx_of(es: Seq<Exchange>, exch_id: u16, i: int)
    requires
        0 <= i < es.len(),
        es[i].id == exch_id,
        forall|j: int| 0 <= j < i ==> (#[trigger] es[j].id) != exch_id,
    ensures
        spec_idx_of(es, exch_id) == i,
    decreases es.len(),
{
    if i > 0 {
        assert(es[0].id != exch_id);
        lemma_idx_of(es.drop_first(), exch_id, i - 1);
        assert(forall|j: int|
            0 <= j < i - 1 ==> (#[trigger] es.drop_first()[j].id) == es[j + 1].id);
    }
}

impl ExchangeMgr {
    /// The exchange under `(sess_id, id, role)`, created when allowed:
    /// a fresh exchange is made only when `create_new` is set (the peer
    /// is the initiator) and the table has room; an existing exchange
    /// must match role and session or the lookup fails.  Success and
    /// each error are owed exactly: a matching exchange, or room to
    /// create one, yields Ok; a missing one without leave or room is
    /// NoSpace; a present one that mismatches is NoExchange.
    pub fn get(&mut self, sess_id: u16, id: u16, role: ExchangeRole, create_new: bool) -> (r:
        Result<usize, Error>)
        requires
            old(self).wf(),
        ensures
            final(self).wf(),
            final(self).sess_mgr == old(self).sess_mgr,
            match r {
                Ok(idx) => {
                    &&& idx < final(self).exchanges@.len()
                    &&& final(self).exchanges@[idx as int].id == id
                    &&& final(self).exchanges@[idx as int].sess_id == sess_id
                    &&& final(self).exchanges@[idx as int].role == role
                    &&& (spec_has_exch(old(self).exchanges@, id) ==> final(self).exchanges@ == old(self).exchanges@ && idx == spec_idx_of(old(self).exchanges@, id))
                    &&& (!spec_has_exch(old(self).exchanges@, id) ==> create_new && old(self).exchanges@.len() < MAX_EXCHANGES && idx == old(self).exchanges@.len()
                        && final(self).exchanges@ == old(self).exchanges@.push(
                        (Exchange {
                            id,
                            sess_id,
                            role,
                            user_cnt: 1u8,
                            data: ExchangeData::Nothing,
                            mrp: (ReliableMessage { retrans: None, ack: None }),
                        }),
                    ))
                },
                Err(e) => {
                    &&& final(self).exchanges@ == old(self).exchanges@
                    &&& (!spec_has_exch(old(self).exchanges@, id) ==> e == Error::NoSpace && (
                    !create_new || old(self).exchanges@.len() >= MAX_EXCHANGES))
                    &&& (spec_has_exch(old(self).exchanges@, id) ==> e == Error::NoExchange && {
                        let i = spec_idx_of(old(self).exchanges@, id);
                        old(self).exchanges@[i].role != role || old(self).exchanges@[i].sess_id
                            != sess_id
                    })
                },
            },
            ({
                let es = old(self).exchanges@;
                let i = spec_idx_of(es, id);
                &&& (spec_has_exch(es, id) && es[i].role == role && es[i].sess_id == sess_id
                    ==> r is Ok)
                &&& (!spec_has_exch(es, id) && create_new && es.len() < MAX_EXCHANGES ==> r
                    is Ok)
            }),
    {
        let ghost es = self.exchanges@;
        let found = self.find_idx(id);
        let idx: usize = match found {
            Some(i) => {
                proof {
                    lemma_idx_of(es, id, i as int);
                }
                i
            },
            None => {
                if !create_new {
                    return Err(Error::NoSpace);
                }
                if self.exchanges.len() >= MAX_EXCHANGES {
                    return Err(Error::NoSpace);
                }
                let e = Exchange::new(id, sess_id, role);
                let idx = self.exchanges.len();
                self.exchanges.push(e);
                idx
            },
        };
        let ex = &self.exchanges[idx];
        let role_ok = match (ex.role, role) {
            (ExchangeRole::Initiator, ExchangeRole::Initiator) => true,
            (ExchangeRole::Responder, ExchangeRole::Responder) => true,
            _ => false,
        };
        if role_ok && ex.sess_id == sess_id {
            Ok(idx)
        } else {
            proof {
                assert(spec_has_exch(es, id)) by {
                    if !spec_has_exch(es, id) {
                        assert(self.exchanges@[idx as int].role == role
                            && self.exchanges@[idx as int].sess_id == sess_id);
                    }
                }
            }
            Err(Error::NoExchange)
        }
    }

    /// Drops every exchange with no users and empty reliability state;
    /// the rest keep their order.
    #[verifier::loop_isolation(false)]
    pub fn purge(&mut self)
        requires
            old(self).wf(),
        ensures
            final(self).wf(),
            final(self).sess_mgr == old(self).sess_mgr,
            final(self).exchanges@ == old(self).exchanges@.filter(|e: Exchange| !spec_purgeable(e)),
    {
        let ghost orig = self.exchanges@;
        let mut kept: Vec<Exchange> = Vec::new();
        let mut i: usize = 0;
        proof {
            reveal_with_fuel(Seq::<Exchange>::filter, 2);
            assert(orig.subrange(0, 0).filter(|e: Exchange| !spec_purgeable(e)) =~= Seq::<
                Exchange,
            >::empty());
            assert(kept@ =~= Seq::<Exchange>::empty());
            assert(self.exchanges@ =~= orig.subrange(0, orig.len() as int));
        }
        while self.exchanges.len() > 0
            invariant
                i <= orig.len(),
                self.exchanges@ == orig.subrange(i as int, orig.len() as int),
                self.sess_mgr == old(self).sess_mgr,
                kept@ == orig.subrange(0, i as int).filter(|e: Exchange| !spec_purgeable(e)),
            decreases self.exchanges@.len(),
        {
            let e = self.exchanges.remove(0);
            proof {
                assert(e == orig[i as int]);
                assert(self.exchanges@ =~= orig.subrange(i + 1, orig.len() as int));
            }
            let purge_it = e.is_purgeable();
            if !purge_it {
                kept.push(e);
            }
            proof {
                reveal_with_fuel(Seq::<Exchange>::filter, 2);
                assert(orig.subrange(0, i + 1).drop_last() =~= orig.subrange(0, i as int));
                assert(orig.subrange(0, i + 1).last() == orig[i as int]);
                assert(kept@ =~= orig.subrange(0, i + 1).filter(|e: Exchange| !spec_purgeable(e)));
            }
            i = i + 1;
        }
        self.exchanges = kept;
        proof {
            assert(orig.subrange(0, orig.len() as int) =~= orig);
            lemma_filter_unique_ids(orig, |e: Exchange| !spec_purgeable(e));
        }
    }

    /// The ids of all exchanges that owe the peer an acknowledgement.
    #[verifier::loop_isolation(false)]
    pub fn pending_acks(&self) -> (r: Vec<u16>)
        ensures
            spec_pending_acks_ok(self.exchanges@, r@),
    {
        let mut out: Vec<u16> = Vec::new();
        let ghost mut wit: Seq<int> = Seq::empty();
        let mut i: usize = 0;
        while i < self.exchanges.len()
            invariant
                i <= self.exchanges@.len(),
                wit.len() == out@.len(),
                forall|k: int|
                    0 <= k < out@.len() ==> 0 <= #[trigger] wit[k] < self.exchanges@.len()
                        && self.exchanges@[wit[k]].id == out@[k]
                        && self.exchanges@[wit[k]].mrp.ack is Some,
                forall|j: int|
                    0 <= j < i && (#[trigger] self.exchanges@[j]).mrp.ack is Some ==> exists|
                        k: int,
                    |
                        0 <= k < out@.len() && out@[k] == self.exchanges@[j].id,
            decreases self.exchanges@.len() - i,
        {
            let ghost old_out = out@;
            let pushed = self.exchanges[i].mrp.is_ack_ready();
            if pushed {
                out.push(self.exchanges[i].id);
                proof {
                    wit = wit.push(i as int);
                }
            }
            proof {
                assert forall|j: int|
                    0 <= j < i + 1 && (#[trigger] self.exchanges@[j]).mrp.ack is Some implies
                    exists|k: int| 0 <= k < out@.len() && out@[k] == self.exchanges@[j].id by {
                    if j < i {
                        let k = choose|k: int|
                            0 <= k < old_out.len() && old_out[k] == self.exchanges@[j].id;
                        assert(out@[k] == self.exchanges@[j].id);
                    } else {
                        assert(out@[out@.len() - 1] == self.exchanges@[j].id);
                    }
                }
            }
            i = i + 1;
        }
        proof {
            assert forall|k: int|
                #![trigger out@[k]]
                0 <= k < out@.len() implies spec_owes_ack(self.exchanges@, out@[k]) by {
                assert(0 <= wit[k] < self.exchanges@.len() && self.exchanges@[wit[k]].id
                    == out@[k] && self.exchanges@[wit[k]].mrp.ack is Some);
            }
            assert(spec_pending_acks_ok(self.exchanges@, out@));
        }
        out
    }

    /// Evicts the session at an index: frames a CloseSession status
    /// report on the first of its exchanges if it has any, drops every
    /// exchange bound to it, and removes the session; every other
    /// session and exchange is untouched.  An out-of-range index is the
    /// only Invalid failure, and a session with no exchanges always
    /// evicts.  The framed report comes back for the caller to send.
    #[verifier::loop_isolation(false)]
    #[verifier::rlimit(100)]
    pub fn evict_session(&mut self, index: usize) -> (r: Result<Option<Vec<u8>>, Error>)
        requires
            old(self).wf(),
        ensures
            final(self).wf(),
            index >= old(self).sess_mgr.spec_sessions().len() ==> r == Err::<
                Option<Vec<u8>>,
                Error,
            >(Error::Invalid) && *final(self) == *old(self),
            match r {
                Ok(wire) => {
                    &&& index < old(self).sess_mgr.spec_sessions().len()
                    &&& final(self).sess_mgr.spec_sessions() == old(
                        self,
                    ).sess_mgr.spec_sessions().remove(index as int)
                    &&& final(self).sess_mgr.next_sess_id == old(self).sess_mgr.next_sess_id
                    &&& ({
                        let sid = old(self).sess_mgr.spec_sessions()[index as int].spec_local_sess_id();
                        &&& final(self).exchanges@ == old(self).exchanges@.filter(
                            |e: Exchange| e.sess_id != sid,
                        )
                        &&& (wire is Some <==> exists|k: int|
                            0 <= k < old(self).exchanges@.len() && (#[trigger] old(
                                self,
                            ).exchanges@[k]).sess_id == sid)
                    })
                },
                Err(e) => {
                    &&& (e == Error::Invalid || e == Error::InvalidState || e
                        == Error::InvalidData)
                    &&& (e != Error::Invalid ==> index < old(self).sess_mgr.spec_sessions().len())
                },
            },
            ({
                let ss = old(self).sess_mgr.spec_sessions();
                let es = old(self).exchanges@;
                &&& (index < ss.len() && (forall|k: int|
                    0 <= k < es.len() ==> (#[trigger] es[k]).sess_id != ss[index as int].spec_local_sess_id())
                    ==> r is Ok)
                &&& (index < ss.len() && ss[index as int].spec_msg_ctr() < u32::MAX ==> r is Ok)
            }),
    {
        if index >= self.sess_mgr.sessions.len() {
            return Err(Error::Invalid);
        }
        let mut tx = Packet::new_tx();
        match create_sc_status_report(&mut tx, SCStatusCodes::CloseSession, None) {
            Ok(()) => {},
            Err(e) => {
                return Err(e);
            },
        }
        let sess_id = self.sess_mgr.sessions[index].get_local_sess_id();
        // Frame CloseSession on the first exchange of this session.
        let mut found_idx: Option<usize> = None;
        let mut k: usize = 0;
        while k < self.exchanges.len()
            invariant
                k <= self.exchanges@.len(),
                match found_idx {
                    Some(f) => f < self.exchanges@.len() && self.exchanges@[f as int].sess_id
                        == sess_id,
                    None => forall|j: int|
                        0 <= j < k ==> (#[trigger] self.exchanges@[j]).sess_id != sess_id,
                },
            decreases self.exchanges@.len() - k,
        {
            if self.exchanges[k].sess_id == sess_id && found_idx.is_none() {
                found_idx = Some(k);
            }
            k = k + 1;
        }
        let mut wire: Option<Vec<u8>> = None;
        match found_idx {
            Some(eidx) => {
                let session = &mut self.sess_mgr.sessions[index];
                let exchange = &mut self.exchanges[eidx];
                let sent = exchange.send(&mut tx, session);
                proof {
                    assert(forall|q: int|
                        0 <= q < self.sess_mgr.sessions@.len() ==> (
                        #[trigger] self.sess_mgr.sessions@[q]).wf());
                    assert(self.sess_mgr.wf());
                }
                match sent {
                    Ok(w) => {
                        wire = Some(w);
                    },
                    Err(e) => {
                        return Err(e);
                    },
                }
            },
            None => {},
        }
        let ghost pre_send = old(self).exchanges@;
        let ghost mid = self.exchanges@;
        let ghost sm_snapshot = self.sess_mgr;
        let mut kept: Vec<Exchange> = Vec::new();
        let mut i: usize = 0;
        proof {
            reveal_with_fuel(Seq::<Exchange>::filter, 2);
            assert(mid.subrange(0, 0).filter(|e: Exchange| e.sess_id != sess_id) =~= Seq::<
                Exchange,
            >::empty());
            assert(kept@ =~= Seq::<Exchange>::empty());
            assert(self.exchanges@ =~= mid.subrange(0, mid.len() as int));
        }
        while self.exchanges.len() > 0
            invariant
                i <= mid.len(),
                self.exchanges@ == mid.subrange(i as int, mid.len() as int),
                self.sess_mgr == sm_snapshot,
                sm_snapshot.wf(),
                kept@ == mid.subrange(0, i as int).filter(|e: Exchange| e.sess_id != sess_id),
            decreases self.exchanges@.len(),
        {
            let e = self.exchanges.remove(0);
            proof {
                assert(e == mid[i as int]);
                assert(self.exchanges@ =~= mid.subrange(i + 1, mid.len() as int));
            }
            if e.sess_id != sess_id {
                kept.push(e);
            }
            proof {
                reveal_with_fuel(Seq::<Exchange>::filter, 2);
                assert(mid.subrange(0, i + 1).drop_last() =~= mid.subrange(0, i as int));
                assert(mid.subrange(0, i + 1).last() == mid[i as int]);
                assert(kept@ =~= mid.subrange(0, i + 1).filter(
                    |e: Exchange| e.sess_id != sess_id,
                ));
            }
            i = i + 1;
        }
        self.exchanges = kept;
        self.sess_mgr.remove(index);
        proof {
            assert(mid.subrange(0, mid.len() as int) =~= mid);
            lemma_filter_unique_ids(mid, |e: Exchange| e.sess_id != sess_id);
            lemma_filter_keeps_pred(mid, |e: Exchange| e.sess_id != sess_id);
            lemma_filter_congruent(pre_send, mid, |e: Exchange| e.sess_id != sess_id);
            assert(final(self).sess_mgr.sessions@ =~= old(self).sess_mgr.sessions@.remove(
                index as int,
            ));
        }
        Ok(wire)
    }

    /// Builds the encrypted session a key exchange handed over; when
    /// the table is full, the least recently used session — the front
    /// of the table — is evicted first, with its CloseSession report
    /// framed and its exchanges dropped, and the insertion retried
    /// once.  A table below capacity always succeeds, and a full one
    /// succeeds whenever the front session's counter is not exhausted.
    /// A caller that wants to deliver the eviction's CloseSession
    /// report evicts through [`ExchangeMgr::evict_session`] first.
    pub fn add_session(&mut self, clone_data: &CloneData) -> (r: Result<usize, Error>)
        requires
            old(self).wf(),
            clone_data.dec_key@.len() == MATTER_AES128_KEY_SIZE,
            clone_data.enc_key@.len() == MATTER_AES128_KEY_SIZE,
            clone_data.att_challenge@.len() == MATTER_AES128_KEY_SIZE,
        ensures
            final(self).wf(),
            match r {
                Ok(idx) => {
                    &&& idx < final(self).sess_mgr.spec_sessions().len()
                    &&& final(self).sess_mgr.spec_sessions()[idx as int].spec_local_sess_id()
                        == clone_data.local_sess_id
                    &&& final(self).sess_mgr.spec_sessions()[idx as int].spec_peer_sess_id()
                        == clone_data.peer_sess_id
                    &&& final(self).sess_mgr.spec_sessions()[idx as int].spec_mode()
                        == clone_data.mode
                    &&& (old(self).sess_mgr.spec_sessions().len() < MAX_SESSIONS ==> {
                        &&& idx == old(self).sess_mgr.spec_sessions().len()
                        &&& final(self).sess_mgr.spec_sessions().len() == idx + 1
                        &&& final(self).sess_mgr.spec_sessions().subrange(0, idx as int) == old(
                            self,
                        ).sess_mgr.spec_sessions()
                        &&& final(self).exchanges@ == old(self).exchanges@
                    })
                    &&& (old(self).sess_mgr.spec_sessions().len() >= MAX_SESSIONS ==> {
                        let evicted = old(self).sess_mgr.spec_sessions()[0].spec_local_sess_id();
                        &&& final(self).sess_mgr.spec_sessions().len() == old(
                            self,
                        ).sess_mgr.spec_sessions().len()
                        &&& idx + 1 == final(self).sess_mgr.spec_sessions().len()
                        &&& final(self).sess_mgr.spec_sessions().subrange(0, idx as int) == old(
                            self,
                        ).sess_mgr.spec_sessions().remove(0)
                        &&& final(self).exchanges@ == old(self).exchanges@.filter(
                            |e: Exchange| e.sess_id != evicted,
                        )
                    })
                },
                Err(e) => e == Error::Invalid || e == Error::InvalidState || e
                    == Error::InvalidData || e == Error::NoSpace,
            },
            old(self).sess_mgr.spec_sessions().len() < MAX_SESSIONS ==> r is Ok,
            old(self).sess_mgr.spec_sessions().len() >= MAX_SESSIONS && old(
                self,
            ).sess_mgr.spec_sessions()[0].spec_msg_ctr() < u32::MAX ==> r is Ok,
    {
        match self.sess_mgr.clone_session(clone_data) {
            Ok(idx) => Ok(idx),
            Err(_) => {
                let lru = self.sess_mgr.get_lru();
                if self.sess_mgr.len() == 0 {
                    return Err(Error::NoSpace);
                }
                match self.evict_session(lru) {
                    Ok(_) => {},
                    Err(e) => {
                        return Err(e);
                    },
                }
                self.sess_mgr.clone_session(clone_data)
            },
        }
    }

    /// Sends a packet on the exchange with the given id, over that
    /// exchange's session, returning the framed wire bytes.  A missing
    /// exchange is exactly NoExchange, a missing session exactly
    /// NoSession; with both present, success and the remaining errors
    /// follow the exchange-level send.
    pub fn send(&mut self, exch_id: u16, proto_tx: &mut Packet) -> (r: Result<Vec<u8>, Error>)
        requires
            old(self).wf(),
        ensures
            final(self).wf(),
            r == Err::<Vec<u8>, Error>(Error::NoExchange) <==> !spec_has_exch(
                old(self).exchanges@,
                exch_id,
            ),
            spec_has_exch(old(self).exchanges@, exch_id) ==> (r == Err::<Vec<u8>, Error>(
                Error::NoSession,
            ) <==> crate::session::spec_sess_id_lookup(
                old(self).sess_mgr.spec_sessions(),
                old(self).exchanges@[spec_idx_of(old(self).exchanges@, exch_id)].sess_id,
            ) is None),
            match r {
                Ok(_) => final(proto_tx).proto.exch_id == exch_id,
                Err(e) => e == Error::NoExchange || e == Error::NoSession || e
                    == Error::InvalidState || e == Error::Invalid || e == Error::InvalidData,
            },
            ({
                let es = old(self).exchanges@;
                let ss = old(self).sess_mgr.spec_sessions();
                spec_has_exch(es, exch_id) && ({
                    let ei = spec_idx_of(es, exch_id);
                    match crate::session::spec_sess_id_lookup(ss, es[ei].sess_id) {
                        Some(si) => ss[si].spec_msg_ctr() < u32::MAX && (old(
                            proto_tx,
                        ).proto.is_reliable ==> es[ei].mrp.retrans is None) && old(
                            proto_tx,
                        ).payload@.len() + 10 <= 0xFFFF,
                        None => false,
                    }
                }) ==> r is Ok
            }),
    {
        let eidx = match self.find_idx(exch_id) {
            Some(i) => i,
            None => {
                return Err(Error::NoExchange);
            },
        };
        proof {
            lemma_idx_of(self.exchanges@, exch_id, eidx as int);
        }
        let sess_id = self.exchanges[eidx].sess_id;
        let sidx = match self.sess_mgr.get_with_id(sess_id) {
            Some(i) => i,
            None => {
                return Err(Error::NoSession);
            },
        };
        let session = &mut self.sess_mgr.sessions[sidx];
        let exchange = &mut self.exchanges[eidx];
        let sent = exchange.send(proto_tx, session);
        proof {
            assert(forall|q: int|
                0 <= q < self.sess_mgr.sessions@.len() ==> (
                #[trigger] self.sess_mgr.sessions@[q]).wf());
            assert(self.sess_mgr.wf());
        }
        sent
    }

    /// Receive dispatch for one inbound message whose header is already
    /// parsed: resolves or creates the session (evicting the least
    /// recently used one under pressure), decrypts on an encrypted
    /// session, suppresses duplicate counters — a duplicate is dropped,
    /// never delivered, but its acknowledgement is still owed — and
    /// resolves or creates the exchange with the complement of the
    /// peer's role, creating only when the peer initiates.  When the
    /// session is found, everything else in both tables is untouched.
    /// `hdr_bytes` are the raw header bytes, the associated data of the
    /// encryption.
    #[verifier::rlimit(100)]
    #[verifier::loop_isolation(false)]
    pub fn recv(
        &mut self,
        plain: PlainHdr,
        hdr_bytes: &[u8],
        body: &[u8],
        peer: Address,
    ) -> (r: Result<(usize, usize, Option<Packet>), Error>)
        requires
            old(self).wf(),
        ensures
            final(self).wf(),
            match r {
                Ok((sidx, eidx, pkt)) => {
                    &&& sidx < final(self).sess_mgr.spec_sessions().len()
                    &&& final(self).sess_mgr.spec_sessions()[sidx as int].spec_local_sess_id()
                        == plain.sess_id
                    &&& final(self).sess_mgr.spec_sessions()[sidx as int].peer_addr == peer
                    &&& eidx < final(self).exchanges@.len()
                    &&& final(self).exchanges@[eidx as int].sess_id == plain.sess_id
                    &&& ({
                        let lk = crate::session::spec_session_lookup(
                            old(self).sess_mgr.spec_sessions(),
                            plain.sess_id,
                            peer,
                            plain.sess_id != 0,
                        );
                        let pre = match lk {
                            Some(li) => old(self).sess_mgr.spec_sessions()[li].rx_state,
                            None => (crate::session::RxCtrState {
                                init: false,
                                max_ctr: 0u32,
                                bitmap: 0u32,
                            }),
                        };
                        &&& (pkt is Some <==> crate::session::spec_rx_fresh(pre, plain.ctr))
                        &&& final(self).sess_mgr.spec_sessions()[sidx as int].rx_state
                            == crate::session::spec_rx_step(pre, plain.ctr)
                        &&& (lk is None ==> plain.sess_id == 0)
                        &&& (lk is Some ==> {
                            &&& sidx as int == lk->Some_0
                            &&& final(self).sess_mgr.spec_sessions() == old(
                                self,
                            ).sess_mgr.spec_sessions().update(
                                sidx as int,
                                (Session {
                                    rx_state: crate::session::spec_rx_step(pre, plain.ctr),
                                    ..old(self).sess_mgr.spec_sessions()[sidx as int]
                                }),
                            )
                            &&& (final(self).exchanges@.len() == old(self).exchanges@.len()
                                || final(self).exchanges@.len() == old(self).exchanges@.len() + 1)
                            &&& (forall|k: int|
                                0 <= k < final(self).exchanges@.len() && k != eidx ==> k < old(
                                    self,
                                ).exchanges@.len() && final(self).exchanges@[k] == old(
                                    self,
                                ).exchanges@[k])
                        })
                    })
                    &&& match pkt {
                        Some(p) => {
                            &&& p.plain == plain
                            &&& final(self).exchanges@[eidx as int].id == p.proto.exch_id
                            &&& final(self).exchanges@[eidx as int].role == (
                            if p.proto.is_initiator {
                                ExchangeRole::Responder
                            } else {
                                ExchangeRole::Initiator
                            })
                            &&& (final(self).exchanges@.len() == old(self).exchanges@.len() + 1
                                ==> p.proto.is_initiator)
                            &&& (plain.sess_id == 0 ==> crate::packet::spec_proto_hdr_bytes(
                                p.proto,
                            ) + p.payload@ == body@)
                            &&& (plain.sess_id != 0
                                ==> crate::crypto::spec_aes128_ccm_open(
                                final(self).sess_mgr.spec_sessions()[sidx as int].spec_dec_key(),
                                crate::packet::spec_ccm_nonce(plain),
                                hdr_bytes@,
                                body@,
                            ) == Some(
                                crate::packet::spec_proto_hdr_bytes(p.proto) + p.payload@,
                            ))
                            &&& (p.proto.is_reliable ==> final(self).exchanges@[eidx as int].mrp.ack
                                == Some(AckEntry { msg_ctr: plain.ctr }))
                        },
                        None => final(self).exchanges@[eidx as int].mrp.ack == Some(
                            AckEntry { msg_ctr: plain.ctr },
                        ),
                    }
                },
                Err(e) => e == Error::NoSession || e == Error::NoSpace || e == Error::NoExchange
                    || e == Error::InvalidData || e == Error::Invalid || e == Error::InvalidState,
            },
            ({
                let ss = old(self).sess_mgr.spec_sessions();
                let es = old(self).exchanges@;
                let lk = crate::session::spec_session_lookup(
                    ss,
                    plain.sess_id,
                    peer,
                    plain.sess_id != 0,
                );
                match lk {
                    Some(li) => {
                        let ptopt = if plain.sess_id == 0 {
                            Some(body@)
                        } else {
                            crate::crypto::spec_aes128_ccm_open(
                                ss[li].spec_dec_key(),
                                crate::packet::spec_ccm_nonce(plain),
                                hdr_bytes@,
                                body@,
                            )
                        };
                        match ptopt {
                            Some(pt) => (crate::packet::spec_proto_parseable(pt) && ({
                                let xid = crate::packet::spec_proto_exch_id(pt);
                                let init = crate::packet::spec_proto_is_initiator(pt);
                                let comp = if init {
                                    ExchangeRole::Responder
                                } else {
                                    ExchangeRole::Initiator
                                };
                                ||| (spec_has_exch(es, xid) && es[spec_idx_of(es, xid)].role
                                    == comp && es[spec_idx_of(es, xid)].sess_id == plain.sess_id)
                                ||| (!spec_has_exch(es, xid) && init && es.len() < MAX_EXCHANGES)
                            })) ==> r is Ok,
                            None => true,
                        }
                    },
                    None => true,
                }
            }),
    {
        let ghost lk = crate::session::spec_session_lookup(
            old(self).sess_mgr.spec_sessions(),
            plain.sess_id,
            peer,
            plain.sess_id != 0,
        );
        let is_enc = plain.sess_id != 0;
        // Resolve or create the session.
        let sidx = match self.sess_mgr.get(plain.sess_id, peer, is_enc) {
            Some(i) => i,
            None => {
                if is_enc {
                    return Err(Error::NoSession);
                }
                match self.sess_mgr.add(peer) {
                    Ok(i) => i,
                    Err(_) => {
                        let lru = self.sess_mgr.get_lru();
                        if self.sess_mgr.len() == 0 {
                            return Err(Error::NoSpace);
                        }
                        match self.evict_session(lru) {
                            Ok(_) => {},
                            Err(e) => {
                                return Err(e);
                            },
                        }
                        match self.sess_mgr.add(peer) {
                            Ok(i) => i,
                            Err(e) => {
                                return Err(e);
                            },
                        }
                    },
                }
            },
        };
        // Decrypt if needed, then parse the protocol part.
        let mut p: Packet = if is_enc {
            let nonce = crate::packet::plain_ccm_nonce(&plain);
            let session = &self.sess_mgr.sessions[sidx];
            let key = match session.get_dec_key() {
                Some(k) => k,
                None => {
                    return Err(Error::NoSession);
                },
            };
            let pt = match crate::crypto::aes128_ccm_open(key, nonce.as_slice(), hdr_bytes, body) {
                Ok(v) => v,
                Err(e) => {
                    return Err(e);
                },
            };
            match parse_proto(pt.as_slice()) {
                Ok(p) => p,
                Err(e) => {
                    return Err(e);
                },
            }
        } else {
            match parse_proto(body) {
                Ok(p) => p,
                Err(e) => {
                    return Err(e);
                },
            }
        };
        p.plain = plain;
        // Resolve the exchange; create only when the peer initiates.
        let role = get_complementary_role(p.proto.is_initiator);
        let eidx = match self.get(plain.sess_id, p.proto.exch_id, role, p.proto.is_initiator) {
            Ok(i) => i,
            Err(e) => {
                return Err(e);
            },
        };
        // Duplicate suppression: a replayed counter is dropped but its
        // acknowledgement is still owed.
        let ghost pre_rx = self.sess_mgr.sessions@[sidx as int].rx_state;
        let ghost pre_sessions = self.sess_mgr.sessions@;
        let session = &mut self.sess_mgr.sessions[sidx];
        let fresh = session.rx_state.post_recv(plain.ctr);
        proof {
            crate::session::lemma_rx_no_counter_twice_total(pre_rx, plain.ctr);
            assert(forall|q: int|
                0 <= q < self.sess_mgr.sessions@.len() ==> (
                #[trigger] self.sess_mgr.sessions@[q]).wf());
            assert(self.sess_mgr.wf());
            assert(self.sess_mgr.sessions@ =~= pre_sessions.update(
                sidx as int,
                (Session {
                    rx_state: crate::session::spec_rx_step(pre_rx, plain.ctr),
                    ..pre_sessions[sidx as int]
                }),
            ));
        }
        if !fresh {
            let exch = &mut self.exchanges[eidx];
            exch.mrp.ack = Some(AckEntry { msg_ctr: plain.ctr });
            return Ok((sidx, eidx, None));
        }
        let exch = &mut self.exchanges[eidx];
        exch.mrp.recv(&p.proto, plain.ctr);
        Ok((sidx, eidx, Some(p)))
    }

    /// Receive dispatch for raw datagram bytes: parses the message
    /// header and hands the rest to the header-level dispatch.
    pub fn recv_wire(&mut self, rx: &[u8], peer: Address) -> (r: Result<
        (usize, usize, Option<Packet>),
        Error,
    >)
        requires
            old(self).wf(),
        ensures
            final(self).wf(),
            match r {
                Ok((sidx, eidx, pkt)) => sidx < final(self).sess_mgr.spec_sessions().len() && eidx
                    < final(self).exchanges@.len(),
                Err(e) => e == Error::NoSession || e == Error::NoSpace || e == Error::NoExchange
                    || e == Error::InvalidData || e == Error::Invalid || e == Error::InvalidState,
            },
    {
        let (plain, consumed) = match crate::packet::parse_plain_hdr(rx) {
            Ok(v) => v,
            Err(e) => {
                return Err(e);
            },
        };
        let hdr_bytes = vstd::slice::slice_subrange(rx, 0, consumed);
        let body = vstd::slice::slice_subrange(rx, consumed, rx.len());
        self.recv(plain, hdr_bytes, body, peer)
    }
}


/// Every member of a filtered table is a member of the original.
pub proof fn lemma_filter_members(es: Seq<Exchange>, pred: spec_fn(Exchange) -> bool)
    ensures
        forall|i: int|
            0 <= i < es.filter(pred).len() ==> exists|w: int|
                0 <= w < es.len() && es[w] == #[trigger] es.filter(pred)[i],
    decreases es.len(),
{
    reveal_with_fuel(Seq::<Exchange>::filter, 2);
    if es.len() == 0 {
    } else {
        let pre = es.drop_last();
        lemma_filter_members(pre, pred);
        assert forall|i: int|
            0 <= i < es.filter(pred).len() implies exists|w: int|
            0 <= w < es.len() && es[w] == #[trigger] es.filter(pred)[i] by {
            if i < pre.filter(pred).len() {
                let w = choose|w: int|
                    0 <= w < pre.len() && pre[w] == #[trigger] pre.filter(pred)[i];
                assert(es[w] == es.filter(pred)[i]);
            } else {
                assert(es[es.len() - 1] == es.filter(pred)[i]);
            }
        }
    }
}

/// Filtering a table with unique ids keeps the ids unique and the
/// length bounded.
pub proof fn lemma_filter_unique_ids(es: Seq<Exchange>, pred: spec_fn(Exchange) -> bool)
    requires
        forall|i: int, j: int|
            0 <= i < j < es.len() ==> (#[trigger] es[i].id) != (#[trigger] es[j].id),
    ensures
        es.filter(pred).len() <= es.len(),
        forall|i: int, j: int|
            0 <= i < j < es.filter(pred).len() ==> (#[trigger] es.filter(pred)[i].id) != (
            #[trigger] es.filter(pred)[j].id),
    decreases es.len(),
{
    reveal_with_fuel(Seq::<Exchange>::filter, 2);
    if es.len() == 0 {
    } else {
        let pre = es.drop_last();
        let last = es.last();
        assert(forall|i: int, j: int|
            0 <= i < j < pre.len() ==> (#[trigger] pre[i].id) != (#[trigger] pre[j].id));
        lemma_filter_unique_ids(pre, pred);
        pre.filter_lemma(pred);
        lemma_filter_members(pre, pred);
        if pred(last) {
            assert(es.filter(pred) == pre.filter(pred).push(last));
            assert forall|i: int, j: int|
                0 <= i < j < es.filter(pred).len() implies (#[trigger] es.filter(pred)[i].id) != (
            #[trigger] es.filter(pred)[j].id) by {
                if j == es.filter(pred).len() - 1 {
                    let fi = pre.filter(pred)[i];
                    let wi = choose|w: int| 0 <= w < pre.len() && pre[w] == fi;
                    assert(es[wi].id == fi.id);
                    assert(es[es.len() - 1].id == last.id);
                }
            }
        } else {
            assert(es.filter(pred) == pre.filter(pred));
        }
    }
}

/// Two tables of the same length whose members agree wherever the
/// predicate holds, and agree on the predicate everywhere, filter to
/// the same table.
pub proof fn lemma_filter_congruent(a: Seq<Exchange>, b: Seq<Exchange>, pred: spec_fn(Exchange) -> bool)
    requires
        a.len() == b.len(),
        forall|k: int| 0 <= k < a.len() ==> (pred(#[trigger] a[k]) <==> pred(#[trigger] b[k])),
        forall|k: int| 0 <= k < a.len() && pred(#[trigger] a[k]) ==> a[k] == b[k],
    ensures
        a.filter(pred) == b.filter(pred),
    decreases a.len(),
{
    reveal_with_fuel(Seq::<Exchange>::filter, 2);
    if a.len() > 0 {
        lemma_filter_congruent(a.drop_last(), b.drop_last(), pred);
        assert(forall|k: int|
            0 <= k < a.len() - 1 ==> a.drop_last()[k] == #[trigger] a[k] && b.drop_last()[k]
                == b[k]);
        assert(a[a.len() - 1] == a.last() && b[b.len() - 1] == b.last());
    }
}

/// Every member of a filtered table satisfies the predicate.
pub proof fn lemma_filter_keeps_pred(es: Seq<Exchange>, pred: spec_fn(Exchange) -> bool)
    ensures
        forall|i: int| 0 <= i < es.filter(pred).len() ==> pred(#[trigger] es.filter(pred)[i]),
{
    es.filter_lemma(pred);
}

} // verus!
