//! Message Reliability Protocol state, per exchange: one outbound
//! retransmission slot and one pending inbound acknowledgement.
//!
//! On send, a reliable message parks its counter in the retransmission
//! slot and any pending acknowledgement rides along.  On receive, a
//! matching acknowledgement clears the slot, and a reliable inbound
//! message marks an acknowledgement as owed.

use vstd::prelude::*;

use crate::error::Error;
use crate::packet::Packet;
use crate::packet::ProtoHdr;

verus! {

/// The one outstanding retransmission: the counter of the unacked
/// outbound message.
#[derive(Clone, Copy, Debug, PartialEq, Eq, Structural)]
pub struct RetransEntry {
    pub msg_ctr: u32,
}

/// The one owed acknowledgement: the counter of the peer message to
/// acknowledge.
#[derive(Clone, Copy, Debug, PartialEq, Eq, Structural)]
pub struct AckEntry {
    pub msg_ctr: u32,
}

/// Reliability state of one exchange.
#[derive(Clone, Copy, Debug, PartialEq, Eq, Structural)]
pub struct ReliableMessage {
    pub retrans: Option<RetransEntry>,
    pub ack: Option<AckEntry>,
}

impl ReliableMessage {
    /// Fresh state: nothing outstanding, nothing owed.
    pub fn new() -> (r: ReliableMessage)
        ensures
            r == (ReliableMessage { retrans: None::<RetransEntry>, ack: None::<AckEntry> }),
    {
        ReliableMessage { retrans: None, ack: None }
    }

    /// Nothing outstanding and nothing owed: the exchange may be
    /// purged.
    pub fn is_empty(&self) -> (r: bool)
        ensures
            r == (self.retrans is None && self.ack is None),
    {
        self.retrans.is_none() && self.ack.is_none()
    }

    /// An acknowledgement is owed to the peer.
    pub fn is_ack_ready(&self) -> (r: bool)
        ensures
            r == (self.ack is Some),
    {
        self.ack.is_some()
    }

    /// Outbound bookkeeping: any owed acknowledgement is piggybacked on
    /// the packet and cleared; a reliable message parks its counter in
    /// the retransmission slot, of which there is at most one.
    pub fn pre_send(&mut self, p: &mut Packet) -> (r: Result<(), Error>)
        ensures
            match r {
                Ok(()) => {
                    &&& final(p).proto == (ProtoHdr {
                        ack_ctr: match old(self).ack {
                            Some(a) => Some(a.msg_ctr),
                            None => old(p).proto.ack_ctr,
                        },
                        ..old(p).proto
                    })
                    &&& final(p).plain == old(p).plain
                    &&& final(p).payload@ == old(p).payload@
                    &&& final(self).ack is None
                    &&& final(self).retrans == (if old(p).proto.is_reliable {
                        Some(RetransEntry { msg_ctr: old(p).plain.ctr })
                    } else {
                        old(self).retrans
                    })
                    &&& (old(p).proto.is_reliable ==> old(self).retrans is None)
                },
                Err(e) => {
                    &&& e == Error::Invalid
                    &&& old(p).proto.is_reliable
                    &&& old(self).retrans is Some
                    &&& *final(self) == *old(self)
                    &&& *final(p) == *old(p)
                },
            },
    {
        if p.proto.is_reliable && self.retrans.is_some() {
            return Err(Error::Invalid);
        }
        match self.ack {
            Some(a) => {
                p.proto.ack_ctr = Some(a.msg_ctr);
                self.ack = None;
            },
            None => {},
        }
        if p.proto.is_reliable {
            self.retrans = Some(RetransEntry { msg_ctr: p.plain.ctr });
        }
        Ok(())
    }

    /// Inbound bookkeeping: a matching acknowledgement clears the
    /// retransmission slot, and a reliable message leaves an
    /// acknowledgement owed under its counter.
    pub fn recv(&mut self, proto: &ProtoHdr, plain_ctr: u32)
        ensures
            final(self).retrans == (match (old(self).retrans, proto.ack_ctr) {
                (Some(re), Some(a)) => if re.msg_ctr == a {
                    None
                } else {
                    Some(re)
                },
                (re, _) => re,
            }),
            final(self).ack == (if proto.is_reliable {
                Some(AckEntry { msg_ctr: plain_ctr })
            } else {
                old(self).ack
            }),
    {
        match (self.retrans, proto.ack_ctr) {
            (Some(re), Some(a)) => {
                if re.msg_ctr == a {
                    self.retrans = None;
                }
            },
            _ => {},
        }
        if proto.is_reliable {
            self.ack = Some(AckEntry { msg_ctr: plain_ctr });
        }
    }
}

} // verus!
