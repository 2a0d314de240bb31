//! Transport sessions: one peer endpoint association each, held in a
//! fixed-capacity table whose order is the LRU rank.
//!
//! A session starts life in plaintext with a reserved child session id;
//! a successful key exchange clones it into an encrypted session with
//! the derived keys.  Outbound message counters are strictly monotonic
//! and never reused within a session; inbound counters are checked
//! against a 32-slot duplicate window.

use vstd::prelude::*;

use crate::crypto::{aes128_ccm_seal, spec_aes128_ccm_seal};
use crate::error::Error;
use crate::packet::{spec_plain_hdr_bytes, spec_proto_hdr_bytes, Packet, PlainHdr};

verus! {

/// Key size of the AES-128-CCM session keys.
pub const MATTER_AES128_KEY_SIZE: usize = 16;

/// Capacity of the session table.
pub const MAX_SESSIONS: usize = 16;

/// A network-layer peer address: IP value and port, as plain numbers.
#[derive(Clone, Copy, Debug, PartialEq, Eq, Structural)]
pub struct Address {
    pub ip: u64,
    pub port: u16,
}

/// Transport mode of a session.
#[derive(Clone, Copy, Debug, PartialEq, Eq, Structural)]
pub enum SessionMode {
    /// Encrypted with keys from a passcode-authenticated exchange.
    Pase,
    /// Encrypted with keys from a certificate-authenticated exchange.
    Case,
    /// The plaintext bootstrap mode.
    PlainText,
}

/// Inbound duplicate-suppression state: the highest counter seen and a
/// bitmap of the 32 counters just below it.
#[derive(Clone, Copy, Debug, PartialEq, Eq, Structural)]
pub struct RxCtrState {
    pub init: bool,
    pub max_ctr: u32,
    pub bitmap: u32,
}

/// Whether a counter is recorded as already received: the current
/// maximum, or a set bit within the 32-slot window below it.
pub open spec fn spec_rx_seen(s: RxCtrState, ctr: u32) -> bool {
    s.init && (ctr == s.max_ctr || (ctr < s.max_ctr && s.max_ctr - ctr <= 32 && (s.bitmap >> (
    s.max_ctr - ctr - 1) as u32) & 1 == 1))
}

/// Whether a counter is accepted as fresh: states that were never fed a
/// counter accept anything; otherwise only counters above the maximum,
/// or unseen ones within the window, are fresh.  Counters older than
/// the window cannot be told apart from replays and are not fresh.
pub open spec fn spec_rx_fresh(s: RxCtrState, ctr: u32) -> bool {
    if !s.init {
        true
    } else if ctr > s.max_ctr {
        true
    } else if ctr == s.max_ctr {
        false
    } else {
        s.max_ctr - ctr <= 32 && (s.bitmap >> (s.max_ctr - ctr - 1) as u32) & 1 == 0
    }
}

/// The duplicate-window state after one inbound counter.
pub open spec fn spec_rx_step(s: RxCtrState, ctr: u32) -> RxCtrState {
    if !s.init {
        RxCtrState { init: true, max_ctr: ctr, bitmap: 0 }
    } else if ctr > s.max_ctr {
        let diff = (ctr - s.max_ctr) as u32;
        let shifted = if diff >= 32 {
            0u32
        } else {
            s.bitmap << diff
        };
        let with_old = if diff <= 32 {
            shifted | (1u32 << (diff - 1) as u32)
        } else {
            shifted
        };
        RxCtrState { init: true, max_ctr: ctr, bitmap: with_old }
    } else if ctr == s.max_ctr {
        s
    } else if s.max_ctr - ctr <= 32 {
        RxCtrState {
            init: true,
            max_ctr: s.max_ctr,
            bitmap: s.bitmap | (1u32 << (s.max_ctr - ctr - 1) as u32),
        }
    } else {
        s
    }
}

/// A counter the window has recorded is never fresh: replays within the
/// window are always rejected.
pub proof fn lemma_rx_duplicate_rejected(s: RxCtrState, ctr: u32)
    requires
        spec_rx_seen(s, ctr),
    ensures
        !spec_rx_fresh(s, ctr),
{
}

/// After a fresh counter is recorded, the same counter is seen, and so
/// no longer fresh: a counter is accepted at most once.
pub proof fn lemma_rx_no_counter_twice(s: RxCtrState, ctr: u32)
    requires
        spec_rx_fresh(s, ctr),
    ensures
        spec_rx_seen(spec_rx_step(s, ctr), ctr),
        !spec_rx_fresh(spec_rx_step(s, ctr), ctr),
{
    let s2 = spec_rx_step(s, ctr);
    if !s.init {
        assert(s2.max_ctr == ctr);
    } else if ctr > s.max_ctr {
        assert(s2.max_ctr == ctr);
    } else {
        let k = (s.max_ctr - ctr - 1) as u32;
        let bm = s.bitmap;
        assert(k < 32 ==> ((bm | (1u32 << k)) >> k) & 1 == 1) by (bit_vector);
    }
}

/// A counter accepted as fresh is recorded by the step that accepted
/// it.
pub proof fn lemma_rx_no_counter_twice_total(s: RxCtrState, ctr: u32)
    ensures
        spec_rx_fresh(s, ctr) ==> spec_rx_seen(spec_rx_step(s, ctr), ctr),
{
    if spec_rx_fresh(s, ctr) {
        lemma_rx_no_counter_twice(s, ctr);
    }
}

impl RxCtrState {
    /// A window that has seen nothing.
    pub fn new() -> (r: RxCtrState)
        ensures
            r == (RxCtrState { init: false, max_ctr: 0u32, bitmap: 0u32 }),
    {
        RxCtrState { init: false, max_ctr: 0, bitmap: 0 }
    }

    /// Feeds one inbound counter; true means fresh (accept), false
    /// means duplicate or too old (drop, but still acknowledge).
    pub fn post_recv(&mut self, ctr: u32) -> (r: bool)
        ensures
            r == spec_rx_fresh(*old(self), ctr),
            *final(self) == spec_rx_step(*old(self), ctr),
    {
        if !self.init {
            self.init = true;
            self.max_ctr = ctr;
            self.bitmap = 0;
            true
        } else if ctr > self.max_ctr {
            let diff = ctr - self.max_ctr;
            let shifted: u32 = if diff >= 32 {
                0
            } else {
                self.bitmap << diff
            };
            let with_old: u32 = if diff <= 32 {
                shifted | (1u32 << (diff - 1))
            } else {
                shifted
            };
            self.max_ctr = ctr;
            self.bitmap = with_old;
            true
        } else if ctr == self.max_ctr {
            false
        } else if self.max_ctr - ctr <= 32 {
            let k = self.max_ctr - ctr - 1;
            let fresh = (self.bitmap >> k) & 1 == 0;
            self.bitmap = self.bitmap | (1u32 << k);
            fresh
        } else {
            false
        }
    }
}

/// What a successful key exchange hands over to build the encrypted
/// session that replaces the plaintext bootstrap.
#[derive(Debug)]
pub struct CloneData {
    pub dec_key: Vec<u8>,
    pub enc_key: Vec<u8>,
    pub att_challenge: Vec<u8>,
    pub local_nodeid: u64,
    pub peer_nodeid: u64,
    pub peer_sess_id: u16,
    pub local_sess_id: u16,
    pub peer_addr: Address,
    pub mode: SessionMode,
}

impl CloneData {
    /// Clone data with zeroed keys, to be filled by the key schedule.
    pub fn new(
        local_nodeid: u64,
        peer_nodeid: u64,
        peer_sess_id: u16,
        local_sess_id: u16,
        peer_addr: Address,
        mode: SessionMode,
    ) -> (r: CloneData)
        ensures
            r.local_nodeid == local_nodeid,
            r.peer_nodeid == peer_nodeid,
            r.peer_sess_id == peer_sess_id,
            r.local_sess_id == local_sess_id,
            r.peer_addr == peer_addr,
            r.mode == mode,
            r.dec_key@ == Seq::new(MATTER_AES128_KEY_SIZE as nat, |i: int| 0u8),
            r.enc_key@ == Seq::new(MATTER_AES128_KEY_SIZE as nat, |i: int| 0u8),
            r.att_challenge@ == Seq::new(MATTER_AES128_KEY_SIZE as nat, |i: int| 0u8),
    {
        let mut dec_key: Vec<u8> = Vec::new();
        let mut enc_key: Vec<u8> = Vec::new();
        let mut att_challenge: Vec<u8> = Vec::new();
        let mut i: usize = 0;
        while i < MATTER_AES128_KEY_SIZE
            invariant
                i <= MATTER_AES128_KEY_SIZE,
                dec_key@ =~= Seq::new(i as nat, |j: int| 0u8),
                enc_key@ =~= Seq::new(i as nat, |j: int| 0u8),
                att_challenge@ =~= Seq::new(i as nat, |j: int| 0u8),
            decreases MATTER_AES128_KEY_SIZE - i,
        {
            dec_key.push(0);
            enc_key.push(0);
            att_challenge.push(0);
            proof {
                assert(dec_key@ =~= Seq::new((i + 1) as nat, |j: int| 0u8));
                assert(enc_key@ =~= Seq::new((i + 1) as nat, |j: int| 0u8));
                assert(att_challenge@ =~= Seq::new((i + 1) as nat, |j: int| 0u8));
            }
            i = i + 1;
        }
        CloneData {
            dec_key,
            enc_key,
            att_challenge,
            local_nodeid,
            peer_nodeid,
            peer_sess_id,
            local_sess_id,
            peer_addr,
            mode,
        }
    }
}

/// One peer endpoint association: keys, ids, outbound counter and the
/// inbound duplicate window.
#[derive(Debug)]
pub struct Session {
    pub peer_addr: Address,
    pub dec_key: Vec<u8>,
    pub enc_key: Vec<u8>,
    pub att_challenge: Vec<u8>,
    pub local_sess_id: u16,
    pub peer_sess_id: u16,
    pub child_local_sess_id: u16,
    pub msg_ctr: u32,
    pub rx_state: RxCtrState,
    pub mode: SessionMode,
}

impl Session {
    /// Structural facts every session maintains.
    pub open spec fn wf(&self) -> bool {
        &&& self.dec_key@.len() == MATTER_AES128_KEY_SIZE
        &&& self.enc_key@.len() == MATTER_AES128_KEY_SIZE
        &&& self.att_challenge@.len() == MATTER_AES128_KEY_SIZE
        &&& self.msg_ctr >= 1
    }

    /// Our id on this session; zero on the plaintext bootstrap.
    pub open spec fn spec_local_sess_id(&self) -> u16 {
        self.local_sess_id
    }

    /// The id reserved for the encrypted session this one will become.
    pub open spec fn spec_child_local_sess_id(&self) -> u16 {
        self.child_local_sess_id
    }

    /// The peer's id on this session.
    pub open spec fn spec_peer_sess_id(&self) -> u16 {
        self.peer_sess_id
    }

    /// The next outbound counter this session will assign.
    pub open spec fn spec_msg_ctr(&self) -> u32 {
        self.msg_ctr
    }

    /// Transport mode.
    pub open spec fn spec_mode(&self) -> SessionMode {
        self.mode
    }

    /// Outbound encryption key bytes.
    pub open spec fn spec_enc_key(&self) -> Seq<u8> {
        self.enc_key@
    }

    /// Inbound decryption key bytes.
    pub open spec fn spec_dec_key(&self) -> Seq<u8> {
        self.dec_key@
    }

    /// A fresh plaintext bootstrap session for a peer, carrying the
    /// reserved child session id.
    pub fn new(child_local_sess_id: u16, peer_addr: Address) -> (r: Session)
        ensures
            r.wf(),
            r.peer_addr == peer_addr,
            r.spec_local_sess_id() == 0,
            r.spec_child_local_sess_id() == child_local_sess_id,
            r.spec_peer_sess_id() == 0,
            r.spec_msg_ctr() == 1,
            r.spec_mode() == SessionMode::PlainText,
            r.rx_state == (RxCtrState { init: false, max_ctr: 0u32, bitmap: 0u32 }),
    {
        let zeros = CloneData::new(0, 0, 0, 0, peer_addr, SessionMode::PlainText);
        Session {
            peer_addr,
            dec_key: zeros.dec_key,
            enc_key: zeros.enc_key,
            att_challenge: zeros.att_challenge,
            local_sess_id: 0,
            peer_sess_id: 0,
            child_local_sess_id,
            msg_ctr: 1,
            rx_state: RxCtrState::new(),
            mode: SessionMode::PlainText,
        }
    }

    /// The encrypted session built from what a key exchange handed
    /// over; counters restart at one.  The plaintext bootstrap that
    /// reserved the id is discarded separately, through
    /// [`SessionMgr::remove_bootstrap`], once this session is live.
    pub fn clone(clone_from: &CloneData) -> (r: Session)
        requires
            clone_from.dec_key@.len() == MATTER_AES128_KEY_SIZE,
            clone_from.enc_key@.len() == MATTER_AES128_KEY_SIZE,
            clone_from.att_challenge@.len() == MATTER_AES128_KEY_SIZE,
        ensures
            r.wf(),
            r.peer_addr == clone_from.peer_addr,
            r.spec_local_sess_id() == clone_from.local_sess_id,
            r.spec_peer_sess_id() == clone_from.peer_sess_id,
            r.spec_child_local_sess_id() == 0,
            r.spec_msg_ctr() == 1,
            r.spec_mode() == clone_from.mode,
            r.spec_enc_key() == clone_from.enc_key@,
            r.spec_dec_key() == clone_from.dec_key@,
    {
        Session {
            peer_addr: clone_from.peer_addr,
            dec_key: vstd::slice::slice_to_vec(clone_from.dec_key.as_slice()),
            enc_key: vstd::slice::slice_to_vec(clone_from.enc_key.as_slice()),
            att_challenge: vstd::slice::slice_to_vec(clone_from.att_challenge.as_slice()),
            local_sess_id: clone_from.local_sess_id,
            peer_sess_id: clone_from.peer_sess_id,
            child_local_sess_id: 0,
            msg_ctr: 1,
            rx_state: RxCtrState::new(),
            mode: clone_from.mode,
        }
    }

    /// Our id on this session.
    pub fn get_local_sess_id(&self) -> (r: u16)
        ensures
            r == self.spec_local_sess_id(),
    {
        self.local_sess_id
    }

    /// The reserved child session id.
    pub fn get_child_local_sess_id(&self) -> (r: u16)
        ensures
            r == self.spec_child_local_sess_id(),
    {
        self.child_local_sess_id
    }

    /// The peer's id on this session.
    pub fn get_peer_sess_id(&self) -> (r: u16)
        ensures
            r == self.spec_peer_sess_id(),
    {
        self.peer_sess_id
    }

    /// Promotes the reserved child id to the live local id.
    pub fn set_local_sess_id(&mut self)
        ensures
            final(self).spec_local_sess_id() == old(self).spec_child_local_sess_id(),
            *final(self) == (Session {
                local_sess_id: old(self).spec_child_local_sess_id(),
                ..*old(self)
            }),
    {
        self.local_sess_id = self.child_local_sess_id;
    }

    /// Forces the local id back to zero, as the commissioning bypass
    /// path requires.
    pub fn cheat_set_zero_local_sess_id(&mut self)
        ensures
            *final(self) == (Session { local_sess_id: 0u16, ..*old(self) }),
    {
        self.local_sess_id = 0;
    }

    /// Whether traffic on this session is encrypted.
    pub fn is_encrypted(&self) -> (r: bool)
        ensures
            r == (self.spec_mode() == SessionMode::Pase || self.spec_mode() == SessionMode::Case),
    {
        match self.mode {
            SessionMode::Pase | SessionMode::Case => true,
            SessionMode::PlainText => false,
        }
    }

    /// Hands out the next outbound message counter.  Counters are
    /// strictly increasing and never reused within a session; the
    /// caller never sees the same value twice.
    pub fn get_msg_ctr(&mut self) -> (r: u32)
        requires
            old(self).spec_msg_ctr() < u32::MAX,
        ensures
            r == old(self).spec_msg_ctr(),
            *final(self) == (Session { msg_ctr: (old(self).spec_msg_ctr() + 1) as u32, ..*old(self) }),
    {
        let ctr = self.msg_ctr;
        self.msg_ctr = self.msg_ctr + 1;
        ctr
    }

    /// The inbound key; none on a plaintext session.
    pub fn get_dec_key(&self) -> (r: Option<&[u8]>)
        ensures
            match r {
                Some(k) => (self.spec_mode() == SessionMode::Pase || self.spec_mode()
                    == SessionMode::Case) && k@ == self.spec_dec_key(),
                None => self.spec_mode() == SessionMode::PlainText,
            },
    {
        match self.mode {
            SessionMode::Pase | SessionMode::Case => Some(self.dec_key.as_slice()),
            SessionMode::PlainText => None,
        }
    }

    /// The outbound key; none on a plaintext session.
    pub fn get_enc_key(&self) -> (r: Option<&[u8]>)
        ensures
            match r {
                Some(k) => (self.spec_mode() == SessionMode::Pase || self.spec_mode()
                    == SessionMode::Case) && k@ == self.spec_enc_key(),
                None => self.spec_mode() == SessionMode::PlainText,
            },
    {
        match self.mode {
            SessionMode::Pase | SessionMode::Case => Some(self.enc_key.as_slice()),
            SessionMode::PlainText => None,
        }
    }

    /// Turns the bootstrap session into an encrypted one in place: the
    /// child id becomes the local id, keys of the right length are
    /// installed, and the mode flips to PASE.
    pub fn activate(&mut self, dec_key: &[u8], enc_key: &[u8], peer_sess_id: u16) -> (r: Result<
        (),
        Error,
    >)
        requires
            old(self).wf(),
        ensures
            final(self).wf(),
            r is Ok,
            final(self).spec_local_sess_id() == old(self).spec_child_local_sess_id(),
            final(self).spec_peer_sess_id() == peer_sess_id,
            final(self).spec_mode() == SessionMode::Pase,
            final(self).spec_enc_key() == if enc_key@.len() == MATTER_AES128_KEY_SIZE {
                enc_key@
            } else {
                old(self).spec_enc_key()
            },
            final(self).spec_dec_key() == if dec_key@.len() == MATTER_AES128_KEY_SIZE {
                dec_key@
            } else {
                old(self).spec_dec_key()
            },
            final(self).spec_msg_ctr() == old(self).spec_msg_ctr(),
    {
        self.local_sess_id = self.child_local_sess_id;
        self.peer_sess_id = peer_sess_id;
        if enc_key.len() == MATTER_AES128_KEY_SIZE {
            self.enc_key = vstd::slice::slice_to_vec(enc_key);
        }
        if dec_key.len() == MATTER_AES128_KEY_SIZE {
            self.dec_key = vstd::slice::slice_to_vec(dec_key);
        }
        self.mode = SessionMode::Pase;
        Ok(())
    }
}

/// Outbound counters within a session strictly increase across any run
/// of sends, so no counter is ever reused: if one send happens before
/// another on the same session, the first counter is strictly below the
/// second.
pub proof fn lemma_msg_ctr_never_reused(s0: Session, s1: Session, s2: Session, c1: u32, c2: u32)
    requires
        c1 == s0.spec_msg_ctr() && s1.spec_msg_ctr() == c1 + 1,
        s2.spec_msg_ctr() >= s1.spec_msg_ctr(),
        c2 == s2.spec_msg_ctr(),
    ensures
        c1 < c2,
{
}

/// Counters handed out over a whole run are pairwise distinct and in
/// strictly increasing order.  `states[i]` is the session before the
/// `i`-th send; each send hands out the session's counter and leaves a
/// strictly larger one behind, and whatever else happens between sends
/// never lowers it.
pub proof fn lemma_msg_ctr_run_distinct(ctrs: Seq<u32>, states: Seq<Session>, i: int, j: int)
    requires
        states.len() == ctrs.len() + 1,
        forall|k: int|
            #![trigger ctrs[k]]
            0 <= k < ctrs.len() ==> ctrs[k] == states[k].spec_msg_ctr() && states[k
                + 1].spec_msg_ctr() > ctrs[k],
        0 <= i < j < ctrs.len(),
    ensures
        ctrs[i] < ctrs[j],
    decreases j - i,
{
    if j == i + 1 {
        assert(ctrs[i] == states[i].spec_msg_ctr() && states[i + 1].spec_msg_ctr() > ctrs[i]);
        assert(ctrs[j] == states[j].spec_msg_ctr());
    } else {
        lemma_msg_ctr_run_distinct(ctrs, states, i, j - 1);
        assert(ctrs[j - 1] == states[j - 1].spec_msg_ctr() && states[j].spec_msg_ctr() > ctrs[j
            - 1]);
        assert(ctrs[j] == states[j].spec_msg_ctr());
    }
}

/// Whether one session holds an id, as its local id or its reserved
/// child id.
pub open spec fn spec_blocks(s: Session, id: u16) -> bool {
    s.spec_local_sess_id() == id || s.spec_child_local_sess_id() == id
}

/// Whether a session id is already taken by a live session, as its
/// local id or its reserved child id.
pub open spec fn spec_id_in_use(ss: Seq<Session>, id: u16) -> bool {
    exists|i: int| 0 <= i < ss.len() && #[trigger] spec_blocks(ss[i], id)
}

/// The id after `id` in allocation order: ids count up and wrap from
/// 65535 back to one, skipping zero.
pub open spec fn spec_wrap_succ(id: u16) -> u16 {
    if id == 0xFFFF {
        1u16
    } else {
        (id + 1) as u16
    }
}

/// The first id at or after `start` in allocation order that no live
/// session holds, giving up after `fuel` candidates.
pub open spec fn spec_next_free_id(ss: Seq<Session>, start: u16, fuel: nat) -> Option<u16>
    decreases fuel,
{
    if fuel == 0 {
        None
    } else if !spec_id_in_use(ss, start) {
        Some(start)
    } else {
        spec_next_free_id(ss, spec_wrap_succ(start), (fuel - 1) as nat)
    }
}

/// Whether one session matches an inbound packet's lookup key: the
/// local id, the peer address, and whether the transport is encrypted.
pub open spec fn spec_sess_matches(s: Session, sess_id: u16, peer_addr: Address, is_encrypted: bool) -> bool {
    s.spec_local_sess_id() == sess_id && s.peer_addr == peer_addr && (s.spec_mode()
        != SessionMode::PlainText) == is_encrypted
}

/// Index of the first session matching a lookup key.
pub open spec fn spec_session_lookup(
    ss: Seq<Session>,
    sess_id: u16,
    peer_addr: Address,
    is_encrypted: bool,
) -> Option<int>
    decreases ss.len(),
{
    if ss.len() == 0 {
        None
    } else if spec_sess_matches(ss[0], sess_id, peer_addr, is_encrypted) {
        Some(0int)
    } else {
        match spec_session_lookup(ss.drop_first(), sess_id, peer_addr, is_encrypted) {
            Some(i) => Some(i + 1),
            None => None,
        }
    }
}

/// A match at an index with no earlier match is the lookup result.
pub proof fn lemma_session_lookup_at(
    ss: Seq<Session>,
    sess_id: u16,
    peer_addr: Address,
    is_encrypted: bool,
    i: int,
)
    requires
        0 <= i < ss.len(),
        spec_sess_matches(ss[i], sess_id, peer_addr, is_encrypted),
        forall|j: int| 0 <= j < i ==> !spec_sess_matches(#[trigger] ss[j], sess_id, peer_addr, is_encrypted),
    ensures
        spec_session_lookup(ss, sess_id, peer_addr, is_encrypted) == Some(i),
    decreases ss.len(),
{
    if i > 0 {
        lemma_session_lookup_at(ss.drop_first(), sess_id, peer_addr, is_encrypted, i - 1);
        assert(forall|j: int|
            0 <= j < i - 1 ==> ss.drop_first()[j] == #[trigger] ss[j + 1]);
    }
}

/// No match anywhere means the lookup finds nothing.
pub proof fn lemma_session_lookup_none(
    ss: Seq<Session>,
    sess_id: u16,
    peer_addr: Address,
    is_encrypted: bool,
)
    requires
        forall|j: int|
            0 <= j < ss.len() ==> !spec_sess_matches(#[trigger] ss[j], sess_id, peer_addr, is_encrypted),
    ensures
        spec_session_lookup(ss, sess_id, peer_addr, is_encrypted) is None,
    decreases ss.len(),
{
    if ss.len() > 0 {
        lemma_session_lookup_none(ss.drop_first(), sess_id, peer_addr, is_encrypted);
        assert(forall|j: int|
            0 <= j < ss.len() - 1 ==> ss.drop_first()[j] == #[trigger] ss[j + 1]);
    }
}

/// Index of the first session holding a local id.
pub open spec fn spec_sess_id_lookup(ss: Seq<Session>, sess_id: u16) -> Option<int>
    decreases ss.len(),
{
    if ss.len() == 0 {
        None
    } else if ss[0].spec_local_sess_id() == sess_id {
        Some(0int)
    } else {
        match spec_sess_id_lookup(ss.drop_first(), sess_id) {
            Some(i) => Some(i + 1),
            None => None,
        }
    }
}

/// A holder at an index with no earlier holder is the lookup result.
pub proof fn lemma_sess_id_lookup_at(ss: Seq<Session>, sess_id: u16, i: int)
    requires
        0 <= i < ss.len(),
        ss[i].spec_local_sess_id() == sess_id,
        forall|j: int| 0 <= j < i ==> (#[trigger] ss[j]).spec_local_sess_id() != sess_id,
    ensures
        spec_sess_id_lookup(ss, sess_id) == Some(i),
    decreases ss.len(),
{
    if i > 0 {
        lemma_sess_id_lookup_at(ss.drop_first(), sess_id, i - 1);
        assert(forall|j: int| 0 <= j < i - 1 ==> ss.drop_first()[j] == #[trigger] ss[j + 1]);
    }
}

/// No holder anywhere means the lookup finds nothing.
pub proof fn lemma_sess_id_lookup_none(ss: Seq<Session>, sess_id: u16)
    requires
        forall|j: int| 0 <= j < ss.len() ==> (#[trigger] ss[j]).spec_local_sess_id() != sess_id,
    ensures
        spec_sess_id_lookup(ss, sess_id) is None,
    decreases ss.len(),
{
    if ss.len() > 0 {
        lemma_sess_id_lookup_none(ss.drop_first(), sess_id);
        assert(forall|j: int| 0 <= j < ss.len() - 1 ==> ss.drop_first()[j] == #[trigger] ss[j + 1]);
    }
}

/// The fixed-capacity session table.  Vector order is the LRU rank:
/// the front is the least recently touched session.
#[derive(Debug)]
pub struct SessionMgr {
    pub next_sess_id: u16,
    pub sessions: Vec<Session>,
}

impl SessionMgr {
    /// Structural facts the table maintains.
    pub open spec fn wf(&self) -> bool {
        &&& self.sessions@.len() <= MAX_SESSIONS
        &&& self.next_sess_id >= 1
        &&& forall|i: int| 0 <= i < self.sessions@.len() ==> (#[trigger] self.sessions@[i]).wf()
    }

    /// The live sessions, in LRU order.
    pub open spec fn spec_sessions(&self) -> Seq<Session> {
        self.sessions@
    }

    /// An empty table; ids are handed out from one.
    pub fn new() -> (r: SessionMgr)
        ensures
            r.wf(),
            r.spec_sessions() == Seq::<Session>::empty(),
            r.next_sess_id == 1,
    {
        let r = SessionMgr { next_sess_id: 1, sessions: Vec::new() };
        proof {
            assert(r.spec_sessions() =~= Seq::<Session>::empty());
        }
        r
    }

    /// Number of live sessions.
    pub fn len(&self) -> (r: usize)
        ensures
            r == self.spec_sessions().len(),
    {
        self.sessions.len()
    }

    /// Hands out the first free session id at or after the allocation
    /// cursor: ids count up and wrap from 65535 back to one, zero is
    /// never used, and an id held by any live session, as local or
    /// child id, is skipped.  The cursor moves just past the returned
    /// id.
    pub fn get_next_sess_id(&mut self) -> (r: Result<u16, Error>)
        requires
            old(self).wf(),
        ensures
            final(self).wf(),
            final(self).spec_sessions() == old(self).spec_sessions(),
            match r {
                Ok(id) => {
                    &&& id != 0
                    &&& !spec_id_in_use(final(self).spec_sessions(), id)
                    &&& Some(id) == spec_next_free_id(
                        old(self).spec_sessions(),
                        old(self).next_sess_id,
                        65535nat,
                    )
                    &&& final(self).next_sess_id == spec_wrap_succ(id)
                },
                Err(e) => e == Error::NoSpace && spec_next_free_id(
                    old(self).spec_sessions(),
                    old(self).next_sess_id,
                    65535nat,
                ) is None,
            },
    {
        let ghost ss = self.sessions@;
        let ghost start0 = self.next_sess_id;
        let mut attempts: u32 = 0;
        while attempts < 65535
            invariant
                self.wf(),
                self.sessions@ == old(self).sessions@,
                ss == self.sessions@,
                start0 == old(self).next_sess_id,
                attempts <= 65535,
                self.next_sess_id != 0,
                spec_next_free_id(ss, start0, 65535nat) == spec_next_free_id(
                    ss,
                    self.next_sess_id,
                    (65535 - attempts) as nat,
                ),
            decreases 65535 - attempts,
        {
            let candidate = self.next_sess_id;
            if self.next_sess_id == u16::MAX {
                self.next_sess_id = 1;
            } else {
                self.next_sess_id = self.next_sess_id + 1;
            }
            let mut taken = false;
            let mut i: usize = 0;
            while i < self.sessions.len()
                invariant
                    i <= self.sessions@.len(),
                    self.wf(),
                    self.sessions@ == old(self).sessions@,
                    taken ==> spec_id_in_use(self.sessions@, candidate),
                    !taken ==> forall|j: int|
                        0 <= j < i ==> !(#[trigger] spec_blocks(self.sessions@[j], candidate)),
                decreases self.sessions@.len() - i,
            {
                let s = &self.sessions[i];
                if s.get_local_sess_id() == candidate || s.get_child_local_sess_id() == candidate {
                    proof {
                        assert(spec_blocks(self.sessions@[i as int], candidate));
                    }
                    taken = true;
                } else {
                    proof {
                        assert(!spec_blocks(self.sessions@[i as int], candidate));
                    }
                }
                i = i + 1;
            }
            if !taken {
                proof {
                    assert(!spec_id_in_use(ss, candidate));
                    assert(spec_next_free_id(ss, candidate, (65535 - attempts) as nat) == Some(
                        candidate,
                    ));
                }
                return Ok(candidate);
            }
            proof {
                assert(spec_id_in_use(ss, candidate));
                assert(spec_next_free_id(ss, candidate, (65535 - attempts) as nat)
                    == spec_next_free_id(
                    ss,
                    spec_wrap_succ(candidate),
                    (65535 - attempts - 1) as nat,
                ));
                assert(self.next_sess_id == spec_wrap_succ(candidate));
            }
            attempts = attempts + 1;
        }
        Err(Error::NoSpace)
    }

    /// Creates a plaintext bootstrap session for a peer, reserving a
    /// fresh child id; fails only when the table is full.
    pub fn add(&mut self, peer_addr: Address) -> (r: Result<usize, Error>)
        requires
            old(self).wf(),
        ensures
            final(self).wf(),
            match r {
                Ok(idx) => {
                    &&& old(self).spec_sessions().len() < MAX_SESSIONS
                    &&& idx == old(self).spec_sessions().len()
                    &&& final(self).spec_sessions().len() == idx + 1
                    &&& final(self).spec_sessions().subrange(0, idx as int) == old(
                        self,
                    ).spec_sessions()
                    &&& final(self).spec_sessions()[idx as int].spec_mode()
                        == SessionMode::PlainText
                    &&& final(self).spec_sessions()[idx as int].spec_local_sess_id() == 0
                    &&& final(self).spec_sessions()[idx as int].spec_peer_sess_id() == 0
                    &&& final(self).spec_sessions()[idx as int].spec_msg_ctr() == 1
                    &&& final(self).spec_sessions()[idx as int].rx_state == (RxCtrState {
                        init: false,
                        max_ctr: 0u32,
                        bitmap: 0u32,
                    })
                    &&& final(self).spec_sessions()[idx as int].spec_child_local_sess_id() != 0
                    &&& !spec_id_in_use(
                        old(self).spec_sessions(),
                        final(self).spec_sessions()[idx as int].spec_child_local_sess_id(),
                    )
                    &&& final(self).spec_sessions()[idx as int].peer_addr == peer_addr
                },
                Err(e) => {
                    &&& e == Error::NoSpace
                    &&& final(self).spec_sessions() == old(self).spec_sessions()
                    &&& (old(self).spec_sessions().len() >= MAX_SESSIONS || spec_next_free_id(
                        old(self).spec_sessions(),
                        old(self).next_sess_id,
                        65535nat,
                    ) is None)
                },
            },
    {
        if self.sessions.len() >= MAX_SESSIONS {
            return Err(Error::NoSpace);
        }
        let child_sess_id = match self.get_next_sess_id() {
            Ok(id) => id,
            Err(e) => {
                return Err(e);
            },
        };
        let session = Session::new(child_sess_id, peer_addr);
        let idx = self.sessions.len();
        self.sessions.push(session);
        proof {
            assert(self.sessions@.subrange(0, idx as int) =~= old(self).sessions@);
        }
        Ok(idx)
    }

    /// Appends an already-built session; fails only when the table is
    /// full.
    pub fn add_session(&mut self, session: Session) -> (r: Result<(), Error>)
        requires
            old(self).wf(),
            session.wf(),
        ensures
            final(self).wf(),
            match r {
                Ok(()) => old(self).spec_sessions().len() < MAX_SESSIONS && final(self).spec_sessions()
                    == old(self).spec_sessions().push(session),
                Err(e) => e == Error::NoSpace && old(self).spec_sessions().len() >= MAX_SESSIONS
                    && final(self).spec_sessions() == old(self).spec_sessions(),
            },
    {
        if self.sessions.len() >= MAX_SESSIONS {
            return Err(Error::NoSpace);
        }
        self.sessions.push(session);
        Ok(())
    }

    /// Builds the encrypted session a key exchange handed over and
    /// appends it; fails only when the table is full.
    pub fn clone_session(&mut self, clone_data: &CloneData) -> (r: Result<usize, Error>)
        requires
            old(self).wf(),
            clone_data.dec_key@.len() == MATTER_AES128_KEY_SIZE,
            clone_data.enc_key@.len() == MATTER_AES128_KEY_SIZE,
            clone_data.att_challenge@.len() == MATTER_AES128_KEY_SIZE,
        ensures
            final(self).wf(),
            match r {
                Ok(idx) => {
                    &&& old(self).spec_sessions().len() < MAX_SESSIONS
                    &&& idx == old(self).spec_sessions().len()
                    &&& final(self).spec_sessions().len() == idx + 1
                    &&& final(self).spec_sessions().subrange(0, idx as int) == old(
                        self,
                    ).spec_sessions()
                    &&& final(self).spec_sessions()[idx as int].spec_local_sess_id()
                        == clone_data.local_sess_id
                    &&& final(self).spec_sessions()[idx as int].spec_peer_sess_id()
                        == clone_data.peer_sess_id
                    &&& final(self).spec_sessions()[idx as int].spec_mode() == clone_data.mode
                },
                Err(e) => {
                    &&& e == Error::NoSpace
                    &&& old(self).spec_sessions().len() >= MAX_SESSIONS
                    &&& final(self).spec_sessions() == old(self).spec_sessions()
                },
            },
    {
        if self.sessions.len() >= MAX_SESSIONS {
            return Err(Error::NoSpace);
        }
        let session = Session::clone(clone_data);
        let idx = self.sessions.len();
        self.sessions.push(session);
        proof {
            assert(self.sessions@.subrange(0, idx as int) =~= old(self).sessions@);
        }
        Ok(idx)
    }

    /// Index of the live session holding the given local id.
    pub fn get_with_id(&self, sess_id: u16) -> (r: Option<usize>)
        ensures
            match r {
                Some(i) => spec_sess_id_lookup(self.spec_sessions(), sess_id) == Some(i as int)
                    && i < self.spec_sessions().len() && self.spec_sessions()[i as int].spec_local_sess_id()
                    == sess_id,
                None => spec_sess_id_lookup(self.spec_sessions(), sess_id) is None && (forall|
                    i: int,
                |
                    0 <= i < self.spec_sessions().len() ==> (#[trigger] self.spec_sessions()[i]).spec_local_sess_id()
                        != sess_id),
            },
    {
        let mut i: usize = 0;
        while i < self.sessions.len()
            invariant
                i <= self.sessions@.len(),
                forall|j: int|
                    0 <= j < i ==> (#[trigger] self.sessions@[j]).spec_local_sess_id() != sess_id,
            decreases self.sessions@.len() - i,
        {
            if self.sessions[i].get_local_sess_id() == sess_id {
                proof {
                    lemma_sess_id_lookup_at(self.sessions@, sess_id, i as int);
                }
                return Some(i);
            }
            i = i + 1;
        }
        proof {
            lemma_sess_id_lookup_none(self.sessions@, sess_id);
        }
        None
    }

    /// Index of the session matching an inbound packet: the given local
    /// id, and for the plaintext id zero also the peer address and
    /// plaintext mode.
    pub fn get(&self, sess_id: u16, peer_addr: Address, is_encrypted: bool) -> (r: Option<usize>)
        ensures
            match r {
                Some(i) => spec_session_lookup(self.spec_sessions(), sess_id, peer_addr, is_encrypted)
                    == Some(i as int) && i < self.spec_sessions().len() && spec_sess_matches(
                    self.spec_sessions()[i as int],
                    sess_id,
                    peer_addr,
                    is_encrypted,
                ),
                None => spec_session_lookup(self.spec_sessions(), sess_id, peer_addr, is_encrypted)
                    is None,
            },
    {
        let mut i: usize = 0;
        while i < self.sessions.len()
            invariant
                i <= self.sessions@.len(),
                forall|j: int|
                    0 <= j < i ==> !spec_sess_matches(
                        #[trigger] self.sessions@[j],
                        sess_id,
                        peer_addr,
                        is_encrypted,
                    ),
            decreases self.sessions@.len() - i,
        {
            let s = &self.sessions[i];
            let enc = s.is_encrypted();
            if s.get_local_sess_id() == sess_id && s.peer_addr == peer_addr && enc == is_encrypted {
                proof {
                    lemma_session_lookup_at(
                        self.sessions@,
                        sess_id,
                        peer_addr,
                        is_encrypted,
                        i as int,
                    );
                }
                return Some(i);
            }
            i = i + 1;
        }
        proof {
            lemma_session_lookup_none(self.sessions@, sess_id, peer_addr, is_encrypted);
        }
        None
    }

    /// The least recently touched session: the front of the table.
    pub fn get_lru(&self) -> (r: usize)
        ensures
            r == 0,
    {
        0
    }

    /// Discards the plaintext bootstrap session that reserved a child
    /// id for the given peer, once the key exchange has turned the
    /// reservation into a live encrypted session; true when one was
    /// found and removed.
    pub fn remove_bootstrap(&mut self, peer_addr: Address, child_id: u16) -> (r: bool)
        requires
            old(self).wf(),
        ensures
            final(self).wf(),
            final(self).next_sess_id == old(self).next_sess_id,
            match spec_session_lookup(old(self).spec_sessions(), 0u16, peer_addr, false) {
                Some(i) => (old(self).spec_sessions()[i].spec_child_local_sess_id() == child_id
                    ==> r && final(self).spec_sessions() == old(self).spec_sessions().remove(i))
                    && (old(self).spec_sessions()[i].spec_child_local_sess_id() != child_id ==> !r
                    && final(self).spec_sessions() == old(self).spec_sessions()),
                None => !r && final(self).spec_sessions() == old(self).spec_sessions(),
            },
    {
        match self.get(0, peer_addr, false) {
            Some(i) => {
                if self.sessions[i].get_child_local_sess_id() == child_id {
                    self.sessions.remove(i);
                    true
                } else {
                    false
                }
            },
            None => false,
        }
    }

    /// Removes the session at an index, keeping the order of the rest.
    pub fn remove(&mut self, index: usize) -> (r: Session)
        requires
            old(self).wf(),
            index < old(self).spec_sessions().len(),
        ensures
            final(self).wf(),
            r == old(self).spec_sessions()[index as int],
            final(self).spec_sessions() == old(self).spec_sessions().remove(index as int),
            final(self).next_sess_id == old(self).next_sess_id,
    {
        self.sessions.remove(index)
    }
}

impl Session {
    /// Stamps the outbound header: the peer's session id and the next
    /// message counter.  Fails only when the counter space is used up,
    /// so a counter is never reused.
    pub fn pre_send(&mut self, p: &mut Packet) -> (r: Result<(), Error>)
        ensures
            match r {
                Ok(()) => {
                    &&& old(self).spec_msg_ctr() < u32::MAX
                    &&& final(p).plain == (PlainHdr {
                        sess_id: old(self).spec_peer_sess_id(),
                        ctr: old(self).spec_msg_ctr(),
                        ..old(p).plain
                    })
                    &&& final(p).proto == old(p).proto
                    &&& final(p).payload@ == old(p).payload@
                    &&& *final(self) == (Session {
                        msg_ctr: (old(self).spec_msg_ctr() + 1) as u32,
                        ..*old(self)
                    })
                },
                Err(e) => {
                    &&& e == Error::Invalid
                    &&& old(self).spec_msg_ctr() == u32::MAX
                    &&& *final(self) == *old(self)
                    &&& *final(p) == *old(p)
                },
            },
    {
        if self.msg_ctr == u32::MAX {
            return Err(Error::Invalid);
        }
        self.p_set_sess(p);
        Ok(())
    }

    /// Writes the session id and counter into the packet header.
    fn p_set_sess(&mut self, p: &mut Packet)
        requires
            old(self).spec_msg_ctr() < u32::MAX,
        ensures
            final(p).plain == (PlainHdr {
                sess_id: old(self).spec_peer_sess_id(),
                ctr: old(self).spec_msg_ctr(),
                ..old(p).plain
            }),
            final(p).proto == old(p).proto,
            final(p).payload@ == old(p).payload@,
            *final(self) == (Session { msg_ctr: (old(self).spec_msg_ctr() + 1) as u32, ..*old(self) }),
    {
        p.plain.sess_id = self.peer_sess_id;
        let ctr = self.get_msg_ctr();
        p.plain.ctr = ctr;
    }

    /// Frames a stamped packet for the wire: the message header, then
    /// either the plaintext protocol part or its AES-CCM sealing under
    /// the outbound key, with the header as associated data.  A
    /// plaintext session always succeeds; an encrypted one succeeds
    /// whenever the protocol part fits the CCM length field.
    pub fn send(&self, p: &Packet) -> (r: Result<Vec<u8>, Error>)
        requires
            self.wf(),
        ensures
            match r {
                Ok(v) => {
                    &&& (self.spec_mode() == SessionMode::PlainText ==> v@ == spec_plain_hdr_bytes(
                        p.plain,
                    ) + spec_proto_hdr_bytes(p.proto) + p.payload@)
                    &&& (self.spec_mode() != SessionMode::PlainText ==> v@ == spec_plain_hdr_bytes(
                        p.plain,
                    ) + spec_aes128_ccm_seal(
                        self.spec_enc_key(),
                        crate::packet::spec_ccm_nonce(p.plain),
                        spec_plain_hdr_bytes(p.plain),
                        spec_proto_hdr_bytes(p.proto) + p.payload@,
                    ))
                },
                Err(e) => e == Error::InvalidData && self.spec_mode() != SessionMode::PlainText
                    && spec_proto_hdr_bytes(p.proto).len() + p.payload@.len() > 0xFFFF,
            },
            self.spec_mode() == SessionMode::PlainText ==> r is Ok,
            spec_proto_hdr_bytes(p.proto).len() + p.payload@.len() <= 0xFFFF ==> r is Ok,
    {
        let mut hdr = p.encode_plain_hdr();
        let body = p.encode_proto();
        let enc = self.is_encrypted();
        if enc {
            let nonce = p.ccm_nonce();
            let ct = match aes128_ccm_seal(
                self.enc_key.as_slice(),
                nonce.as_slice(),
                hdr.as_slice(),
                body.as_slice(),
            ) {
                Ok(v) => v,
                Err(e) => {
                    return Err(e);
                },
            };
            let mut out = hdr;
            let mut i: usize = 0;
            let ghost pre = out@;
            while i < ct.len()
                invariant
                    i <= ct@.len(),
                    out@ == pre + ct@.subrange(0, i as int),
                decreases ct@.len() - i,
            {
                out.push(ct[i]);
                proof {
                    assert(out@ =~= pre + ct@.subrange(0, i + 1));
                }
                i = i + 1;
            }
            proof {
                assert(ct@.subrange(0, ct@.len() as int) =~= ct@);
            }
            Ok(out)
        } else {
            let mut out = hdr;
            let mut i: usize = 0;
            let ghost pre = out@;
            while i < body.len()
                invariant
                    i <= body@.len(),
                    out@ == pre + body@.subrange(0, i as int),
                decreases body@.len() - i,
            {
                out.push(body[i]);
                proof {
                    assert(out@ =~= pre + body@.subrange(0, i + 1));
                }
                i = i + 1;
            }
            proof {
                assert(body@.subrange(0, body@.len() as int) =~= body@);
            }
            Ok(out)
        }
    }
}

} // verus!
