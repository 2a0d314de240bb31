//! Session, exchange and reliability-layer tests: purge and eviction
//! behaviour, session-id allocation, duplicate suppression and the
//! receive dispatch.

use matter::error::Error;
use matter::exchange::{ExchangeMgr, ExchangeRole};
use matter::session::{Address, CloneData, RxCtrState, Session, SessionMgr, SessionMode,
    MAX_SESSIONS};

fn test_addr() -> Address {
    Address { ip: 0x0a000a01, port: 8080 }
}

#[test]
fn test_purge() {
    let sess_mgr = SessionMgr::new();
    let mut mgr = ExchangeMgr::new(sess_mgr);
    let _ = mgr.get(1, 2, ExchangeRole::Responder, true).unwrap();
    let _ = mgr.get(1, 3, ExchangeRole::Responder, true).unwrap();

    mgr.purge();
    assert_eq!(mgr.get_with_id(2).is_some(), true);
    assert_eq!(mgr.get_with_id(3).is_some(), true);

    // Release e1
    let e1 = mgr.get_with_id(2).unwrap();
    e1.release();
    mgr.purge();
    assert_eq!(mgr.get_with_id(2).is_some(), false);
    assert_eq!(mgr.get_with_id(3).is_some(), true);

    // Acquire e2
    let e2 = mgr.get_with_id(3).unwrap();
    e2.acquire();
    mgr.purge();
    assert_eq!(mgr.get_with_id(3).is_some(), true);

    // Release e2 once
    let e2 = mgr.get_with_id(3).unwrap();
    e2.release();
    mgr.purge();
    assert_eq!(mgr.get_with_id(3).is_some(), true);

    // Release e2 again
    let e2 = mgr.get_with_id(3).unwrap();
    e2.release();
    mgr.purge();
    assert_eq!(mgr.get_with_id(3).is_some(), false);
}

fn get_clone_data(peer_sess_id: u16, local_sess_id: u16) -> CloneData {
    CloneData::new(
        12341234,
        43211234,
        peer_sess_id,
        local_sess_id,
        test_addr(),
        SessionMode::Pase,
    )
}

fn fill_sessions(mgr: &mut ExchangeMgr, count: usize) {
    let mut local_sess_id: u16 = 1;
    let mut peer_sess_id: u16 = 100;
    for _ in 1..count {
        let clone_data = get_clone_data(peer_sess_id, local_sess_id);
        match mgr.add_session(&clone_data) {
            Ok(idx) => {
                assert_eq!(peer_sess_id, mgr.sess_mgr.sessions[idx].get_peer_sess_id())
            },
            Err(Error::NoSpace) => break,
            _ => {
                panic!("Couldn't, create session");
            },
        }
        local_sess_id += 1;
        peer_sess_id += 1;
    }
}

/// We purposefuly overflow the sessions
/// and when the overflow happens, we confirm that
/// - The sessions are evicted in LRU
/// - The exchanges associated with those sessions are evicted too
#[test]
fn test_sess_evict() {
    let sess_mgr = SessionMgr::new();
    let mut mgr = ExchangeMgr::new(sess_mgr);

    fill_sessions(&mut mgr, MAX_SESSIONS + 1);
    // Sessions are now full from local session id 1 to 16

    // Create exchanges for sessions 2 and 3
    //   Exchange IDs are 20 and 30 respectively
    let _ = mgr.get(2, 20, ExchangeRole::Responder, true).unwrap();
    let _ = mgr.get(3, 30, ExchangeRole::Responder, true).unwrap();

    // Confirm that session ids 1 to MAX_SESSIONS exists
    for i in 1..(MAX_SESSIONS + 1) {
        assert_eq!(mgr.sess_mgr.get_with_id(i as u16).is_none(), false);
    }
    // Confirm that the exchanges are around
    assert_eq!(mgr.get_with_id(20).is_none(), false);
    assert_eq!(mgr.get_with_id(30).is_none(), false);

    let mut old_local_sess_id: u16 = 1;
    let mut new_local_sess_id: u16 = 100;
    let mut new_peer_sess_id: u16 = 200;

    for i in 1..(MAX_SESSIONS + 1) {
        // Now purposefully overflow the sessions by adding another session
        let idx = mgr
            .add_session(&get_clone_data(new_peer_sess_id, new_local_sess_id))
            .unwrap();
        assert_eq!(mgr.sess_mgr.sessions[idx].get_peer_sess_id(), new_peer_sess_id);

        // This should have evicted session with local sess_id
        assert_eq!(mgr.sess_mgr.get_with_id(old_local_sess_id).is_none(), true);

        new_local_sess_id += 1;
        new_peer_sess_id += 1;
        old_local_sess_id += 1;

        match i {
            1 => {
                // Both exchanges should exist
                assert_eq!(mgr.get_with_id(20).is_none(), false);
                assert_eq!(mgr.get_with_id(30).is_none(), false);
            },
            2 => {
                // Exchange 20 would have been evicted
                assert_eq!(mgr.get_with_id(20).is_none(), true);
                assert_eq!(mgr.get_with_id(30).is_none(), false);
            },
            3 => {
                // Exchange 20 and 30 would have been evicted
                assert_eq!(mgr.get_with_id(20).is_none(), true);
                assert_eq!(mgr.get_with_id(30).is_none(), true);
            },
            _ => {},
        }
    }
}

#[test]
fn test_next_sess_id_doesnt_reuse() {
    let mut sm = SessionMgr::new();
    sm.add(test_local_addr()).unwrap();
    assert_eq!(sm.get_next_sess_id().unwrap(), 2);
    assert_eq!(sm.get_next_sess_id().unwrap(), 3);
    sm.add(test_local_addr()).unwrap();
    assert_eq!(sm.get_next_sess_id().unwrap(), 5);
}

#[test]
fn test_next_sess_id_overflows() {
    let mut sm = SessionMgr::new();
    sm.add(test_local_addr()).unwrap();
    assert_eq!(sm.get_next_sess_id().unwrap(), 2);
    sm.next_sess_id = 65534;
    assert_eq!(sm.get_next_sess_id().unwrap(), 65534);
    assert_eq!(sm.get_next_sess_id().unwrap(), 65535);
    assert_eq!(sm.get_next_sess_id().unwrap(), 2);
}

fn test_local_addr() -> Address {
    Address { ip: 0x7f000001, port: 5540 }
}

#[test]
fn test_msg_ctr_strictly_increases() {
    let mut s = Session::new(7, test_addr());
    let c1 = s.get_msg_ctr();
    let c2 = s.get_msg_ctr();
    let c3 = s.get_msg_ctr();
    assert_eq!(c1, 1);
    assert_eq!(c2, 2);
    assert_eq!(c3, 3);
    assert!(c1 < c2 && c2 < c3);
}

#[test]
fn test_rx_window_dedup() {
    let mut w = RxCtrState::new();
    assert_eq!(w.post_recv(5), true);
    // A replay of the same counter is always dropped.
    assert_eq!(w.post_recv(5), false);
    // An older counter inside the window is fresh once, then dropped.
    assert_eq!(w.post_recv(4), true);
    assert_eq!(w.post_recv(4), false);
    // A newer counter is fresh; everything older than 32 below it is not.
    assert_eq!(w.post_recv(100), true);
    assert_eq!(w.post_recv(5), false);
    assert_eq!(w.post_recv(67), false);
    assert_eq!(w.post_recv(68), true);
}

fn small_packet_bytes(ctr: u8, exch_id: u8) -> Vec<u8> {
    // Message header: flags 0, session id 0, security flags 0, counter.
    // Payload header: initiator+reliable flags, opcode, exchange id,
    // protocol id; no payload.
    vec![
        0x00, 0x00, 0x00, 0x00, ctr, 0x00, 0x00, 0x00, 0x05, 0x20, exch_id, 0x00, 0x00, 0x00,
    ]
}

#[test]
fn test_recv_duplicate_still_acked() {
    let sess_mgr = SessionMgr::new();
    let mut mgr = ExchangeMgr::new(sess_mgr);
    let peer = test_addr();

    let rx = small_packet_bytes(1, 10);
    let (sidx, eidx, pkt) = mgr.recv_wire(&rx, peer).unwrap();
    let p = pkt.expect("fresh message must be delivered");
    assert_eq!(p.proto.exch_id, 10);
    assert_eq!(p.plain.ctr, 1);
    assert_eq!(mgr.sess_mgr.sessions[sidx].get_local_sess_id(), 0);
    assert_eq!(mgr.exchanges[eidx].get_id(), 10);
    // The reliable message leaves an acknowledgement owed.
    assert!(mgr.pending_acks().contains(&10));

    // The replayed counter is dropped but still acknowledged.
    let (_s2, e2, pkt2) = mgr.recv_wire(&rx, peer).unwrap();
    assert!(pkt2.is_none());
    assert_eq!(mgr.exchanges[e2].get_id(), 10);
    assert!(mgr.pending_acks().contains(&10));
}

#[test]
fn test_exchange_table_full() {
    let sess_mgr = SessionMgr::new();
    let mut mgr = ExchangeMgr::new(sess_mgr);
    for id in 0..8u16 {
        mgr.get(1, id, ExchangeRole::Responder, true).unwrap();
    }
    assert_eq!(
        mgr.get(1, 99, ExchangeRole::Responder, true),
        Err(Error::NoSpace)
    );
    // A role mismatch on an existing exchange is refused.
    assert_eq!(
        mgr.get(1, 3, ExchangeRole::Initiator, false),
        Err(Error::NoExchange)
    );
}

#[test]
fn test_session_activate() {
    let mut s = Session::new(9, test_addr());
    assert_eq!(s.get_local_sess_id(), 0);
    assert_eq!(s.get_child_local_sess_id(), 9);
    assert!(!s.is_encrypted());
    assert!(s.get_enc_key().is_none());
    let dec = [1u8; 16];
    let enc = [2u8; 16];
    s.activate(&dec, &enc, 33).unwrap();
    assert_eq!(s.get_local_sess_id(), 9);
    assert_eq!(s.get_peer_sess_id(), 33);
    assert!(s.is_encrypted());
    assert_eq!(s.get_enc_key().unwrap(), &enc[..]);
    assert_eq!(s.get_dec_key().unwrap(), &dec[..]);
}
