//! Unit tests: the ratio and distribution arithmetic on exact values, every
//! error variant, registry listing and pagination, the provisioning state
//! machine's edge cases, and the creation-callback decoding against real
//! wire-encoded bytes.

use donations::callback::{decode_peer_creation, CreationResult};
use donations::manager::{InstantiateMsg as MgrInit, Manager, PEER_INSTANTIATE_ID};
use donations::peer::{InstantiateMsg as PeerInit, Peer};
use donations::ratio::Ratio;
use donations::{Coin, Error};

const UTGD: u64 = 1;
const USDC: u64 = 2;

fn mgr_init(threshold: u64, percent: u64) -> MgrInit {
    MgrInit {
        peer_code_id: 1,
        incremental_donation: Coin { denom: UTGD, amount: threshold },
        collective_ratio: Ratio { num: percent, den: 100 },
    }
}

fn ready_manager() -> Manager {
    let mut m = Manager::new();
    m.instantiate(mgr_init(100, 60));
    m
}

fn peer_with(owner: u64, threshold: u64, percent: u64) -> Peer {
    Peer::instantiate(
        50,
        PeerInit {
            owner,
            incremental_donation: Coin { denom: UTGD, amount: threshold },
            collective_ratio: Ratio { num: percent, den: 100 },
        },
    )
}

/// Register `owner` through a join and a successful callback naming `peer`.
fn provision(m: &mut Manager, owner: u64, peer: u64) {
    let req = m.join(owner).unwrap();
    m.reply(req.reply_id, Some(peer)).unwrap();
}

#[test]
fn ratio_multiply_truncates() {
    assert_eq!(Ratio { num: 60, den: 100 }.mul_floor(50), 30);
    assert_eq!(Ratio { num: 60, den: 100 }.mul_floor(99), 59);
    assert_eq!(Ratio { num: 1, den: 3 }.mul_floor(10), 3);
    assert_eq!(Ratio { num: 0, den: 1 }.mul_floor(1000), 0);
    assert_eq!(Ratio { num: 1, den: 1 }.mul_floor(u64::MAX), u64::MAX);
}

#[test]
fn members_list_exactly_the_provisioned_peers() {
    // Joins resolved by successful callbacks appear in the listing, exactly
    // once each and in ascending peer order; a failed callback leaves no
    // trace; a join by a registered owner is rejected.
    let mut m = ready_manager();
    provision(&mut m, 31, 102);
    provision(&mut m, 32, 101);

    // A join whose callback fails registers nothing.
    let req = m.join(33).unwrap();
    assert_eq!(m.reply(req.reply_id, None), Err(Error::MalformedCallback));

    // A second join by a registered owner is rejected outright.
    assert_eq!(m.join(31), Err(Error::AlreadyMember));

    let listing = m.members_list(None, None).members;
    assert_eq!(listing.len(), 2);
    assert_eq!(listing[0].peer_addr, 101);
    assert_eq!(listing[0].addr, 32);
    assert_eq!(listing[1].peer_addr, 102);
    assert_eq!(listing[1].addr, 31);
}

#[test]
fn members_list_pagination() {
    let mut m = ready_manager();
    provision(&mut m, 31, 101);
    provision(&mut m, 32, 102);
    provision(&mut m, 33, 103);

    let first_two = m.members_list(None, Some(2)).members;
    assert_eq!(first_two.len(), 2);
    assert_eq!(first_two[0].peer_addr, 101);
    assert_eq!(first_two[1].peer_addr, 102);

    let after = m.members_list(Some(102), None).members;
    assert_eq!(after.len(), 1);
    assert_eq!(after[0].peer_addr, 103);
    assert_eq!(after[0].addr, 33);

    let none_left = m.members_list(Some(103), Some(5)).members;
    assert!(none_left.is_empty());

    let big_limit = m.members_list(None, Some(10)).members;
    assert_eq!(big_limit.len(), 3);
}

#[test]
fn leave_then_lookup_fails() {
    let mut m = ready_manager();
    provision(&mut m, 31, 101);
    provision(&mut m, 32, 102);

    m.leave(31).unwrap();
    assert_eq!(m.member_peer_addr(31), Err(Error::NoSuchMember));
    // The other member is untouched.
    assert_eq!(m.member_peer_addr(32).unwrap().addr, 102);
    // Leaving twice fails.
    assert_eq!(m.leave(31), Err(Error::NoSuchMember));
    // The owner may join again after leaving.
    provision(&mut m, 31, 103);
    assert_eq!(m.member_peer_addr(31).unwrap().addr, 103);
}

#[test]
fn provisioning_state_machine() {
    let mut m = Manager::new();
    // Nothing works before instantiation.
    assert_eq!(m.join(31), Err(Error::ConfigNotFound));
    assert_eq!(m.config(), Err(Error::ConfigNotFound));

    m.instantiate(mgr_init(100, 60));
    // A callback with no pending request is rejected.
    assert_eq!(m.reply(PEER_INSTANTIATE_ID, Some(101)), Err(Error::PendingNotFound));

    // Only one join can be in flight.
    let req = m.join(31).unwrap();
    assert_eq!(req.msg.owner, 31);
    assert_eq!(req.msg.incremental_donation, Coin { denom: UTGD, amount: 100 });
    assert_eq!(req.msg.collective_ratio, Ratio { num: 60, den: 100 });
    assert_eq!(m.join(32), Err(Error::AlreadyPending));

    // An unknown correlation identifier is rejected and keeps the slot.
    assert_eq!(m.reply(req.reply_id + 1, Some(101)), Err(Error::UnknownReplyId));

    m.reply(req.reply_id, Some(101)).unwrap();
    assert_eq!(m.member_peer_addr(31).unwrap().addr, 101);

    // A callback naming an already-registered peer is malformed; it consumes
    // the slot and registers nothing.
    let req2 = m.join(32).unwrap();
    assert_eq!(m.reply(req2.reply_id, Some(101)), Err(Error::MalformedCallback));
    assert_eq!(m.member_peer_addr(32), Err(Error::NoSuchMember));
    // The slot is free again.
    let req3 = m.join(32).unwrap();
    m.reply(req3.reply_id, Some(102)).unwrap();
    assert_eq!(m.member_peer_addr(32).unwrap().addr, 102);
}

#[test]
fn config_round_trip_survives_operations() {
    let mut m = ready_manager();
    let before = m.config().unwrap();
    assert_eq!(before.incremental_donation, Coin { denom: UTGD, amount: 100 });
    assert_eq!(before.collective_ratio, Ratio { num: 60, den: 100 });

    provision(&mut m, 31, 101);
    m.leave(31).unwrap();
    provision(&mut m, 32, 102);
    let weights = vec![Some(1u64)];
    let balance = vec![Coin { denom: UTGD, amount: 10 }];
    m.donate(&weights, &balance).unwrap();

    assert_eq!(m.config().unwrap(), before);
}

#[test]
fn donate_splits_by_weight_truncating() {
    let mut m = ready_manager();
    provision(&mut m, 31, 101);
    provision(&mut m, 32, 102);

    // Weights 1:1 split every denomination in half, truncated down.
    let weights = vec![Some(1u64), Some(1u64)];
    let balance = vec![Coin { denom: UTGD, amount: 101 }, Coin { denom: USDC, amount: 7 }];
    let ts = m.donate(&weights, &balance).unwrap();
    assert_eq!(ts.len(), 2);
    assert_eq!(ts[0].to, 101);
    assert_eq!(ts[0].amount, vec![Coin { denom: UTGD, amount: 50 }, Coin { denom: USDC, amount: 3 }]);
    assert_eq!(ts[1].to, 102);
    assert_eq!(ts[1].amount, vec![Coin { denom: UTGD, amount: 50 }, Coin { denom: USDC, amount: 3 }]);

    // Weights 1:3 give one quarter and three quarters.
    let weights = vec![Some(1u64), Some(3u64)];
    let ts = m.donate(&weights, &balance).unwrap();
    assert_eq!(ts[0].amount[0], Coin { denom: UTGD, amount: 25 });
    assert_eq!(ts[1].amount[0], Coin { denom: UTGD, amount: 75 });
}

#[test]
fn donate_single_peer_gets_everything() {
    let mut m = ready_manager();
    provision(&mut m, 31, 101);
    let weights = vec![Some(4u64)];
    let balance = vec![Coin { denom: UTGD, amount: 63 }];
    let ts = m.donate(&weights, &balance).unwrap();
    assert_eq!(ts.len(), 1);
    assert_eq!(ts[0].to, 101);
    assert_eq!(ts[0].amount, balance);
}

#[test]
fn donate_zero_weight_fails_no_weight() {
    let mut m = ready_manager();
    provision(&mut m, 31, 101);
    provision(&mut m, 32, 102);
    let weights = vec![Some(0u64), Some(0u64)];
    let balance = vec![Coin { denom: UTGD, amount: 100 }];
    // No transfers are emitted: the whole operation is rejected.
    assert_eq!(m.donate(&weights, &balance), Err(Error::NoWeight));
    // With no members at all the total weight is zero as well.
    let mut empty = ready_manager();
    let no_weights: Vec<Option<u64>> = Vec::new();
    assert_eq!(empty.donate(&no_weights, &balance), Err(Error::NoWeight));
}

#[test]
fn donate_failed_query_aborts_all() {
    let mut m = ready_manager();
    provision(&mut m, 31, 101);
    provision(&mut m, 32, 102);
    let weights = vec![Some(5u64), None];
    let balance = vec![Coin { denom: UTGD, amount: 100 }];
    assert_eq!(m.donate(&weights, &balance), Err(Error::PeerQueryFailed));
}

#[test]
fn peer_counter_moves_only_on_qualifying_donations() {
    let mut p = peer_with(7, 100, 60);

    // Strictly below the threshold: no increment, but the ratio still flows.
    let out = p.donate(9, &vec![Coin { denom: UTGD, amount: 50 }]);
    assert!(!out.incremented);
    assert_eq!(p.donators().donators, 0);
    assert_eq!(out.to_manager, 50);
    assert_eq!(out.forward, vec![Coin { denom: UTGD, amount: 30 }]);

    // Exactly at the threshold: one increment.
    let out = p.donate(9, &vec![Coin { denom: UTGD, amount: 100 }]);
    assert!(out.incremented);
    assert_eq!(p.donators().donators, 1);
    assert_eq!(out.forward, vec![Coin { denom: UTGD, amount: 60 }]);

    // The right denomination must carry the amount: 100 of another
    // denomination does not qualify, however large.
    let out = p.donate(9, &vec![Coin { denom: USDC, amount: 500 }]);
    assert!(!out.incremented);
    assert_eq!(p.donators().donators, 1);

    // Several qualifying coins still increment by exactly one.
    let out = p.donate(
        9,
        &vec![Coin { denom: UTGD, amount: 200 }, Coin { denom: UTGD, amount: 300 }],
    );
    assert!(out.incremented);
    assert_eq!(p.donators().donators, 2);
    assert_eq!(
        out.forward,
        vec![Coin { denom: UTGD, amount: 120 }, Coin { denom: UTGD, amount: 180 }]
    );
}

#[test]
fn withdraw_by_non_owner_is_unauthorized() {
    let p = peer_with(7, 100, 60);
    let balance = vec![Coin { denom: UTGD, amount: 500 }];
    // A stranger and the manager are both rejected; nothing is transferred.
    assert!(matches!(p.withdraw(9, &balance), Err(Error::Unauthorized)));
    assert!(matches!(p.withdraw(50, &balance), Err(Error::Unauthorized)));
    // The owner receives the whole balance.
    let t = p.withdraw(7, &balance).unwrap();
    assert_eq!(t.to, 7);
    assert_eq!(t.amount, balance);
}

#[test]
fn pending_donations_filters_by_denomination() {
    let p = peer_with(7, 100, 60);
    let balance = vec![Coin { denom: UTGD, amount: 11 }, Coin { denom: USDC, amount: 22 }];
    assert_eq!(p.pending_donations(&balance, None).donations, balance);
    assert_eq!(
        p.pending_donations(&balance, Some(USDC)).donations,
        vec![Coin { denom: USDC, amount: 22 }]
    );
    assert_eq!(
        p.pending_donations(&balance, Some(3)).donations,
        vec![Coin { denom: 3, amount: 0 }]
    );
}

/// Wire-encode a creation response naming `addr`, as the host would.
fn creation_response_bytes(addr: &str) -> Vec<u8> {
    let mut data = vec![0x0au8, addr.len() as u8];
    data.extend_from_slice(addr.as_bytes());
    data
}

#[test]
fn decode_creation_callback() {
    // A well-formed creation response yields the new actor's address.
    let ok = CreationResult::Completed { data: Some(creation_response_bytes("peer17")) };
    assert_eq!(decode_peer_creation(&ok).unwrap(), "peer17".to_string());

    // An error outcome, missing data, and undecodable bytes are all
    // malformed.
    assert_eq!(decode_peer_creation(&CreationResult::Failed), Err(Error::MalformedCallback));
    assert_eq!(
        decode_peer_creation(&CreationResult::Completed { data: None }),
        Err(Error::MalformedCallback)
    );
    let wrong_field = CreationResult::Completed { data: Some(vec![0x12u8, 0x01, 0x41]) };
    assert_eq!(decode_peer_creation(&wrong_field), Err(Error::MalformedCallback));
    let short = CreationResult::Completed { data: Some(vec![0x0au8, 0x09, 0x41]) };
    assert_eq!(decode_peer_creation(&short), Err(Error::MalformedCallback));
}
