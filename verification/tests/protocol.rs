//! End-to-end protocol runs: a small host simulation drives the manager and
//! peer actors through join/provision/donate/withdraw rounds and checks the
//! resulting ledger balances.

use donations::manager::{
    ExecMsg as MgrExec, ExecResponse as MgrExecResponse, InstantiateMsg as MgrInit, Manager,
    QueryMsg as MgrQuery, QueryResp as MgrQueryResp,
};
use donations::peer::{
    ExecMsg as PeerExec, ExecResponse as PeerExecResponse, Peer, QueryMsg as PeerQuery,
    QueryResp as PeerQueryResp,
};
use donations::ratio::Ratio;
use donations::{Coin, Error, Transfer};

const UTGD: u64 = 1;

const DONATOR: u64 = 2;
const MEMBER1: u64 = 3;
const MEMBER2: u64 = 4;
const MANAGER_ID: u64 = 5;
const FIRST_PEER_ID: u64 = 100;

/// A host: one manager actor, the peer actors it provisioned, and a ledger.
struct Sim {
    manager: Manager,
    peers: Vec<(u64, Peer)>,
    balances: Vec<(u64, Vec<Coin>)>,
    next_peer_id: u64,
}

fn coins(amount: u64, denom: u64) -> Vec<Coin> {
    vec![Coin { denom, amount }]
}

impl Sim {
    fn new(init: MgrInit) -> Sim {
        let mut manager = Manager::new();
        manager.instantiate(init);
        Sim { manager, peers: Vec::new(), balances: Vec::new(), next_peer_id: FIRST_PEER_ID }
    }

    fn balance_of(&self, actor: u64, denom: u64) -> u64 {
        for (a, cs) in &self.balances {
            if *a == actor {
                for c in cs {
                    if c.denom == denom {
                        return c.amount;
                    }
                }
            }
        }
        0
    }

    fn all_balances(&self, actor: u64) -> Vec<Coin> {
        for (a, cs) in &self.balances {
            if *a == actor {
                return cs.clone();
            }
        }
        Vec::new()
    }

    fn set_balance(&mut self, actor: u64, denom: u64, amount: u64) {
        for (a, cs) in &mut self.balances {
            if *a == actor {
                cs.retain(|c| c.denom != denom);
                if amount > 0 {
                    cs.push(Coin { denom, amount });
                }
                return;
            }
        }
        if amount > 0 {
            self.balances.push((actor, vec![Coin { denom, amount }]));
        }
    }

    fn move_funds(&mut self, from: u64, to: u64, funds: &[Coin]) {
        for c in funds {
            let have = self.balance_of(from, c.denom);
            assert!(have >= c.amount, "insufficient funds");
            self.set_balance(from, c.denom, have - c.amount);
            let had = self.balance_of(to, c.denom);
            self.set_balance(to, c.denom, had + c.amount);
        }
    }

    fn apply_transfer(&mut self, from: u64, t: &Transfer) {
        self.move_funds(from, t.to, &t.amount);
    }

    fn peer(&mut self, id: u64) -> &mut Peer {
        for (pid, p) in &mut self.peers {
            if *pid == id {
                return p;
            }
        }
        panic!("no such peer actor");
    }

    /// A member joins: the manager emits a creation request, the host
    /// instantiates the peer and delivers the completion callback.
    fn join(&mut self, caller: u64) -> Result<u64, Error> {
        let empty: Vec<Option<u64>> = Vec::new();
        let no_funds: Vec<Coin> = Vec::new();
        let req = match self.manager.execute(caller, &empty, &no_funds, MgrExec::Join {})? {
            MgrExecResponse::Joined(req) => req,
            _ => panic!("join answered with the wrong response"),
        };
        let peer_id = self.next_peer_id;
        self.next_peer_id += 1;
        let peer = Peer::instantiate(MANAGER_ID, req.msg);
        self.peers.push((peer_id, peer));
        self.manager.reply(req.reply_id, Some(peer_id))?;
        Ok(peer_id)
    }

    /// The donation-count answers, one per registry entry in registry order.
    fn query_weights(&self) -> Vec<Option<u64>> {
        let listing = match self
            .manager
            .query(MgrQuery::MembersList { start_after: None, limit: None })
            .unwrap()
        {
            MgrQueryResp::MembersList(resp) => resp.members,
            _ => panic!("wrong query response"),
        };
        let mut weights = Vec::new();
        for m in &listing {
            let mut found = None;
            for (pid, p) in &self.peers {
                if *pid == m.peer_addr {
                    found = Some(p.donators().donators);
                }
            }
            weights.push(found);
        }
        weights
    }

    /// The manager distributes its pooled balance by donation-count weight.
    fn manager_donate(&mut self, caller: u64) -> Result<(), Error> {
        let weights = self.query_weights();
        let balance = self.all_balances(MANAGER_ID);
        let transfers =
            match self.manager.execute(caller, &weights, &balance, MgrExec::Donate {})? {
                MgrExecResponse::Donated(ts) => ts,
                _ => panic!("donate answered with the wrong response"),
            };
        for t in &transfers {
            self.apply_transfer(MANAGER_ID, t);
        }
        Ok(())
    }

    /// A donation to one peer: funds move to the peer, the peer forwards its
    /// collective share to the manager as a `Donate` call, and the manager
    /// redistributes.
    fn donate_to_peer(&mut self, donator: u64, peer_id: u64, funds: Vec<Coin>) -> Result<(), Error> {
        self.move_funds(donator, peer_id, &funds);
        let balance = self.all_balances(peer_id);
        let out = match self.peer(peer_id).execute(donator, &funds, &balance, PeerExec::Donate {})? {
            PeerExecResponse::Donated(out) => out,
            _ => panic!("donate answered with the wrong response"),
        };
        self.move_funds(peer_id, out.to_manager, &out.forward);
        self.manager_donate(peer_id)
    }

    fn withdraw(&mut self, caller: u64, peer_id: u64) -> Result<(), Error> {
        let balance = self.all_balances(peer_id);
        let funds: Vec<Coin> = Vec::new();
        let t = match self.peer(peer_id).execute(caller, &funds, &balance, PeerExec::Withdraw {})? {
            PeerExecResponse::Withdrew(t) => t,
            _ => panic!("withdraw answered with the wrong response"),
        };
        self.apply_transfer(peer_id, &t);
        Ok(())
    }
}

fn default_init() -> MgrInit {
    MgrInit {
        peer_code_id: 1,
        incremental_donation: Coin { denom: UTGD, amount: 100 },
        collective_ratio: Ratio { num: 60, den: 100 },
    }
}

#[test]
fn instantiate_check() {
    let sim = Sim::new(default_init());

    let config = match sim.manager.query(MgrQuery::Config {}).unwrap() {
        MgrQueryResp::Config(c) => c,
        _ => panic!("wrong query response"),
    };
    assert_eq!(Coin { denom: UTGD, amount: 100 }, config.incremental_donation);
    assert_eq!(Ratio { num: 60, den: 100 }, config.collective_ratio);

    let members = match sim
        .manager
        .query(MgrQuery::MembersList { start_after: None, limit: None })
        .unwrap()
    {
        MgrQueryResp::MembersList(resp) => resp.members,
        _ => panic!("wrong query response"),
    };
    assert!(members.is_empty());
}

#[test]
fn join() {
    let mut sim = Sim::new(default_init());

    sim.join(MEMBER1).unwrap();

    let peer_addr = match sim.manager.query(MgrQuery::MemberPeerAddr { addr: MEMBER1 }).unwrap() {
        MgrQueryResp::MemberPeerAddr(resp) => resp.addr,
        _ => panic!("wrong query response"),
    };

    let owner = match sim.peer(peer_addr).query(&Vec::new(), PeerQuery::Owner {}) {
        PeerQueryResp::Owner(o) => o.owner,
        _ => panic!("wrong query response"),
    };
    assert_eq!(MEMBER1, owner);

    let manager = match sim.peer(peer_addr).query(&Vec::new(), PeerQuery::Manager {}) {
        PeerQueryResp::Manager(m) => m.manager,
        _ => panic!("wrong query response"),
    };
    assert_eq!(MANAGER_ID, manager);

    let donators = match sim.peer(peer_addr).query(&Vec::new(), PeerQuery::Donators {}) {
        PeerQueryResp::Donators(d) => d.donators,
        _ => panic!("wrong query response"),
    };
    assert_eq!(0, donators);
}

#[test]
fn single_peer_single_donate() {
    // After a single donation, the only peer should get the whole amount.
    let mut sim = Sim::new(default_init());
    sim.set_balance(DONATOR, UTGD, 100);

    let peer_id = sim.join(MEMBER1).unwrap();
    sim.donate_to_peer(DONATOR, peer_id, coins(100, UTGD)).unwrap();
    sim.withdraw(MEMBER1, peer_id).unwrap();

    assert_eq!(0, sim.balance_of(DONATOR, UTGD));
    assert_eq!(0, sim.balance_of(peer_id, UTGD));
    assert_eq!(100, sim.balance_of(MEMBER1, UTGD));
}

#[test]
fn two_peers_single_donate_per_peer() {
    // After the first donation all funds (100) go to peer1. After the second:
    // 40% stays on peer2 (40), 60% is split between peer1 and peer2 by prior
    // weight (30 each). So peer1's owner ends with 130 and peer2's with 70.
    let mut sim = Sim::new(default_init());
    sim.set_balance(DONATOR, UTGD, 200);

    let peer1 = sim.join(MEMBER1).unwrap();
    let peer2 = sim.join(MEMBER2).unwrap();

    sim.donate_to_peer(DONATOR, peer1, coins(100, UTGD)).unwrap();
    sim.donate_to_peer(DONATOR, peer2, coins(100, UTGD)).unwrap();

    sim.withdraw(MEMBER1, peer1).unwrap();
    sim.withdraw(MEMBER2, peer2).unwrap();

    assert_eq!(130, sim.balance_of(MEMBER1, UTGD));
    assert_eq!(70, sim.balance_of(MEMBER2, UTGD));
}

#[test]
fn two_peers_single_donate_per_peer_under_threshold() {
    // The second donation (50) is too small to move peer2's counter: 40% of
    // it stays on peer2 (20) and 60% (30) goes entirely to peer1 by weight.
    let mut sim = Sim::new(default_init());
    sim.set_balance(DONATOR, UTGD, 150);

    let peer1 = sim.join(MEMBER1).unwrap();
    let peer2 = sim.join(MEMBER2).unwrap();

    sim.donate_to_peer(DONATOR, peer1, coins(100, UTGD)).unwrap();
    sim.donate_to_peer(DONATOR, peer2, coins(50, UTGD)).unwrap();

    sim.withdraw(MEMBER1, peer1).unwrap();
    sim.withdraw(MEMBER2, peer2).unwrap();

    assert_eq!(130, sim.balance_of(MEMBER1, UTGD));
    assert_eq!(20, sim.balance_of(MEMBER2, UTGD));
}

#[test]
fn lib_instantiate_check() {
    // A freshly created peer reports its owner, manager, configuration, an
    // empty pending-donations balance and a zero counter.
    let peer = Peer::instantiate(
        MANAGER_ID,
        donations::peer::InstantiateMsg {
            owner: MEMBER1,
            incremental_donation: Coin { denom: UTGD, amount: 100 },
            collective_ratio: Ratio { num: 60, den: 100 },
        },
    );

    assert_eq!(peer.owner().owner, MEMBER1);
    assert_eq!(peer.manager().manager, MANAGER_ID);

    let donations_resp = peer.pending_donations(&Vec::new(), None);
    assert_eq!(donations_resp.donations, vec![]);

    let config = peer.config();
    assert_eq!(config.incremental_donation, Coin { denom: UTGD, amount: 100 });
    assert_eq!(config.collective_ratio, Ratio { num: 60, den: 100 });

    assert_eq!(peer.donators().donators, 0);
}

#[test]
fn withdraw() {
    // A peer holding 500 pays it all out to its owner on withdrawal.
    let mut sim = Sim::new(default_init());
    let peer_id = sim.join(MEMBER1).unwrap();
    sim.set_balance(peer_id, UTGD, 500);

    let donations_resp =
        match sim.peer(peer_id).query(&coins(500, UTGD), PeerQuery::PendingDonations { denom: None }) {
            PeerQueryResp::PendingDonations(resp) => resp.donations,
            _ => panic!("wrong query response"),
        };
    assert_eq!(donations_resp, coins(500, UTGD));

    sim.withdraw(MEMBER1, peer_id).unwrap();

    let after = sim.all_balances(peer_id);
    assert_eq!(after, vec![]);
    assert_eq!(0, sim.balance_of(peer_id, UTGD));
    assert_eq!(500, sim.balance_of(MEMBER1, UTGD));
}
