//! The peer actor: counts qualifying donations, forwards a fixed share of
//! every donation to its manager, and pays its whole retained balance out to
//! its owner on withdrawal.
//!
//! A peer holds no funds itself in this model: its balance lives in the
//! host's ledger and is handed in to the operations that read it
//! (`withdraw`, `pending_donations`).

use vstd::prelude::*;
use crate::{ActorId, Coin, Error, Transfer};
use crate::funds::{balance_of, contains_qualifying, has_qualifying, scale_all, scaled};
use crate::ratio::Ratio;

verus! {

/// The peer's mutable record: only `donators` ever changes after creation.
#[derive(Clone, Copy, PartialEq, Eq, Structural, Debug)]
pub struct State {
    pub donators: u64,
    pub incremental_donation: Coin,
    pub collective_ratio: Ratio,
    pub manager: ActorId,
}

/// A peer actor: its state record and, kept separately, its owner.
#[derive(Clone, Copy, PartialEq, Eq, Structural, Debug)]
pub struct Peer {
    pub state: State,
    pub owner: ActorId,
}

/// What the peer asks its manager to run when forwarding a share.
#[derive(Clone, Copy, PartialEq, Eq, Structural, Debug)]
pub enum ManagerExec {
    Donate {},
}

/// Parameters a peer is created with; the manager supplies its own copy of
/// the threshold and ratio.
#[derive(Clone, Copy, PartialEq, Eq, Structural, Debug)]
pub struct InstantiateMsg {
    pub owner: ActorId,
    pub incremental_donation: Coin,
    pub collective_ratio: Ratio,
}

#[derive(Clone, Copy, PartialEq, Eq, Structural, Debug)]
pub enum ExecMsg {
    Donate {},
    Withdraw {},
}

#[derive(Clone, Copy, PartialEq, Eq, Structural, Debug)]
pub enum QueryMsg {
    Owner {},
    Manager {},
    PendingDonations { denom: Option<u64> },
    Config {},
    Donators {},
}

#[derive(Clone, Copy, PartialEq, Eq, Structural, Debug)]
pub struct OwnerResp {
    pub owner: ActorId,
}

#[derive(Clone, Copy, PartialEq, Eq, Structural, Debug)]
pub struct ManagerResp {
    pub manager: ActorId,
}

#[derive(Clone, Debug)]
pub struct PendingDonationsResp {
    pub donations: Vec<Coin>,
}

#[derive(Clone, Copy, PartialEq, Eq, Structural, Debug)]
pub struct ConfigResp {
    pub incremental_donation: Coin,
    pub collective_ratio: Ratio,
}

#[derive(Clone, Copy, PartialEq, Eq, Structural, Debug)]
pub struct DonatorsResp {
    pub donators: u64,
}

/// What a donation produced: the share to forward to the manager as a
/// `Donate` call with funds attached, and the attributes recorded for
/// observability (caller, whether the counter moved).
#[derive(Clone, Debug)]
pub struct DonationOutcome {
    pub to_manager: ActorId,
    pub msg: ManagerExec,
    pub forward: Vec<Coin>,
    pub caller: ActorId,
    pub incremented: bool,
}

/// A donation or a withdrawal, as the host dispatches it.
#[derive(Clone, Debug)]
pub enum ExecResponse {
    Donated(DonationOutcome),
    Withdrew(Transfer),
}

/// One peer query's answer.
#[derive(Clone, Debug)]
pub enum QueryResp {
    Owner(OwnerResp),
    Manager(ManagerResp),
    PendingDonations(PendingDonationsResp),
    Config(ConfigResp),
    Donators(DonatorsResp),
}

impl Peer {
    /// The ratio copied in at creation is a valid fraction.
    pub open spec fn wf(self) -> bool {
        self.state.collective_ratio.wf()
    }

    /// Create a peer for `msg.owner`; the manager is the caller that runs
    /// the creation, and the donation counter starts at zero.
    pub fn instantiate(manager: ActorId, msg: InstantiateMsg) -> (p: Peer)
        requires
            msg.collective_ratio.wf(),
        ensures
            p == (Peer {
                state: State {
                    donators: 0,
                    incremental_donation: msg.incremental_donation,
                    collective_ratio: msg.collective_ratio,
                    manager: manager,
                },
                owner: msg.owner,
            }),
    {
        Peer {
            state: State {
                donators: 0,
                incremental_donation: msg.incremental_donation,
                collective_ratio: msg.collective_ratio,
                manager: manager,
            },
            owner: msg.owner,
        }
    }

    /// Accept a donation: bump the counter by exactly one when some attached
    /// coin meets the threshold, and forward the truncated ratio share of
    /// every attached coin to the manager. The remainder stays on the peer's
    /// balance in the host's ledger.
    pub fn donate(&mut self, caller: ActorId, funds: &Vec<Coin>) -> (out: DonationOutcome)
        requires
            old(self).wf(),
            old(self).state.donators < u64::MAX,
        ensures
            final(self).state.donators == old(self).state.donators + (if has_qualifying(
                funds@,
                old(self).state.incremental_donation,
            ) {
                1int
            } else {
                0int
            }),
            final(self).state.incremental_donation == old(self).state.incremental_donation,
            final(self).state.collective_ratio == old(self).state.collective_ratio,
            final(self).state.manager == old(self).state.manager,
            final(self).owner == old(self).owner,
            out.to_manager == old(self).state.manager,
            out.msg == (ManagerExec::Donate {  }),
            out.forward@ == scaled(funds@, old(self).state.collective_ratio),
            out.caller == caller,
            out.incremented == has_qualifying(funds@, old(self).state.incremental_donation),
    {
        let increment = contains_qualifying(funds, self.state.incremental_donation);
        if increment {
            self.state.donators = self.state.donators + 1;
        }
        let forward = scale_all(funds, self.state.collective_ratio);
        DonationOutcome {
            to_manager: self.state.manager,
            msg: ManagerExec::Donate {  },
            forward,
            caller,
            incremented: increment,
        }
    }

    /// Pay the peer's entire current balance out to the owner. Any other
    /// caller is rejected with `Unauthorized` and nothing moves.
    pub fn withdraw(&self, caller: ActorId, balance: &Vec<Coin>) -> (r: Result<Transfer, Error>)
        ensures
            caller != self.owner <==> r == Err::<Transfer, Error>(Error::Unauthorized),
            caller == self.owner ==> (r matches Ok(t) && t.to == caller && t.amount@ == balance@),
    {
        if caller != self.owner {
            return Err(Error::Unauthorized);
        }
        Ok(Transfer { to: caller, amount: balance.clone() })
    }

    pub fn owner(&self) -> (r: OwnerResp)
        ensures
            r.owner == self.owner,
    {
        OwnerResp { owner: self.owner }
    }

    pub fn manager(&self) -> (r: ManagerResp)
        ensures
            r.manager == self.state.manager,
    {
        ManagerResp { manager: self.state.manager }
    }

    /// The donations the peer currently retains: its whole ledger balance,
    /// or just the one requested denomination (zero when absent).
    pub fn pending_donations(&self, balance: &Vec<Coin>, denom: Option<u64>) -> (r:
        PendingDonationsResp)
        ensures
            match denom {
                Some(d) => r.donations@ == seq![
                    Coin { denom: d, amount: crate::funds::amount_of(balance@, d) },
                ],
                None => r.donations@ == balance@,
            },
    {
        match denom {
            Some(d) => {
                let amount = balance_of(balance, d);
                let donations = vec![Coin { denom: d, amount }];
                proof {
                    assert(donations@ =~= seq![
                        Coin { denom: d, amount: crate::funds::amount_of(balance@, d) },
                    ]);
                }
                PendingDonationsResp { donations }
            },
            None => PendingDonationsResp { donations: balance.clone() },
        }
    }

    pub fn config(&self) -> (r: ConfigResp)
        ensures
            r.incremental_donation == self.state.incremental_donation,
            r.collective_ratio == self.state.collective_ratio,
    {
        ConfigResp {
            incremental_donation: self.state.incremental_donation,
            collective_ratio: self.state.collective_ratio,
        }
    }

    pub fn donators(&self) -> (r: DonatorsResp)
        ensures
            r.donators == self.state.donators,
    {
        DonatorsResp { donators: self.state.donators }
    }

    /// Dispatch one incoming execution. `funds` are the coins attached to the
    /// call; `balance` is the peer's current ledger balance, read by
    /// `Withdraw`.
    pub fn execute(
        &mut self,
        caller: ActorId,
        funds: &Vec<Coin>,
        balance: &Vec<Coin>,
        msg: ExecMsg,
    ) -> (r: Result<ExecResponse, Error>)
        requires
            old(self).wf(),
            old(self).state.donators < u64::MAX,
        ensures
            match msg {
                ExecMsg::Donate {  } => {
                    &&& r matches Ok(ExecResponse::Donated(out))
                    &&& final(self).state.donators == old(self).state.donators + (
                    if has_qualifying(funds@, old(self).state.incremental_donation) {
                        1int
                    } else {
                        0int
                    })
                    &&& final(self).state.incremental_donation == old(
                        self,
                    ).state.incremental_donation
                    &&& final(self).state.collective_ratio == old(self).state.collective_ratio
                    &&& final(self).state.manager == old(self).state.manager
                    &&& final(self).owner == old(self).owner
                    &&& out.to_manager == old(self).state.manager
                    &&& out.forward@ == scaled(funds@, old(self).state.collective_ratio)
                    &&& out.incremented == has_qualifying(
                        funds@,
                        old(self).state.incremental_donation,
                    )
                },
                ExecMsg::Withdraw {  } => {
                    &&& *final(self) == *old(self)
                    &&& (caller != old(self).owner <==> r == Err::<ExecResponse, Error>(
                        Error::Unauthorized,
                    ))
                    &&& caller == old(self).owner ==> (r matches Ok(ExecResponse::Withdrew(t))
                        && t.to == caller && t.amount@ == balance@)
                },
            },
    {
        match msg {
            ExecMsg::Donate {  } => Ok(ExecResponse::Donated(self.donate(caller, funds))),
            ExecMsg::Withdraw {  } => match self.withdraw(caller, balance) {
                Ok(t) => Ok(ExecResponse::Withdrew(t)),
                Err(e) => Err(e),
            },
        }
    }

    /// Dispatch one query. `balance` is the peer's current ledger balance,
    /// read by `PendingDonations`.
    pub fn query(&self, balance: &Vec<Coin>, msg: QueryMsg) -> (r: QueryResp)
        ensures
            match msg {
                QueryMsg::Owner {  } => r matches QueryResp::Owner(o) && o.owner == self.owner,
                QueryMsg::Manager {  } => r matches QueryResp::Manager(m) && m.manager
                    == self.state.manager,
                QueryMsg::PendingDonations { denom } => r matches QueryResp::PendingDonations(p)
                    && (match denom {
                    Some(d) => p.donations@ == seq![
                        Coin { denom: d, amount: crate::funds::amount_of(balance@, d) },
                    ],
                    None => p.donations@ == balance@,
                }),
                QueryMsg::Config {  } => r matches QueryResp::Config(c) && c.incremental_donation
                    == self.state.incremental_donation && c.collective_ratio
                    == self.state.collective_ratio,
                QueryMsg::Donators {  } => r matches QueryResp::Donators(d) && d.donators
                    == self.state.donators,
            },
    {
        match msg {
            QueryMsg::Owner {  } => QueryResp::Owner(self.owner()),
            QueryMsg::Manager {  } => QueryResp::Manager(self.manager()),
            QueryMsg::PendingDonations { denom } => QueryResp::PendingDonations(
                self.pending_donations(balance, denom),
            ),
            QueryMsg::Config {  } => QueryResp::Config(self.config()),
            QueryMsg::Donators {  } => QueryResp::Donators(self.donators()),
        }
    }
}

} // verus!
