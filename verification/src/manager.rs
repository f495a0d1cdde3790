//! The manager actor: the membership registry, the asynchronous peer
//! provisioning protocol, and the proportional donation distribution.
//!
//! Every operation is a pure transition: it takes the inputs the host
//! gathered (the caller, query answers, the manager's ledger balance),
//! mutates the manager's own state, and returns the instructions the host
//! must carry out. Each transition's contract equates it with a spec-level
//! transition function on the manager's view, so protocol-wide laws can be
//! proved by induction over transition sequences.

use vstd::prelude::*;
use crate::{ActorId, Coin, Error, Transfer};
use crate::peer;
use crate::ratio::Ratio;
use crate::distribution::{
    all_weights_known,
    compute_shares,
    lemma_total_weight_take_step,
    lemma_weight_le_total,
    shares,
    total_weight,
};

verus! {

/// Correlation identifier carried by the peer-creation request and echoed by
/// the host's completion callback.
pub const PEER_INSTANTIATE_ID: u64 = 1;

/// The manager's immutable configuration, set at instantiation.
#[derive(Clone, Copy, PartialEq, Eq, Structural, Debug)]
pub struct Config {
    /// Template the host instantiates new peer actors from.
    pub peer_code_id: u64,
    /// A donation qualifies for the counter when it carries at least this
    /// amount in this denomination.
    pub incremental_donation: Coin,
    /// Share of each donation a peer forwards to the manager.
    pub collective_ratio: Ratio,
}

/// One membership registry entry: a peer actor and the owner it belongs to.
#[derive(Clone, Copy, PartialEq, Eq, Structural, Debug)]
pub struct MemberEntry {
    pub peer: ActorId,
    pub owner: ActorId,
}

/// Parameters the manager is created with.
#[derive(Clone, Copy, PartialEq, Eq, Structural, Debug)]
pub struct InstantiateMsg {
    pub peer_code_id: u64,
    pub incremental_donation: Coin,
    pub collective_ratio: Ratio,
}

/// The outbound peer-creation request a successful `join` emits: the host
/// instantiates `msg` from the template and later delivers a callback under
/// `reply_id` with the new actor's identity.
#[derive(Clone, Copy, PartialEq, Eq, Structural, Debug)]
pub struct ProvisionRequest {
    pub code_id: u64,
    pub msg: peer::InstantiateMsg,
    pub reply_id: u64,
}

/// The manager actor's state: configuration, the membership registry in
/// ascending peer order, and the single pending-provisioning slot.
pub struct Manager {
    pub config: Option<Config>,
    pub members: Vec<MemberEntry>,
    pub pending_instantiation: Option<ActorId>,
}

/// Mathematical view of a [`Manager`].
pub struct ManagerView {
    pub config: Option<Config>,
    pub members: Seq<MemberEntry>,
    pub pending: Option<ActorId>,
}

impl View for Manager {
    type V = ManagerView;

    open spec fn view(&self) -> ManagerView {
        ManagerView {
            config: self.config,
            members: self.members@,
            pending: self.pending_instantiation,
        }
    }
}

/// Some entry maps `owner` to a peer.
pub open spec fn has_owner(ms: Seq<MemberEntry>, owner: ActorId) -> bool {
    exists|i: int| 0 <= i < ms.len() && (#[trigger] ms[i]).owner == owner
}

/// Some entry is keyed by `peer`.
pub open spec fn has_peer(ms: Seq<MemberEntry>, peer: ActorId) -> bool {
    exists|i: int| 0 <= i < ms.len() && (#[trigger] ms[i]).peer == peer
}

/// The index of the entry owned by `owner` (unique under [`wf_members`]).
pub open spec fn owner_index(ms: Seq<MemberEntry>, owner: ActorId) -> int {
    choose|i: int| 0 <= i < ms.len() && (#[trigger] ms[i]).owner == owner
}

/// The registry is strictly ascending by peer identifier (so each peer
/// appears once) and no owner appears twice.
pub open spec fn wf_members(ms: Seq<MemberEntry>) -> bool {
    &&& forall|i: int, j: int|
        0 <= i < j < ms.len() ==> (#[trigger] ms[i]).peer < (#[trigger] ms[j]).peer
    &&& forall|i: int, j: int|
        0 <= i < j < ms.len() ==> (#[trigger] ms[i]).owner != (#[trigger] ms[j]).owner
}

/// The manager's invariant: a well-formed registry, a valid ratio, and a
/// pending owner who is not yet a member (a join by a member is rejected,
/// and no second join can start while one is pending).
pub open spec fn mgr_wf(v: ManagerView) -> bool {
    &&& wf_members(v.members)
    &&& (v.config matches Some(c) ==> c.collective_ratio.wf())
    &&& (v.pending matches Some(o) ==> !has_owner(v.members, o))
}

/// `ms` with `e` inserted, keeping ascending peer order.
pub open spec fn insert_sorted(ms: Seq<MemberEntry>, e: MemberEntry) -> Seq<MemberEntry>
    decreases ms.len(),
{
    if ms.len() == 0 {
        seq![e]
    } else if e.peer < ms[0].peer {
        seq![e] + ms
    } else {
        seq![ms[0]] + insert_sorted(ms.drop_first(), e)
    }
}

/// A membership entry as reported to callers of `members_list`.
#[derive(Clone, Copy, PartialEq, Eq, Structural, Debug)]
pub struct Member {
    pub addr: ActorId,
    pub peer_addr: ActorId,
}

#[derive(Clone, Copy, PartialEq, Eq, Structural, Debug)]
pub struct ConfigResp {
    pub incremental_donation: Coin,
    pub collective_ratio: Ratio,
}

#[derive(Clone, Copy, PartialEq, Eq, Structural, Debug)]
pub struct MemberPeerAddrResp {
    pub addr: ActorId,
}

#[derive(Clone, Debug)]
pub struct MembersListResp {
    pub members: Vec<Member>,
}

/// The peer registered to `owner` (meaningful under [`has_owner`]).
pub open spec fn peer_of(ms: Seq<MemberEntry>, owner: ActorId) -> ActorId {
    ms[owner_index(ms, owner)].peer
}

/// Whether a listing that resumes after `start_after` includes this entry.
pub open spec fn passes(m: MemberEntry, start_after: Option<ActorId>) -> bool {
    match start_after {
        None => true,
        Some(sa) => m.peer > sa,
    }
}

/// The entries of `ms`, in order, that a listing after `start_after` keeps.
pub open spec fn filtered(ms: Seq<MemberEntry>, start_after: Option<ActorId>) -> Seq<MemberEntry>
    decreases ms.len(),
{
    if ms.len() == 0 {
        Seq::empty()
    } else {
        let rest = filtered(ms.drop_last(), start_after);
        if passes(ms.last(), start_after) {
            rest.push(ms.last())
        } else {
            rest
        }
    }
}

pub open spec fn to_member(m: MemberEntry) -> Member {
    Member { addr: m.owner, peer_addr: m.peer }
}

pub open spec fn to_members(ms: Seq<MemberEntry>) -> Seq<Member> {
    ms.map_values(|m: MemberEntry| to_member(m))
}

/// What `members_list` returns: the entries after `start_after`, in ascending
/// peer order as stored, capped at `limit`.
pub open spec fn page(
    ms: Seq<MemberEntry>,
    start_after: Option<ActorId>,
    limit: Option<u64>,
) -> Seq<Member> {
    let f = filtered(ms, start_after);
    match limit {
        None => to_members(f),
        Some(l) => if l < f.len() {
            to_members(f.take(l as int))
        } else {
            to_members(f)
        },
    }
}

#[derive(Clone, Copy, PartialEq, Eq, Structural, Debug)]
pub enum ExecMsg {
    Join {},
    Leave {},
    Donate {},
}

#[derive(Clone, Copy, PartialEq, Eq, Structural, Debug)]
pub enum QueryMsg {
    Config {},
    MemberPeerAddr { addr: ActorId },
    MembersList { start_after: Option<ActorId>, limit: Option<u64> },
}

/// What an execution produced: the creation request a join emits, nothing
/// for a leave, or the transfers a distribution emits.
#[derive(Clone, Debug)]
pub enum ExecResponse {
    Joined(ProvisionRequest),
    Left,
    Donated(Vec<Transfer>),
}

/// One manager query's answer.
#[derive(Clone, Debug)]
pub enum QueryResp {
    Config(ConfigResp),
    MemberPeerAddr(MemberPeerAddrResp),
    MembersList(MembersListResp),
}

/// What `instantiate` does: set the configuration, touch nothing else.
pub open spec fn instantiate_tr(v: ManagerView, msg: InstantiateMsg) -> ManagerView {
    ManagerView {
        config: Some(
            Config {
                peer_code_id: msg.peer_code_id,
                incremental_donation: msg.incremental_donation,
                collective_ratio: msg.collective_ratio,
            },
        ),
        ..v
    }
}

/// What `join` does: record the caller in the pending slot and emit one
/// creation request, or reject without any change.
pub open spec fn join_tr(v: ManagerView, caller: ActorId) -> (ManagerView, Result<
    ProvisionRequest,
    Error,
>) {
    if v.config is None {
        (v, Err(Error::ConfigNotFound))
    } else if v.pending is Some {
        (v, Err(Error::AlreadyPending))
    } else if has_owner(v.members, caller) {
        (v, Err(Error::AlreadyMember))
    } else {
        let c = v.config->0;
        (
            ManagerView { pending: Some(caller), ..v },
            Ok(
                ProvisionRequest {
                    code_id: c.peer_code_id,
                    msg: peer::InstantiateMsg {
                        owner: caller,
                        incremental_donation: c.incremental_donation,
                        collective_ratio: c.collective_ratio,
                    },
                    reply_id: PEER_INSTANTIATE_ID,
                },
            ),
        )
    }
}

/// What the provisioning callback does. `outcome` is the created peer's
/// identity, or `None` when creation failed or its result was undecodable.
/// Any resolution — success, failure, or an unusable identifier — consumes
/// the pending slot, so a later join can start; only success registers a
/// member.
pub open spec fn reply_tr(v: ManagerView, outcome: Option<ActorId>) -> (ManagerView, Result<
    (),
    Error,
>) {
    match v.pending {
        None => (v, Err(Error::PendingNotFound)),
        Some(owner) => match outcome {
            None => (ManagerView { pending: None, ..v }, Err(Error::MalformedCallback)),
            Some(p) => if has_peer(v.members, p) {
                (ManagerView { pending: None, ..v }, Err(Error::MalformedCallback))
            } else {
                (
                    ManagerView {
                        pending: None,
                        members: insert_sorted(v.members, MemberEntry { peer: p, owner }),
                        ..v
                    },
                    Ok(()),
                )
            },
        },
    }
}

/// What `leave` does: remove the caller's entry, or reject when the caller
/// is no member.
pub open spec fn leave_tr(v: ManagerView, caller: ActorId) -> (ManagerView, Result<(), Error>) {
    if has_owner(v.members, caller) {
        (ManagerView { members: v.members.remove(owner_index(v.members, caller)), ..v }, Ok(()))
    } else {
        (v, Err(Error::NoSuchMember))
    }
}

/// Inserting at the position the exec scan finds equals [`insert_sorted`].
proof fn lemma_insert_sorted_at(ms: Seq<MemberEntry>, e: MemberEntry, pos: int)
    requires
        0 <= pos <= ms.len(),
        forall|j: int| 0 <= j < pos ==> (#[trigger] ms[j]).peer < e.peer,
        pos < ms.len() ==> ms[pos].peer >= e.peer,
        !has_peer(ms, e.peer),
    ensures
        insert_sorted(ms, e) == ms.insert(pos, e),
    decreases ms.len(),
{
    if ms.len() == 0 {
        assert(insert_sorted(ms, e) =~= ms.insert(0, e));
    } else if pos == 0 {
        assert(ms[0].peer != e.peer);
        assert(e.peer < ms[0].peer);
        assert(insert_sorted(ms, e) =~= ms.insert(0, e));
    } else {
        assert(ms[0].peer < e.peer);
        let rest = ms.drop_first();
        assert(!has_peer(rest, e.peer)) by {
            assert forall|i: int| 0 <= i < rest.len() implies (#[trigger] rest[i]).peer != e.peer by {
                assert(rest[i] == ms[i + 1]);
            }
        }
        assert forall|j: int| 0 <= j < pos - 1 implies (#[trigger] rest[j]).peer < e.peer by {
            assert(rest[j] == ms[j + 1]);
        }
        lemma_insert_sorted_at(rest, e, pos - 1);
        assert(seq![ms[0]] + rest.insert(pos - 1, e) =~= ms.insert(pos, e));
    }
}

/// Everything the protocol needs to know about a sorted insert: the length
/// grows by one, membership is the old membership plus the new entry, and
/// the ordering invariant is preserved.
pub proof fn lemma_insert_sorted_ensures(ms: Seq<MemberEntry>, e: MemberEntry)
    requires
        !has_peer(ms, e.peer),
    ensures
        insert_sorted(ms, e).len() == ms.len() + 1,
        forall|x: MemberEntry| #[trigger]
            insert_sorted(ms, e).contains(x) <==> ms.contains(x) || x == e,
        wf_members(ms) && !has_owner(ms, e.owner) ==> wf_members(insert_sorted(ms, e)),
    decreases ms.len(),
{
    let out = insert_sorted(ms, e);
    if ms.len() == 0 {
        assert forall|x: MemberEntry| #[trigger] out.contains(x) <==> ms.contains(x) || x == e by {
            assert(out[0] == e);
        }
    } else if e.peer < ms[0].peer {
        assert forall|x: MemberEntry| #[trigger] out.contains(x) <==> ms.contains(x) || x == e by {
            if out.contains(x) {
                let i = choose|i: int| 0 <= i < out.len() && out[i] == x;
                if i == 0 {
                } else {
                    assert(ms[i - 1] == x);
                }
            }
            if ms.contains(x) {
                let i = choose|i: int| 0 <= i < ms.len() && ms[i] == x;
                assert(out[i + 1] == x);
            }
            if x == e {
                assert(out[0] == x);
            }
        }
        if wf_members(ms) && !has_owner(ms, e.owner) {
            assert forall|i: int, j: int|
                0 <= i < j < out.len() implies (#[trigger] out[i]).peer < (
            #[trigger] out[j]).peer by {
                if i > 0 {
                    assert(out[i] == ms[i - 1] && out[j] == ms[j - 1]);
                } else {
                    assert(out[j] == ms[j - 1]);
                    if j > 1 {
                        assert(ms[0].peer < ms[j - 1].peer);
                    }
                }
            }
            assert forall|i: int, j: int|
                0 <= i < j < out.len() implies (#[trigger] out[i]).owner != (
            #[trigger] out[j]).owner by {
                if i > 0 {
                    assert(out[i] == ms[i - 1] && out[j] == ms[j - 1]);
                } else {
                    assert(out[j] == ms[j - 1]);
                    assert(!((#[trigger] ms[j - 1]).owner == e.owner));
                }
            }
        }
    } else {
        let rest = ms.drop_first();
        assert(!has_peer(rest, e.peer)) by {
            assert forall|i: int| 0 <= i < rest.len() implies (#[trigger] rest[i]).peer != e.peer by {
                assert(rest[i] == ms[i + 1]);
            }
        }
        lemma_insert_sorted_ensures(rest, e);
        let sub = insert_sorted(rest, e);
        assert(out == seq![ms[0]] + sub);
        assert forall|x: MemberEntry| #[trigger] out.contains(x) <==> ms.contains(x) || x == e by {
            if out.contains(x) {
                let i = choose|i: int| 0 <= i < out.len() && out[i] == x;
                if i == 0 {
                    assert(ms[0] == x);
                } else {
                    assert(sub[i - 1] == x);
                    assert(sub.contains(x));
                    if rest.contains(x) {
                        let j = choose|j: int| 0 <= j < rest.len() && rest[j] == x;
                        assert(ms[j + 1] == x);
                    }
                }
            }
            if ms.contains(x) {
                let i = choose|i: int| 0 <= i < ms.len() && ms[i] == x;
                if i == 0 {
                    assert(out[0] == x);
                } else {
                    assert(rest[i - 1] == x);
                    assert(rest.contains(x));
                    assert(sub.contains(x));
                    let j = choose|j: int| 0 <= j < sub.len() && sub[j] == x;
                    assert(out[j + 1] == x);
                }
            }
            if x == e {
                assert(sub.contains(x));
                let j = choose|j: int| 0 <= j < sub.len() && sub[j] == x;
                assert(out[j + 1] == x);
            }
        }
        if wf_members(ms) && !has_owner(ms, e.owner) {
            assert(wf_members(rest) && !has_owner(rest, e.owner)) by {
                assert forall|i: int, j: int|
                    0 <= i < j < rest.len() implies (#[trigger] rest[i]).peer < (
                #[trigger] rest[j]).peer && rest[i].owner != rest[j].owner by {
                    assert(rest[i] == ms[i + 1] && rest[j] == ms[j + 1]);
                }
                assert forall|i: int| 0 <= i < rest.len() implies (#[trigger] rest[i]).owner
                    != e.owner by {
                    assert(rest[i] == ms[i + 1]);
                }
            }
            assert forall|i: int, j: int|
                0 <= i < j < out.len() implies (#[trigger] out[i]).peer < (#[trigger] out[j]).peer
                && out[i].owner != out[j].owner by {
                if i == 0 {
                    assert(out[0] == ms[0]);
                    assert(sub.contains(out[j])) by {
                        assert(out[j] == sub[j - 1]);
                    }
                    if rest.contains(out[j]) {
                        let k = choose|k: int| 0 <= k < rest.len() && rest[k] == out[j];
                        assert(ms[k + 1] == out[j]);
                        assert(ms[0].peer < ms[k + 1].peer && ms[0].owner != ms[k + 1].owner);
                    } else {
                        assert(out[j] == e);
                        assert(ms[0].peer < e.peer);
                        assert(!((#[trigger] ms[0]).owner == e.owner));
                    }
                } else {
                    assert(out[i] == sub[i - 1] && out[j] == sub[j - 1]);
                }
            }
        }
    }
}

impl Manager {
    /// The state invariant, on the view.
    pub open spec fn wf(self) -> bool {
        mgr_wf(self@)
    }

    /// A manager whose host storage was never written: no configuration, no
    /// members, nothing pending.
    pub fn new() -> (m: Manager)
        ensures
            m@ == (ManagerView {
                config: None::<Config>,
                members: Seq::<MemberEntry>::empty(),
                pending: None::<ActorId>,
            }),
            m.wf(),
    {
        let m = Manager { config: None, members: Vec::new(), pending_instantiation: None };
        proof {
            assert(m@.members =~= Seq::<MemberEntry>::empty());
        }
        m
    }

    /// Record the immutable configuration. The host runs this exactly once,
    /// before any other operation.
    pub fn instantiate(&mut self, msg: InstantiateMsg)
        requires
            msg.collective_ratio.wf(),
            old(self).wf(),
        ensures
            final(self)@ == instantiate_tr(old(self)@, msg),
            final(self).wf(),
    {
        self.config = Some(
            Config {
                peer_code_id: msg.peer_code_id,
                incremental_donation: msg.incremental_donation,
                collective_ratio: msg.collective_ratio,
            },
        );
    }

    /// Start provisioning a peer for `caller`: record the caller in the
    /// pending slot and return the creation request the host must run. The
    /// caller becomes a member only when the completion callback succeeds.
    #[verifier::loop_isolation(false)]
    pub fn join(&mut self, caller: ActorId) -> (r: Result<ProvisionRequest, Error>)
        requires
            old(self).wf(),
        ensures
            final(self)@ == join_tr(old(self)@, caller).0,
            r == join_tr(old(self)@, caller).1,
            final(self).wf(),
    {
        let c = match self.config {
            None => {
                return Err(Error::ConfigNotFound);
            },
            Some(c) => c,
        };
        if self.pending_instantiation.is_some() {
            return Err(Error::AlreadyPending);
        }
        let mut i: usize = 0;
        while i < self.members.len()
            invariant
                0 <= i <= self.members@.len(),
                forall|j: int| 0 <= j < i ==> (#[trigger] self.members@[j]).owner != caller,
            decreases self.members@.len() - i,
        {
            if self.members[i].owner == caller {
                assert(has_owner(self@.members, caller));
                return Err(Error::AlreadyMember);
            }
            i = i + 1;
        }
        assert(!has_owner(self@.members, caller));
        self.pending_instantiation = Some(caller);
        Ok(
            ProvisionRequest {
                code_id: c.peer_code_id,
                msg: peer::InstantiateMsg {
                    owner: caller,
                    incremental_donation: c.incremental_donation,
                    collective_ratio: c.collective_ratio,
                },
                reply_id: PEER_INSTANTIATE_ID,
            },
        )
    }

    /// Resolve the outstanding provisioning request. On success the new peer
    /// is registered to the pending owner; on failure nothing is registered;
    /// either way the pending slot is consumed.
    #[verifier::loop_isolation(false)]
    pub fn peer_instantiate_reply(&mut self, outcome: Option<ActorId>) -> (r: Result<(), Error>)
        requires
            old(self).wf(),
        ensures
            final(self)@ == reply_tr(old(self)@, outcome).0,
            r == reply_tr(old(self)@, outcome).1,
            final(self).wf(),
    {
        let owner = match self.pending_instantiation {
            None => {
                return Err(Error::PendingNotFound);
            },
            Some(o) => o,
        };
        self.pending_instantiation = None;
        let p = match outcome {
            None => {
                return Err(Error::MalformedCallback);
            },
            Some(p) => p,
        };
        let e = MemberEntry { peer: p, owner };
        let ghost ms = self.members@;
        let mut pos: usize = 0;
        while pos < self.members.len() && self.members[pos].peer < p
            invariant
                0 <= pos <= ms.len(),
                self.members@ == ms,
                forall|j: int| 0 <= j < pos ==> (#[trigger] ms[j]).peer < p,
            decreases ms.len() - pos,
        {
            pos = pos + 1;
        }
        if pos < self.members.len() && self.members[pos].peer == p {
            assert(has_peer(ms, p));
            return Err(Error::MalformedCallback);
        }
        assert(!has_peer(ms, p)) by {
            if has_peer(ms, p) {
                let i = choose|i: int| 0 <= i < ms.len() && (#[trigger] ms[i]).peer == p;
                if i < pos {
                    assert(ms[i].peer < p);
                } else if i > pos {
                    assert(ms[pos as int].peer < ms[i].peer);
                }
            }
        }
        proof {
            lemma_insert_sorted_at(ms, e, pos as int);
            lemma_insert_sorted_ensures(ms, e);
        }
        self.members.insert(pos, e);
        proof {
            assert(!has_owner(ms, e.owner));
            assert forall|o: ActorId| has_owner(insert_sorted(ms, e), o) implies has_owner(ms, o)
                || o == e.owner by {
                let i = choose|i: int|
                    0 <= i < insert_sorted(ms, e).len() && (#[trigger] insert_sorted(
                        ms,
                        e,
                    )[i]).owner == o;
                assert(insert_sorted(ms, e).contains(insert_sorted(ms, e)[i]));
            }
        }
        Ok(())
    }

    /// Remove the caller's membership entry; the caller's peer actor itself
    /// is untouched (it simply stops being enumerated).
    #[verifier::loop_isolation(false)]
    pub fn leave(&mut self, caller: ActorId) -> (r: Result<(), Error>)
        requires
            old(self).wf(),
        ensures
            final(self)@ == leave_tr(old(self)@, caller).0,
            r == leave_tr(old(self)@, caller).1,
            final(self).wf(),
    {
        let ghost ms = self.members@;
        let mut i: usize = 0;
        while i < self.members.len()
            invariant
                0 <= i <= ms.len(),
                self.members@ == ms,
                self.config == old(self).config,
                self.pending_instantiation == old(self).pending_instantiation,
                forall|j: int| 0 <= j < i ==> (#[trigger] ms[j]).owner != caller,
            decreases ms.len() - i,
        {
            if self.members[i].owner == caller {
                proof {
                    assert(has_owner(ms, caller));
                    let k = owner_index(ms, caller);
                    assert(ms[k].owner == caller);
                    if k < i {
                        assert(ms[k].owner != caller);
                    } else if k > i {
                        assert(mgr_wf(old(self)@));
                        assert(ms[i as int].owner != ms[k].owner);
                    }
                    assert(k == i as int);
                }
                self.members.remove(i);
                proof {
                    let nms = ms.remove(i as int);
                    assert forall|a: int, b: int| 0 <= a < b < nms.len() implies (
                    #[trigger] nms[a]).peer < (#[trigger] nms[b]).peer && nms[a].owner
                        != nms[b].owner by {
                        let a0 = if a < i as int {
                            a
                        } else {
                            a + 1
                        };
                        let b0 = if b < i as int {
                            b
                        } else {
                            b + 1
                        };
                        assert(nms[a] == ms[a0] && nms[b] == ms[b0]);
                    }
                    assert forall|o: ActorId| has_owner(nms, o) implies has_owner(ms, o) by {
                        let j = choose|j: int| 0 <= j < nms.len() && (#[trigger] nms[j]).owner == o;
                        let j0 = if j < i as int {
                            j
                        } else {
                            j + 1
                        };
                        assert(ms[j0].owner == o);
                    }
                }
                return Ok(());
            }
            i = i + 1;
        }
        assert(!has_owner(ms, caller));
        Err(Error::NoSuchMember)
    }

    /// The configuration the manager was instantiated with, unchanged since.
    pub fn config(&self) -> (r: Result<ConfigResp, Error>)
        ensures
            match self@.config {
                Some(c) => r == Ok::<ConfigResp, Error>(
                    ConfigResp {
                        incremental_donation: c.incremental_donation,
                        collective_ratio: c.collective_ratio,
                    },
                ),
                None => r == Err::<ConfigResp, Error>(Error::ConfigNotFound),
            },
    {
        match self.config {
            Some(c) => Ok(
                ConfigResp {
                    incremental_donation: c.incremental_donation,
                    collective_ratio: c.collective_ratio,
                },
            ),
            None => Err(Error::ConfigNotFound),
        }
    }

    /// The peer actor registered to owner `addr`, or `NoSuchMember`.
    #[verifier::loop_isolation(false)]
    pub fn member_peer_addr(&self, addr: ActorId) -> (r: Result<MemberPeerAddrResp, Error>)
        requires
            self.wf(),
        ensures
            has_owner(self@.members, addr) ==> r == Ok::<MemberPeerAddrResp, Error>(
                MemberPeerAddrResp { addr: peer_of(self@.members, addr) },
            ),
            !has_owner(self@.members, addr) ==> r == Err::<MemberPeerAddrResp, Error>(
                Error::NoSuchMember,
            ),
    {
        let ghost ms = self@.members;
        let mut i: usize = 0;
        while i < self.members.len()
            invariant
                0 <= i <= ms.len(),
                forall|j: int| 0 <= j < i ==> (#[trigger] ms[j]).owner != addr,
            decreases ms.len() - i,
        {
            if self.members[i].owner == addr {
                proof {
                    assert(has_owner(ms, addr));
                    let k = owner_index(ms, addr);
                    assert(ms[k].owner == addr);
                    if k < i {
                        assert(ms[k].owner != addr);
                    } else if k > i {
                        assert(ms[i as int].owner != ms[k].owner);
                    }
                }
                return Ok(MemberPeerAddrResp { addr: self.members[i].peer });
            }
            i = i + 1;
        }
        assert(!has_owner(ms, addr));
        Err(Error::NoSuchMember)
    }

    /// List the registry in ascending peer order, resuming strictly after
    /// `start_after` and capped at `limit` entries.
    #[verifier::loop_isolation(false)]
    pub fn members_list(&self, start_after: Option<ActorId>, limit: Option<u64>) -> (r:
        MembersListResp)
        ensures
            r.members@ == page(self@.members, start_after, limit),
    {
        let ghost ms = self@.members;
        let mut out: Vec<Member> = Vec::new();
        let mut i: usize = 0;
        proof {
            assert(ms.take(0) =~= Seq::<MemberEntry>::empty());
            assert(out@ =~= to_members(filtered(ms.take(0), start_after)));
        }
        while i < self.members.len()
            invariant
                0 <= i <= ms.len(),
                out@ == to_members(filtered(ms.take(i as int), start_after)),
            decreases ms.len() - i,
        {
            let m = self.members[i];
            proof {
                assert(ms.take(i + 1).drop_last() =~= ms.take(i as int));
                assert(ms.take(i + 1).last() == ms[i as int]);
                if passes(ms[i as int], start_after) {
                    assert(to_members(
                        filtered(ms.take(i as int), start_after).push(ms[i as int]),
                    ) =~= to_members(filtered(ms.take(i as int), start_after)).push(
                        to_member(ms[i as int]),
                    ));
                }
            }
            let keep = match start_after {
                None => true,
                Some(sa) => m.peer > sa,
            };
            if keep {
                out.push(Member { addr: m.owner, peer_addr: m.peer });
            }
            i = i + 1;
        }
        proof {
            assert(ms.take(ms.len() as int) =~= ms);
        }
        if let Some(l) = limit {
            let len64 = out.len() as u64;
            if l < len64 {
                out.truncate(l as usize);
                proof {
                    let f = filtered(ms, start_after);
                    assert(to_members(f).subrange(0, l as int) =~= to_members(f.take(l as int)));
                }
            }
        }
        MembersListResp { members: out }
    }

    /// Distribute the manager's whole pooled balance across the registry in
    /// proportion to each peer's donation count. `weights` holds one
    /// donation-count query answer per registry entry, in registry order,
    /// `None` where the query failed; `balance` is the manager's current
    /// ledger balance. All-or-nothing: any failed query, or a zero total
    /// weight, rejects the whole operation and nothing is transferred.
    /// One transfer per peer is returned, zero amounts included; the
    /// truncation residue stays with the manager.
    #[verifier::loop_isolation(false)]
    pub fn donate(&self, weights: &Vec<Option<u64>>, balance: &Vec<Coin>) -> (r: Result<
        Vec<Transfer>,
        Error,
    >)
        requires
            self.wf(),
            weights@.len() == self@.members.len(),
        ensures
            !all_weights_known(weights@) ==> r == Err::<Vec<Transfer>, Error>(
                Error::PeerQueryFailed,
            ),
            all_weights_known(weights@) && total_weight(weights@) == 0 ==> r == Err::<
                Vec<Transfer>,
                Error,
            >(Error::NoWeight),
            all_weights_known(weights@) && total_weight(weights@) > 0 ==> (r matches Ok(ts)
                && ts@.len() == self@.members.len() && (forall|i: int|
                0 <= i < ts@.len() ==> (#[trigger] ts@[i]).to == self@.members[i].peer
                    && ts@[i].amount@ == shares(
                    balance@,
                    weights@[i]->0,
                    total_weight(weights@),
                ))),
    {
        let ghost ws = weights@;
        let mut total: u128 = 0;
        let mut i: usize = 0;
        proof {
            assert(ws.take(0) =~= Seq::<Option<u64>>::empty());
        }
        while i < weights.len()
            invariant
                0 <= i <= ws.len(),
                total as int == total_weight(ws.take(i as int)),
                total as int <= i as int * (u64::MAX as int),
                forall|j: int| 0 <= j < i ==> (#[trigger] ws[j]) is Some,
            decreases ws.len() - i,
        {
            let w = match weights[i] {
                Some(w) => w,
                None => {
                    assert(!all_weights_known(ws));
                    return Err(Error::PeerQueryFailed);
                },
            };
            proof {
                lemma_total_weight_take_step(ws, i as int);
                vstd::arithmetic::mul::lemma_mul_inequality(
                    i as int,
                    u64::MAX as int,
                    u64::MAX as int,
                );
            }
            total = total + (w as u128);
            i = i + 1;
        }
        proof {
            assert(ws.take(ws.len() as int) =~= ws);
        }
        if total == 0 {
            return Err(Error::NoWeight);
        }
        let mut ts: Vec<Transfer> = Vec::new();
        let mut k: usize = 0;
        while k < self.members.len()
            invariant
                0 <= k <= self@.members.len(),
                ts@.len() == k,
                forall|j: int|
                    0 <= j < k ==> (#[trigger] ts@[j]).to == self@.members[j].peer
                        && ts@[j].amount@ == shares(balance@, ws[j]->0, total_weight(ws)),
            decreases self@.members.len() - k,
        {
            let w = match weights[k] {
                Some(w) => w,
                None => {
                    return Err(Error::PeerQueryFailed);
                },
            };
            proof {
                lemma_weight_le_total(ws, k as int);
            }
            let amount = compute_shares(balance, w, total);
            ts.push(Transfer { to: self.members[k].peer, amount });
            k = k + 1;
        }
        Ok(ts)
    }

    /// Dispatch one incoming execution. `weights` and `balance` are read
    /// only by `Donate`: one donation-count answer per registry entry, and
    /// the manager's current ledger balance.
    pub fn execute(
        &mut self,
        caller: ActorId,
        weights: &Vec<Option<u64>>,
        balance: &Vec<Coin>,
        msg: ExecMsg,
    ) -> (r: Result<ExecResponse, Error>)
        requires
            old(self).wf(),
            msg is Donate ==> weights@.len() == old(self)@.members.len(),
        ensures
            final(self).wf(),
            match msg {
                ExecMsg::Join {  } => {
                    &&& final(self)@ == join_tr(old(self)@, caller).0
                    &&& (match join_tr(old(self)@, caller).1 {
                        Ok(req) => r == Ok::<ExecResponse, Error>(ExecResponse::Joined(req)),
                        Err(e) => r == Err::<ExecResponse, Error>(e),
                    })
                },
                ExecMsg::Leave {  } => {
                    &&& final(self)@ == leave_tr(old(self)@, caller).0
                    &&& (match leave_tr(old(self)@, caller).1 {
                        Ok(()) => r == Ok::<ExecResponse, Error>(ExecResponse::Left),
                        Err(e) => r == Err::<ExecResponse, Error>(e),
                    })
                },
                ExecMsg::Donate {  } => {
                    &&& *final(self) == *old(self)
                    &&& !all_weights_known(weights@) ==> r == Err::<ExecResponse, Error>(
                        Error::PeerQueryFailed,
                    )
                    &&& all_weights_known(weights@) && total_weight(weights@) == 0 ==> r == Err::<
                        ExecResponse,
                        Error,
                    >(Error::NoWeight)
                    &&& all_weights_known(weights@) && total_weight(weights@) > 0 ==> (r matches Ok(
                        ExecResponse::Donated(ts),
                    ) && ts@.len() == old(self)@.members.len() && (forall|i: int|
                        0 <= i < ts@.len() ==> (#[trigger] ts@[i]).to == old(self)@.members[i].peer
                            && ts@[i].amount@ == shares(
                            balance@,
                            weights@[i]->0,
                            total_weight(weights@),
                        )))
                },
            },
    {
        match msg {
            ExecMsg::Join {  } => match self.join(caller) {
                Ok(req) => Ok(ExecResponse::Joined(req)),
                Err(e) => Err(e),
            },
            ExecMsg::Leave {  } => match self.leave(caller) {
                Ok(()) => Ok(ExecResponse::Left),
                Err(e) => Err(e),
            },
            ExecMsg::Donate {  } => match self.donate(weights, balance) {
                Ok(ts) => Ok(ExecResponse::Donated(ts)),
                Err(e) => Err(e),
            },
        }
    }

    /// Dispatch one query.
    pub fn query(&self, msg: QueryMsg) -> (r: Result<QueryResp, Error>)
        requires
            self.wf(),
        ensures
            match msg {
                QueryMsg::Config {  } => match self@.config {
                    Some(c) => r matches Ok(QueryResp::Config(resp)) && resp.incremental_donation
                        == c.incremental_donation && resp.collective_ratio == c.collective_ratio,
                    None => r == Err::<QueryResp, Error>(Error::ConfigNotFound),
                },
                QueryMsg::MemberPeerAddr { addr } => if has_owner(self@.members, addr) {
                    r matches Ok(QueryResp::MemberPeerAddr(resp)) && resp.addr == peer_of(
                        self@.members,
                        addr,
                    )
                } else {
                    r == Err::<QueryResp, Error>(Error::NoSuchMember)
                },
                QueryMsg::MembersList { start_after, limit } => r matches Ok(
                    QueryResp::MembersList(resp),
                ) && resp.members@ == page(self@.members, start_after, limit),
            },
    {
        match msg {
            QueryMsg::Config {  } => match self.config() {
                Ok(resp) => Ok(QueryResp::Config(resp)),
                Err(e) => Err(e),
            },
            QueryMsg::MemberPeerAddr { addr } => match self.member_peer_addr(addr) {
                Ok(resp) => Ok(QueryResp::MemberPeerAddr(resp)),
                Err(e) => Err(e),
            },
            QueryMsg::MembersList { start_after, limit } => Ok(
                QueryResp::MembersList(self.members_list(start_after, limit)),
            ),
        }
    }

    /// Route a host callback by its correlation identifier: only the peer
    /// creation reply is known.
    pub fn reply(&mut self, id: u64, outcome: Option<ActorId>) -> (r: Result<(), Error>)
        requires
            old(self).wf(),
        ensures
            final(self).wf(),
            id == PEER_INSTANTIATE_ID ==> final(self)@ == reply_tr(old(self)@, outcome).0 && r
                == reply_tr(old(self)@, outcome).1,
            id != PEER_INSTANTIATE_ID ==> *final(self) == *old(self) && r == Err::<(), Error>(
                Error::UnknownReplyId,
            ),
    {
        if id == PEER_INSTANTIATE_ID {
            self.peer_instantiate_reply(outcome)
        } else {
            Err(Error::UnknownReplyId)
        }
    }
}

} // verus!
