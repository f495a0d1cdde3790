//! Protocol-wide laws, proved over the spec-level transitions: the registry
//! tracks exactly the successfully provisioned peers, a member who left can
//! no longer be looked up, the configuration never changes after
//! instantiation, and the distribution arithmetic is conservative and
//! proportional.

use vstd::prelude::*;
use crate::{ActorId, Coin};
use crate::manager::{
    filtered,
    has_owner,
    has_peer,
    insert_sorted,
    join_tr,
    leave_tr,
    mgr_wf,
    owner_index,
    page,
    reply_tr,
    to_members,
    wf_members,
    ManagerView,
    MemberEntry,
};
use crate::distribution::{share_amount, shares, total_weight};
use vstd::arithmetic::div_mod::{lemma_div_denominator, lemma_div_multiples_vanish};
use vstd::arithmetic::mul::{lemma_mul_is_commutative, lemma_mul_nonnegative};

verus! {

/// Removing one registry entry keeps the registry well-formed and
/// introduces no owner.
proof fn lemma_remove_keeps_wf(ms: Seq<MemberEntry>, i: int)
    requires
        wf_members(ms),
        0 <= i < ms.len(),
    ensures
        wf_members(ms.remove(i)),
        forall|o: ActorId| has_owner(#[trigger] ms.remove(i), o) ==> has_owner(ms, o),
{
    let nms = ms.remove(i);
    assert forall|a: int, b: int| 0 <= a < b < nms.len() implies (#[trigger] nms[a]).peer < (
    #[trigger] nms[b]).peer && nms[a].owner != nms[b].owner by {
        let a0 = if a < i {
            a
        } else {
            a + 1
        };
        let b0 = if b < i {
            b
        } else {
            b + 1
        };
        assert(nms[a] == ms[a0] && nms[b] == ms[b0]);
    }
    assert forall|o: ActorId| has_owner(nms, o) implies has_owner(ms, o) by {
        let j = choose|j: int| 0 <= j < nms.len() && (#[trigger] nms[j]).owner == o;
        let j0 = if j < i {
            j
        } else {
            j + 1
        };
        assert(ms[j0].owner == o);
    }
}

/// One provisioning round: a join immediately resolved by a callback that
/// reports `peer` as the created actor.
pub open spec fn run_pair(v: ManagerView, owner: ActorId, peer: ActorId) -> ManagerView {
    reply_tr(join_tr(v, owner).0, Some(peer)).0
}

/// Whether that round registered a member: both the join and the callback
/// were accepted.
pub open spec fn pair_registered(v: ManagerView, owner: ActorId, peer: ActorId) -> bool {
    join_tr(v, owner).1 is Ok && reply_tr(join_tr(v, owner).0, Some(peer)).1 is Ok
}

/// The state after a sequence of provisioning rounds, each `(owner, peer)`.
pub open spec fn run_pairs(v: ManagerView, pairs: Seq<(ActorId, ActorId)>) -> ManagerView
    decreases pairs.len(),
{
    if pairs.len() == 0 {
        v
    } else {
        run_pairs(run_pair(v, pairs[0].0, pairs[0].1), pairs.drop_first())
    }
}

/// The set of entries the successful rounds of the sequence registered.
pub open spec fn registered_entries(v: ManagerView, pairs: Seq<(ActorId, ActorId)>) -> Set<
    MemberEntry,
>
    decreases pairs.len(),
{
    if pairs.len() == 0 {
        Set::empty()
    } else {
        let e = MemberEntry { peer: pairs[0].1, owner: pairs[0].0 };
        let rest = registered_entries(run_pair(v, pairs[0].0, pairs[0].1), pairs.drop_first());
        if pair_registered(v, pairs[0].0, pairs[0].1) {
            rest.insert(e)
        } else {
            rest
        }
    }
}

/// One provisioning round, from an idle well-formed manager: the invariant
/// and the idle pending slot are restored, the configuration is untouched,
/// and the registry gains exactly the round's entry when the round was
/// accepted and nothing otherwise.
proof fn lemma_run_pair(v: ManagerView, owner: ActorId, peer: ActorId)
    requires
        mgr_wf(v),
        v.pending is None,
    ensures
        mgr_wf(run_pair(v, owner, peer)),
        run_pair(v, owner, peer).pending is None,
        run_pair(v, owner, peer).config == v.config,
        pair_registered(v, owner, peer) ==> run_pair(v, owner, peer).members.to_set()
            =~= v.members.to_set().insert(MemberEntry { peer, owner }),
        !pair_registered(v, owner, peer) ==> run_pair(v, owner, peer).members == v.members,
{
    let j = join_tr(v, owner);
    if j.1 is Ok {
        let v1 = j.0;
        if has_peer(v.members, peer) {
        } else {
            let e = MemberEntry { peer, owner };
            crate::manager::lemma_insert_sorted_ensures(v.members, e);
            let out = insert_sorted(v.members, e);
            assert(out.to_set() =~= v.members.to_set().insert(e));
            assert forall|o: ActorId| has_owner(out, o) implies has_owner(v.members, o) || o
                == e.owner by {
                let i = choose|i: int| 0 <= i < out.len() && (#[trigger] out[i]).owner == o;
                assert(out.contains(out[i]));
            }
        }
    }
}

/// The registry after a sequence of provisioning rounds holds exactly what
/// it held before plus the entries the accepted rounds registered; the
/// invariant — in particular, no owner twice — and the configuration are
/// preserved.
pub proof fn lemma_members_track_provisioning(v: ManagerView, pairs: Seq<(ActorId, ActorId)>)
    requires
        mgr_wf(v),
        v.pending is None,
    ensures
        mgr_wf(run_pairs(v, pairs)),
        run_pairs(v, pairs).pending is None,
        run_pairs(v, pairs).config == v.config,
        run_pairs(v, pairs).members.to_set() =~= v.members.to_set().union(
            registered_entries(v, pairs),
        ),
    decreases pairs.len(),
{
    if pairs.len() == 0 {
        assert(v.members.to_set().union(Set::empty()) =~= v.members.to_set());
    } else {
        let owner = pairs[0].0;
        let peer = pairs[0].1;
        lemma_run_pair(v, owner, peer);
        let v1 = run_pair(v, owner, peer);
        lemma_members_track_provisioning(v1, pairs.drop_first());
        assert(run_pairs(v, pairs).members.to_set() =~= v.members.to_set().union(
            registered_entries(v, pairs),
        ));
    }
}

/// A listing with no resume point keeps every entry.
proof fn lemma_filtered_keeps_all(ms: Seq<MemberEntry>)
    ensures
        filtered(ms, None) == ms,
    decreases ms.len(),
{
    if ms.len() > 0 {
        lemma_filtered_keeps_all(ms.drop_last());
        assert(ms.drop_last().push(ms.last()) =~= ms);
    }
}

/// For every sequence of join/callback rounds against a freshly
/// instantiated manager, the full listing reports exactly the successfully
/// provisioned peers, each owner appearing at most once.
pub proof fn lemma_members_list_exactly_provisioned(v: ManagerView, pairs: Seq<(ActorId, ActorId)>)
    requires
        mgr_wf(v),
        v.pending is None,
        v.members == Seq::<MemberEntry>::empty(),
    ensures
        run_pairs(v, pairs).members.to_set() =~= registered_entries(v, pairs),
        page(run_pairs(v, pairs).members, None, None) == to_members(run_pairs(v, pairs).members),
        forall|i: int, j: int|
            0 <= i < j < run_pairs(v, pairs).members.len() ==> (#[trigger] run_pairs(
                v,
                pairs,
            ).members[i]).owner != (#[trigger] run_pairs(v, pairs).members[j]).owner,
{
    lemma_members_track_provisioning(v, pairs);
    assert(v.members.to_set() =~= Set::<MemberEntry>::empty());
    assert(run_pairs(v, pairs).members.to_set() =~= registered_entries(v, pairs));
    lemma_filtered_keeps_all(run_pairs(v, pairs).members);
}

/// After a successful `leave`, a lookup of the same owner finds nothing, so
/// `member_peer_addr` fails with `NoSuchMember`.
pub proof fn lemma_leave_then_lookup_fails(v: ManagerView, owner: ActorId)
    requires
        mgr_wf(v),
        leave_tr(v, owner).1 is Ok,
    ensures
        !has_owner(leave_tr(v, owner).0.members, owner),
{
    let ms = v.members;
    let i = owner_index(ms, owner);
    assert(ms[i].owner == owner);
    let nms = leave_tr(v, owner).0.members;
    assert(nms == ms.remove(i));
    if has_owner(nms, owner) {
        let j = choose|j: int| 0 <= j < nms.len() && (#[trigger] nms[j]).owner == owner;
        let j0 = if j < i {
            j
        } else {
            j + 1
        };
        assert(nms[j] == ms[j0]);
        assert(ms[j0].owner == owner);
        if j0 < i {
            assert(ms[j0].owner != ms[i].owner);
        } else {
            assert(ms[i].owner != ms[j0].owner);
        }
    }
}

/// Any state-changing manager operation, for the induction that the
/// configuration never changes.
pub enum ManagerOp {
    Join(ActorId),
    Reply(Option<ActorId>),
    Leave(ActorId),
    Donate,
}

/// The state after one operation; `Donate` reads state but never changes it.
pub open spec fn step(v: ManagerView, op: ManagerOp) -> ManagerView {
    match op {
        ManagerOp::Join(c) => join_tr(v, c).0,
        ManagerOp::Reply(o) => reply_tr(v, o).0,
        ManagerOp::Leave(c) => leave_tr(v, c).0,
        ManagerOp::Donate => v,
    }
}

/// The state after a sequence of operations.
pub open spec fn run_ops(v: ManagerView, ops: Seq<ManagerOp>) -> ManagerView
    decreases ops.len(),
{
    if ops.len() == 0 {
        v
    } else {
        run_ops(step(v, ops[0]), ops.drop_first())
    }
}

/// One step keeps the invariant and the configuration.
pub proof fn lemma_step_wf(v: ManagerView, op: ManagerOp)
    requires
        mgr_wf(v),
    ensures
        mgr_wf(step(v, op)),
        step(v, op).config == v.config,
{
    match op {
        ManagerOp::Join(c) => {},
        ManagerOp::Reply(o) => {
            if v.pending is Some && o is Some && !has_peer(v.members, o->0) {
                let e = MemberEntry { peer: o->0, owner: v.pending->0 };
                crate::manager::lemma_insert_sorted_ensures(v.members, e);
                let out = insert_sorted(v.members, e);
                assert forall|ow: ActorId| has_owner(out, ow) implies has_owner(v.members, ow)
                    || ow == e.owner by {
                    let i = choose|i: int| 0 <= i < out.len() && (#[trigger] out[i]).owner == ow;
                    assert(out.contains(out[i]));
                }
            }
        },
        ManagerOp::Leave(c) => {
            if has_owner(v.members, c) {
                lemma_remove_keeps_wf(v.members, owner_index(v.members, c));
            }
        },
        ManagerOp::Donate => {},
    }
}

/// The configuration returned by the `Config` query is exactly what
/// instantiation stored, unchanged by any subsequent sequence of operations.
pub proof fn lemma_config_immutable(v: ManagerView, ops: Seq<ManagerOp>)
    requires
        mgr_wf(v),
    ensures
        mgr_wf(run_ops(v, ops)),
        run_ops(v, ops).config == v.config,
    decreases ops.len(),
{
    if ops.len() > 0 {
        lemma_step_wf(v, ops[0]);
        lemma_config_immutable(step(v, ops[0]), ops.drop_first());
    }
}

/// Whatever a listing keeps, the registry held.
proof fn lemma_filtered_subset(ms: Seq<MemberEntry>, sa: Option<ActorId>)
    ensures
        forall|x: MemberEntry| #[trigger] filtered(ms, sa).contains(x) ==> ms.contains(x),
    decreases ms.len(),
{
    if ms.len() > 0 {
        let dl = ms.drop_last();
        lemma_filtered_subset(dl, sa);
        assert forall|x: MemberEntry| #[trigger] filtered(ms, sa).contains(x) implies ms.contains(
            x,
        ) by {
            let f = filtered(ms, sa);
            let i = choose|i: int| 0 <= i < f.len() && f[i] == x;
            if crate::manager::passes(ms.last(), sa) && i == f.len() - 1 {
                assert(ms[ms.len() - 1] == x);
            } else {
                assert(filtered(dl, sa).contains(x));
                let k = choose|k: int| 0 <= k < dl.len() && dl[k] == x;
                assert(ms[k] == x);
            }
        }
    }
}

/// A listing of a well-formed registry keeps the ascending peer order.
proof fn lemma_filtered_ascending(ms: Seq<MemberEntry>, sa: Option<ActorId>)
    requires
        wf_members(ms),
    ensures
        forall|i: int, j: int|
            0 <= i < j < filtered(ms, sa).len() ==> (#[trigger] filtered(ms, sa)[i]).peer < (
            #[trigger] filtered(ms, sa)[j]).peer,
    decreases ms.len(),
{
    if ms.len() > 0 {
        let dl = ms.drop_last();
        assert(wf_members(dl)) by {
            assert forall|i: int, j: int| 0 <= i < j < dl.len() implies (#[trigger] dl[i]).peer < (
            #[trigger] dl[j]).peer && dl[i].owner != dl[j].owner by {
                assert(dl[i] == ms[i] && dl[j] == ms[j]);
            }
        }
        lemma_filtered_ascending(dl, sa);
        lemma_filtered_subset(dl, sa);
        let f = filtered(ms, sa);
        assert forall|i: int, j: int| 0 <= i < j < f.len() implies (#[trigger] f[i]).peer < (
        #[trigger] f[j]).peer by {
            if crate::manager::passes(ms.last(), sa) && j == f.len() - 1 {
                assert(f[i] == filtered(dl, sa)[i]);
                assert(filtered(dl, sa).contains(f[i]));
                assert(dl.contains(f[i]));
                let k = choose|k: int| 0 <= k < dl.len() && dl[k] == f[i];
                assert(ms[k] == f[i]);
                assert(ms[k].peer < ms[ms.len() - 1].peer);
            } else {
                assert(f[i] == filtered(dl, sa)[i] && f[j] == filtered(dl, sa)[j]);
            }
        }
    }
}

/// A listing of a well-formed registry reports its entries in strictly
/// ascending peer order, whatever the resume point and the cap.
pub proof fn lemma_page_ascending(
    ms: Seq<MemberEntry>,
    sa: Option<ActorId>,
    limit: Option<u64>,
)
    requires
        wf_members(ms),
    ensures
        forall|i: int, j: int|
            0 <= i < j < page(ms, sa, limit).len() ==> (#[trigger] page(ms, sa, limit)[i]).peer_addr
                < (#[trigger] page(ms, sa, limit)[j]).peer_addr,
{
    lemma_filtered_ascending(ms, sa);
    let f = filtered(ms, sa);
    assert forall|i: int, j: int|
        0 <= i < j < page(ms, sa, limit).len() implies (#[trigger] page(ms, sa, limit)[i]).peer_addr
        < (#[trigger] page(ms, sa, limit)[j]).peer_addr by {
        assert(page(ms, sa, limit)[i] == crate::manager::to_member(f[i]));
        assert(page(ms, sa, limit)[j] == crate::manager::to_member(f[j]));
    }
}

/// Distribution conservation: a single peer holding all the weight receives
/// every denomination of the balance in full.
pub proof fn lemma_single_peer_gets_all(ws: Seq<Option<u64>>, balance: Seq<Coin>)
    requires
        ws.len() == 1,
        ws[0] is Some,
        ws[0]->0 > 0,
    ensures
        total_weight(ws) == ws[0]->0 as int,
        shares(balance, ws[0]->0, total_weight(ws)) == balance,
{
    let w = ws[0]->0;
    assert(total_weight(ws) == w as int) by {
        reveal_with_fuel(total_weight, 2);
        assert(ws.drop_last().len() == 0);
    }
    assert forall|i: int| 0 <= i < balance.len() implies shares(balance, w, w as int)[i]
        == balance[i] by {
        let a = balance[i].amount as int;
        lemma_mul_is_commutative(a, w as int);
        lemma_div_multiples_vanish(a, w as int);
        assert(share_amount(balance[i].amount, w, w as int) == a);
    }
    assert(shares(balance, w, w as int) =~= balance);
}

/// Proportional split: two peers with equal positive weights each receive
/// exactly half of every denomination, truncated down.
pub proof fn lemma_equal_weights_split_half(ws: Seq<Option<u64>>, balance: Seq<Coin>)
    requires
        ws.len() == 2,
        ws[0] is Some,
        ws[1] == ws[0],
        ws[0]->0 > 0,
    ensures
        total_weight(ws) == 2 * (ws[0]->0 as int),
        forall|i: int|
            0 <= i < balance.len() ==> #[trigger] shares(balance, ws[0]->0, total_weight(ws))[i]
                == (Coin { denom: balance[i].denom, amount: (balance[i].amount as int / 2) as u64 }),
{
    let w = ws[0]->0;
    assert(total_weight(ws) == 2 * w as int) by {
        reveal_with_fuel(total_weight, 3);
        assert(ws.drop_last().drop_last().len() == 0);
        assert(ws.drop_last()[0] == ws[0]);
    }
    assert forall|i: int| 0 <= i < balance.len() implies #[trigger] shares(
        balance,
        w,
        2 * w as int,
    )[i] == (Coin { denom: balance[i].denom, amount: (balance[i].amount as int / 2) as u64 }) by {
        let a = balance[i].amount as int;
        let wi = w as int;
        lemma_mul_nonnegative(a, wi);
        lemma_div_denominator(a * wi, wi, 2);
        assert((a * wi) / (wi * 2) == ((a * wi) / wi) / 2);
        lemma_mul_is_commutative(a, wi);
        lemma_div_multiples_vanish(a, wi);
        assert((a * wi) / wi == a);
        lemma_mul_is_commutative(wi, 2);
        assert(share_amount(balance[i].amount, w, 2 * wi) == a / 2);
        assert(0 <= a / 2 <= a) by {
            vstd::arithmetic::div_mod::lemma_div_pos_is_pos(a, 2);
            vstd::arithmetic::div_mod::lemma_div_is_ordered_by_denominator(a, 1, 2);
        }
    }
}

} // verus!
