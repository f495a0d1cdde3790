//! The arithmetic of proportional distribution: summing the peers' donation
//! counts into a total weight and computing each peer's truncated share of
//! every denomination of the pooled balance.

use vstd::prelude::*;
use crate::Coin;
use vstd::arithmetic::div_mod::{
    lemma_div_is_ordered,
    lemma_div_multiples_vanish,
    lemma_div_pos_is_pos,
};
use vstd::arithmetic::mul::{
    lemma_mul_inequality,
    lemma_mul_is_commutative,
    lemma_mul_nonnegative,
    lemma_mul_upper_bound,
};

verus! {

/// Every peer's donation-count query was answered.
pub open spec fn all_weights_known(ws: Seq<Option<u64>>) -> bool {
    forall|i: int| 0 <= i < ws.len() ==> (#[trigger] ws[i]) is Some
}

/// An answered query's weight; an unanswered one contributes nothing.
pub open spec fn weight_value(w: Option<u64>) -> int {
    match w {
        Some(x) => x as int,
        None => 0,
    }
}

/// The sum of all answered weights.
pub open spec fn total_weight(ws: Seq<Option<u64>>) -> int
    decreases ws.len(),
{
    if ws.len() == 0 {
        0
    } else {
        total_weight(ws.drop_last()) + weight_value(ws.last())
    }
}

/// `floor(amount * w / total)`: one denomination's share for a peer of
/// weight `w`, truncating so that any residual stays with the manager.
pub open spec fn share_amount(amount: u64, w: u64, total: int) -> int
    recommends
        0 < total,
{
    (amount as int * w as int) / total
}

/// A whole balance scaled to a peer's share, denomination by denomination.
pub open spec fn shares(balance: Seq<Coin>, w: u64, total: int) -> Seq<Coin>
    recommends
        0 < total,
{
    balance.map_values(|c: Coin| Coin { denom: c.denom, amount: share_amount(c.amount, w, total) as u64 })
}

pub proof fn lemma_total_weight_nonneg(ws: Seq<Option<u64>>)
    ensures
        total_weight(ws) >= 0,
    decreases ws.len(),
{
    if ws.len() > 0 {
        lemma_total_weight_nonneg(ws.drop_last());
    }
}

/// Extending the summed prefix by one query adds that query's weight.
pub proof fn lemma_total_weight_take_step(ws: Seq<Option<u64>>, i: int)
    requires
        0 <= i < ws.len(),
    ensures
        total_weight(ws.take(i + 1)) == total_weight(ws.take(i)) + weight_value(ws[i]),
{
    assert(ws.take(i + 1).drop_last() =~= ws.take(i));
    assert(ws.take(i + 1).last() == ws[i]);
}

/// No single weight exceeds the total.
pub proof fn lemma_weight_le_total(ws: Seq<Option<u64>>, i: int)
    requires
        0 <= i < ws.len(),
    ensures
        weight_value(ws[i]) <= total_weight(ws),
    decreases ws.len(),
{
    if i == ws.len() - 1 {
        lemma_total_weight_nonneg(ws.drop_last());
    } else {
        lemma_weight_le_total(ws.drop_last(), i);
        assert(ws.drop_last()[i] == ws[i]);
    }
}

/// A share never exceeds the amount it is taken from.
pub proof fn lemma_share_le_amount(amount: u64, w: u64, total: int)
    requires
        0 < total,
        w as int <= total,
    ensures
        0 <= share_amount(amount, w, total) <= amount,
{
    let a = amount as int;
    lemma_mul_inequality(w as int, total, a);
    lemma_mul_is_commutative(w as int, a);
    lemma_mul_is_commutative(total, a);
    lemma_div_is_ordered(a * w as int, a * total, total);
    lemma_div_multiples_vanish(a, total);
    lemma_mul_nonnegative(a, w as int);
    lemma_div_pos_is_pos(a * w as int, total);
}

/// Compute one peer's share of the whole balance: each denomination's amount
/// times `w / total`, truncated.
pub fn compute_shares(balance: &Vec<Coin>, w: u64, total: u128) -> (out: Vec<Coin>)
    requires
        0 < total,
        w as int <= total as int,
    ensures
        out@ == shares(balance@, w, total as int),
{
    let mut out: Vec<Coin> = Vec::new();
    let mut i: usize = 0;
    while i < balance.len()
        invariant
            0 <= i <= balance@.len(),
            0 < total,
            w as int <= total as int,
            out@.len() == i,
            forall|j: int| 0 <= j < i ==> out@[j] == shares(balance@, w, total as int)[j],
        decreases balance@.len() - i,
    {
        let c = balance[i];
        proof {
            lemma_mul_upper_bound(c.amount as int, u64::MAX as int, w as int, u64::MAX as int);
            lemma_share_le_amount(c.amount, w, total as int);
        }
        let prod: u128 = (c.amount as u128) * (w as u128);
        let amt: u64 = (prod / total) as u64;
        out.push(Coin { denom: c.denom, amount: amt });
        i = i + 1;
    }
    proof {
        assert(out@ =~= shares(balance@, w, total as int));
    }
    out
}

} // verus!
