//! Operations on lists of coins: the threshold test a peer applies to an
//! incoming donation, the per-denomination ratio application, and balance
//! lookup by denomination.

use vstd::prelude::*;
use crate::Coin;
use crate::ratio::Ratio;

verus! {

/// Some coin in `funds` is in the threshold's denomination and meets its
/// minimum amount.
pub open spec fn qualifies(c: Coin, threshold: Coin) -> bool {
    c.denom == threshold.denom && c.amount >= threshold.amount
}

/// Some coin in `funds` is in the threshold's denomination and meets its
/// minimum amount.
pub open spec fn has_qualifying(funds: Seq<Coin>, threshold: Coin) -> bool {
    exists|i: int| 0 <= i < funds.len() && qualifies(#[trigger] funds[i], threshold)
}

/// Each coin scaled by the ratio, truncating: the share of `funds` a peer
/// forwards upstream.
pub open spec fn scaled(funds: Seq<Coin>, r: Ratio) -> Seq<Coin>
    recommends
        r.wf(),
{
    funds.map_values(|c: Coin| Coin { denom: c.denom, amount: r.apply(c.amount) as u64 })
}

/// The amount held in `denom`: the amount of the first coin in that
/// denomination, or zero when none is.
pub open spec fn amount_of(funds: Seq<Coin>, denom: u64) -> u64
    decreases funds.len(),
{
    if funds.len() == 0 {
        0u64
    } else if funds[0].denom == denom {
        funds[0].amount
    } else {
        amount_of(funds.drop_first(), denom)
    }
}

/// Whether any coin of `funds` qualifies against `threshold`.
pub fn contains_qualifying(funds: &Vec<Coin>, threshold: Coin) -> (r: bool)
    ensures
        r == has_qualifying(funds@, threshold),
{
    let mut i: usize = 0;
    while i < funds.len()
        invariant
            0 <= i <= funds@.len(),
            forall|j: int| 0 <= j < i ==> !qualifies(#[trigger] funds@[j], threshold),
        decreases funds@.len() - i,
    {
        let c = funds[i];
        if c.denom == threshold.denom && c.amount >= threshold.amount {
            assert(qualifies(funds@[i as int], threshold));
            return true;
        }
        i = i + 1;
    }
    false
}

/// Scale every coin by the ratio, truncating each amount.
pub fn scale_all(funds: &Vec<Coin>, r: Ratio) -> (out: Vec<Coin>)
    requires
        r.wf(),
    ensures
        out@ == scaled(funds@, r),
{
    let mut out: Vec<Coin> = Vec::new();
    let mut i: usize = 0;
    while i < funds.len()
        invariant
            0 <= i <= funds@.len(),
            r.wf(),
            out@.len() == i,
            forall|j: int| 0 <= j < i ==> out@[j] == scaled(funds@, r)[j],
        decreases funds@.len() - i,
    {
        let c = funds[i];
        let amt = r.mul_floor(c.amount);
        out.push(Coin { denom: c.denom, amount: amt });
        i = i + 1;
    }
    proof {
        assert(out@ =~= scaled(funds@, r));
    }
    out
}

/// The balance held in `denom`, zero when the denomination is absent.
pub fn balance_of(funds: &Vec<Coin>, denom: u64) -> (r: u64)
    ensures
        r == amount_of(funds@, denom),
{
    let mut i: usize = 0;
    proof {
        assert(funds@.skip(0) =~= funds@);
    }
    while i < funds.len()
        invariant
            0 <= i <= funds@.len(),
            amount_of(funds@, denom) == amount_of(funds@.skip(i as int), denom),
        decreases funds@.len() - i,
    {
        let c = funds[i];
        proof {
            assert(funds@.skip(i as int)[0] == funds@[i as int]);
            assert(funds@.skip(i as int).drop_first() =~= funds@.skip(i + 1));
        }
        if c.denom == denom {
            return c.amount;
        }
        i = i + 1;
    }
    proof {
        assert(funds@.skip(funds@.len() as int) =~= Seq::<Coin>::empty());
    }
    0
}

} // verus!
