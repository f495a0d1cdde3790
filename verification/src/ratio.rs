//! Fixed-point fractions in `[0, 1]` and their truncating multiply.
//!
//! The collective ratio — the share of each donation a peer forwards to the
//! manager — is an explicit fraction `num / den`. Applying it to an amount
//! truncates toward zero, the same convention the distribution algorithm
//! uses, so a residual always stays with the payer.

use vstd::prelude::*;
use vstd::arithmetic::div_mod::{lemma_div_is_ordered, lemma_div_multiples_vanish};
use vstd::arithmetic::mul::{lemma_mul_inequality, lemma_mul_is_commutative, lemma_mul_upper_bound};

verus! {

/// A fraction in `[0, 1]`: `num / den` with `num <= den` and `den > 0`.
#[derive(Clone, Copy, PartialEq, Eq, Structural, Debug)]
pub struct Ratio {
    pub num: u64,
    pub den: u64,
}

impl Ratio {
    /// The fraction is well-formed and no greater than one.
    pub open spec fn wf(self) -> bool {
        0 < self.den && self.num <= self.den
    }

    /// `floor(amount * num / den)`, the truncating application of the ratio.
    pub open spec fn apply(self, amount: u64) -> int
        recommends
            self.wf(),
    {
        (amount as int * self.num as int) / (self.den as int)
    }

    /// Applying a fraction that is at most one never enlarges the amount.
    pub proof fn lemma_apply_le(self, amount: u64)
        requires
            self.wf(),
        ensures
            0 <= self.apply(amount) <= amount,
    {
        let a = amount as int;
        let n = self.num as int;
        let d = self.den as int;
        lemma_mul_inequality(n, d, a);
        lemma_mul_is_commutative(n, a);
        lemma_mul_is_commutative(d, a);
        lemma_div_is_ordered(a * n, a * d, d);
        lemma_div_multiples_vanish(a, d);
        vstd::arithmetic::div_mod::lemma_div_pos_is_pos(a * n, d);
        vstd::arithmetic::mul::lemma_mul_nonnegative(a, n);
    }

    /// Truncating multiply: returns `floor(amount * num / den)`.
    pub fn mul_floor(self, amount: u64) -> (res: u64)
        requires
            self.wf(),
        ensures
            res == self.apply(amount),
            res <= amount,
    {
        proof {
            self.lemma_apply_le(amount);
            lemma_mul_upper_bound(amount as int, u64::MAX as int, self.num as int, u64::MAX as int);
        }
        let prod: u128 = (amount as u128) * (self.num as u128);
        (prod / (self.den as u128)) as u64
    }
}

} // verus!
