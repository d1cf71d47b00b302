//! Optimistic nonce counter of one (account, api key) pair.
//!
//! The counter holds the last nonce that was handed out. It runs ahead of the exchange: nonces
//! are reserved when a transaction is signed and given back when it turns out not to have been
//! sent.
use vstd::prelude::*;

verus! {

/// What the counter knows.
pub struct Nonces {
    pub account_index: i64,
    pub api_key_index: i32,
    /// The last nonce handed out.
    pub last: int,
}

/// Nonce counter of one (account, api key) pair.
#[derive(Clone, Debug)]
pub struct NonceManager {
    account_index: i64,
    api_key_index: i32,
    nonce: i64,
}

impl View for NonceManager {
    type V = Nonces;

    closed spec fn view(&self) -> Nonces {
        Nonces {
            account_index: self.account_index,
            api_key_index: self.api_key_index,
            last: self.nonce as int,
        }
    }
}

/// A new counter, for an exchange that expects `next`.
pub open spec fn opened(next: i64, account_index: i64, api_key_index: i32) -> Nonces {
    Nonces { account_index, api_key_index, last: next - 1 }
}

/// The nonce that is handed out next.
pub open spec fn upcoming(s: Nonces) -> int {
    s.last + 1
}

/// The counter with `n` more nonces handed out.
pub open spec fn reserved(s: Nonces, n: int) -> Nonces {
    Nonces { last: s.last + n, ..s }
}

/// The counter with the last `n` nonces given back.
pub open spec fn rolled_back(s: Nonces, n: int) -> Nonces {
    Nonces { last: s.last - n, ..s }
}

/// The counter in step with an exchange that expects `next`.
pub open spec fn in_step(s: Nonces, next: i64) -> Nonces {
    Nonces { last: next - 1, ..s }
}

impl NonceManager {
    /// A counter whose first nonce is the one that the exchange expects next.
    pub fn init(next_nonce: i64, account_index: i64, api_key_index: i32) -> (r: NonceManager)
        requires
            next_nonce > i64::MIN,
        ensures
            r@ == opened(next_nonce, account_index, api_key_index),
    {
        NonceManager { account_index, api_key_index, nonce: next_nonce - 1 }
    }

    /// Reserves the next nonce.
    pub fn next(&mut self) -> (r: i64)
        requires
            old(self)@.last < i64::MAX,
        ensures
            r == upcoming(old(self)@),
            final(self)@ == reserved(old(self)@, 1),
    {
        self.nonce = self.nonce + 1;
        self.nonce
    }

    /// Gives the last nonce back.
    pub fn acknowledge_failure(&mut self)
        requires
            old(self)@.last > i64::MIN,
        ensures
            final(self)@ == rolled_back(old(self)@, 1),
    {
        self.nonce = self.nonce - 1;
    }

    /// Gives the last `n` nonces back.
    pub fn rollback(&mut self, n: usize)
        requires
            old(self)@.last - n >= i64::MIN,
        ensures
            final(self)@ == rolled_back(old(self)@, n as int),
    {
        let mut left: usize = n;
        let ghost start = self@;
        while left > 0
            invariant
                left <= n,
                start.last - n >= i64::MIN,
                self@ == rolled_back(start, n - left),
            decreases left,
        {
            self.acknowledge_failure();
            left = left - 1;
        }
    }

    /// Falls in step with the exchange, which expects `next_nonce`.
    pub fn hard_refresh(&mut self, next_nonce: i64)
        requires
            next_nonce > i64::MIN,
        ensures
            final(self)@ == in_step(old(self)@, next_nonce),
    {
        self.nonce = next_nonce - 1;
    }

    /// The api key that the nonces belong to.
    pub fn api_key_index(&self) -> (r: i32)
        ensures
            r == self@.api_key_index,
    {
        self.api_key_index
    }

    /// The account that the nonces belong to.
    pub fn account_index(&self) -> (r: i64)
        ensures
            r == self@.account_index,
    {
        self.account_index
    }

    /// The last nonce handed out.
    pub fn last(&self) -> (r: i64)
        ensures
            r == self@.last,
    {
        self.nonce
    }
}

/// Giving nonces back undoes their reservation: the next one handed out is the same again.
pub proof fn rollback_undoes_reservation(s: Nonces, n: nat)
    ensures
        rolled_back(reserved(s, n as int), n as int) == s,
{
}

/// Reserved nonces follow one another without a gap.
pub proof fn nonces_are_consecutive(s: Nonces, a: nat, b: nat)
    ensures
        reserved(reserved(s, a as int), b as int) == reserved(s, (a + b) as int),
{
}

/// The counter after `k` nonces were reserved, one by one.
pub open spec fn after_calls(s: Nonces, k: nat) -> Nonces
    decreases k,
{
    if k == 0 {
        s
    } else {
        reserved(after_calls(s, (k - 1) as nat), 1)
    }
}

/// From the nonce that the exchange expects, on a new counter as on one that fell in step, the
/// nonces are handed out one after another: the first one is that nonce itself, and each further
/// one is the next number, so that none is left out and none comes twice.
pub proof fn nonces_follow_the_exchange(
    s: Nonces,
    next: i64,
    account_index: i64,
    api_key_index: i32,
    k: nat,
)
    ensures
        upcoming(after_calls(opened(next, account_index, api_key_index), k)) == next + k,
        upcoming(after_calls(in_step(s, next), k)) == next + k,
    decreases k,
{
    if k > 0 {
        nonces_follow_the_exchange(s, next, account_index, api_key_index, (k - 1) as nat);
    }
}

/// Once in step, the counter hands out exactly the nonce that the exchange expects.
pub proof fn refresh_falls_in_step(s: Nonces, next: i64)
    ensures
        reserved(in_step(s, next), 1).last == next,
{
}

/// A counter belongs to its account and key throughout, and moves by as much as is reserved or given
/// back.
pub proof fn counters_keep_their_owner(
    s: Nonces,
    next: i64,
    account_index: i64,
    api_key_index: i32,
    n: int,
)
    ensures
        opened(next, account_index, api_key_index).account_index == account_index,
        opened(next, account_index, api_key_index).api_key_index == api_key_index,
        reserved(s, n).account_index == s.account_index,
        reserved(s, n).api_key_index == s.api_key_index,
        rolled_back(s, n).account_index == s.account_index,
        rolled_back(s, n).api_key_index == s.api_key_index,
        in_step(s, next).account_index == s.account_index,
        in_step(s, next).api_key_index == s.api_key_index,
        upcoming(reserved(s, n)) == upcoming(s) + n,
        upcoming(rolled_back(s, n)) == upcoming(s) - n,
        upcoming(s) == s.last + 1,
{
}

} // verus!
