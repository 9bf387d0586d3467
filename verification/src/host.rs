//! The host interface: what a contract may observe of its execution
//! environment. Every field is plain data fixed by the host before the
//! invocation starts, so everything a contract computes is a function of
//! its pre-state, its input and this record — the root of the runtime's
//! determinism guarantee.

use vstd::prelude::*;
use crate::ledger::BalanceMap;
use crate::types::{AccountId, Balance};

verus! {

/// Failure of a host-mediated value transfer.
#[derive(Clone, Copy, Debug, PartialEq, Eq, Structural)]
pub enum TransferError {
    /// The sending account cannot cover the requested amount.
    InsufficientFunds,
}

/// The host's account ledger: the balance every principal holds. The host
/// alone mutates it, in response to explicit transfer requests; the sum of
/// all balances never changes under a transfer and never exceeds what a
/// balance can represent.
pub struct HostLedger {
    accounts: BalanceMap,
}

impl HostLedger {
    /// Well-formed: one entry per account, and the total value in
    /// circulation is representable as a balance.
    pub closed spec fn wf(self) -> bool {
        &&& self.accounts.wf()
        &&& self.accounts.total() <= u128::MAX as int
    }

    /// The balance held by `a`.
    pub closed spec fn spec_balance(self, a: AccountId) -> Balance {
        self.accounts.spec_get(a)
    }

    /// The total value in circulation.
    pub closed spec fn total(self) -> int {
        self.accounts.total()
    }

    /// An empty ledger: no account holds anything.
    pub fn new() -> (l: HostLedger)
        ensures
            l.wf(),
            forall|a: AccountId| l.spec_balance(a) == 0,
            l.total() == 0,
    {
        HostLedger { accounts: BalanceMap::new() }
    }

    /// Reads the balance of `a`, the host's answer to a balance query.
    pub fn balance(&self, a: &AccountId) -> (r: Balance)
        requires
            self.wf(),
        ensures
            r == self.spec_balance(*a),
    {
        self.accounts.get(a)
    }

    /// Credits `a` with `v` fresh units: how a genesis state or an external
    /// transaction endows an account. The new total must stay representable.
    pub fn endow(&mut self, a: AccountId, v: Balance)
        requires
            old(self).wf(),
            old(self).total() + v <= u128::MAX as int,
        ensures
            final(self).wf(),
            forall|b: AccountId| final(self).spec_balance(b) == if b == a {
                (old(self).spec_balance(b) + v) as Balance
            } else {
                old(self).spec_balance(b)
            },
            final(self).total() == old(self).total() + v,
    {
        proof {
            self.accounts.entry_le_sum(a);
        }
        let held = self.accounts.get(&a);
        self.accounts.set(a, held + v);
    }

    /// Moves `value` from `from` to `to`, exactly when `from` can cover it;
    /// the operation behind a contract's transfer request. The total in
    /// circulation is unchanged either way.
    pub fn transfer(&mut self, from: &AccountId, to: &AccountId, value: Balance) -> (r: Result<
        (),
        TransferError,
    >)
        requires
            old(self).wf(),
        ensures
            final(self).wf(),
            final(self).total() == old(self).total(),
            r is Ok <==> old(self).spec_balance(*from) >= value,
            r is Err ==> r == Result::<(), TransferError>::Err(TransferError::InsufficientFunds),
            r is Err ==> forall|b: AccountId|
                final(self).spec_balance(b) == old(self).spec_balance(b),
            r is Ok ==> forall|b: AccountId| final(self).spec_balance(b) == (
                if *from == *to {
                    old(self).spec_balance(b)
                } else if b == *from {
                    (old(self).spec_balance(b) - value) as Balance
                } else if b == *to {
                    (old(self).spec_balance(b) + value) as Balance
                } else {
                    old(self).spec_balance(b)
                }),
    {
        let held = self.accounts.get(from);
        if held < value {
            return Err(TransferError::InsufficientFunds);
        }
        self.accounts.set(*from, held - value);
        let to_held = self.accounts.get(to);
        proof {
            self.accounts.entry_le_sum(*to);
        }
        self.accounts.set(*to, to_held + value);
        Ok(())
    }
}

/// The host-observable environment of one invocation.
#[derive(Clone, Copy, Debug, PartialEq, Eq, Structural)]
pub struct Env {
    /// The identity that initiated this invocation.
    pub caller: AccountId,
    /// The address of the contract instance being run.
    pub callee: AccountId,
    /// The value sent along with this invocation.
    pub transferred_value: Balance,
    /// Deterministic, monotonic per-block height.
    pub block_number: u64,
    /// Deterministic, monotonic per-block timestamp.
    pub block_timestamp: u64,
}

impl Env {
    /// An environment record with every field given explicitly.
    pub fn new(
        caller: AccountId,
        callee: AccountId,
        transferred_value: Balance,
        block_number: u64,
        block_timestamp: u64,
    ) -> (e: Env)
        ensures
            e == (Env { caller, callee, transferred_value, block_number, block_timestamp }),
    {
        Env { caller, callee, transferred_value, block_number, block_timestamp }
    }

    /// The identity that initiated this invocation.
    pub fn caller(&self) -> (r: AccountId)
        ensures
            r == self.caller,
    {
        self.caller
    }

    /// The address of this contract instance.
    pub fn self_account(&self) -> (r: AccountId)
        ensures
            r == self.callee,
    {
        self.callee
    }

    /// The value sent with this invocation.
    pub fn transferred_value(&self) -> (r: Balance)
        ensures
            r == self.transferred_value,
    {
        self.transferred_value
    }

    /// The current block height.
    pub fn block_number(&self) -> (r: u64)
        ensures
            r == self.block_number,
    {
        self.block_number
    }

    /// The current block timestamp.
    pub fn block_timestamp(&self) -> (r: u64)
        ensures
            r == self.block_timestamp,
    {
        self.block_timestamp
    }
}

} // verus!
