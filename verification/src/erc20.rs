//! A token contract: total supply, per-account balances, and per-pair
//! allowances, with checked arithmetic throughout. The `BaseErc20` trait is
//! the interface contract every conforming token must satisfy: it fixes,
//! for each message, exactly when the message succeeds, how every balance
//! and allowance reads afterwards, and exactly which events are emitted —
//! none on failure, one per successful mutation.

use vstd::prelude::*;
use crate::dispatch::{selectors_unique, Entry, EntryKind};
use crate::host::Env;
use crate::ledger::{AllowanceMap, BalanceMap};
use crate::types::{AccountId, Balance};

verus! {

/// Selector tag of the `new(total_supply)` constructor; like every tag
/// here, assigned at schema-binding time and only required to be distinct
/// within this contract's descriptor.
pub const SELECTOR_ERC20_NEW: u32 = 1;

/// Selector tag of the read-only `total_supply` message.
pub const SELECTOR_TOTAL_SUPPLY: u32 = 2;

/// Selector tag of the read-only `balance_of` message.
pub const SELECTOR_BALANCE_OF: u32 = 3;

/// Selector tag of the read-only `allowance` message.
pub const SELECTOR_ALLOWANCE: u32 = 4;

/// Selector tag of the mutating `transfer` message.
pub const SELECTOR_TRANSFER: u32 = 5;

/// Selector tag of the mutating `approve` message.
pub const SELECTOR_APPROVE: u32 = 6;

/// Selector tag of the mutating `transfer_from` message.
pub const SELECTOR_TRANSFER_FROM: u32 = 7;

/// The token contract's static descriptor: its entry points by selector.
pub open spec fn erc20_descriptor_view() -> Seq<Entry> {
    seq![
        (Entry { selector: SELECTOR_ERC20_NEW, kind: EntryKind::Constructor, mutates: true }),
        (Entry { selector: SELECTOR_TOTAL_SUPPLY, kind: EntryKind::Message, mutates: false }),
        (Entry { selector: SELECTOR_BALANCE_OF, kind: EntryKind::Message, mutates: false }),
        (Entry { selector: SELECTOR_ALLOWANCE, kind: EntryKind::Message, mutates: false }),
        (Entry { selector: SELECTOR_TRANSFER, kind: EntryKind::Message, mutates: true }),
        (Entry { selector: SELECTOR_APPROVE, kind: EntryKind::Message, mutates: true }),
        (Entry { selector: SELECTOR_TRANSFER_FROM, kind: EntryKind::Message, mutates: true }),
    ]
}

/// Selector uniqueness for the token's descriptor: no two of its entries
/// share a selector, so dispatch is unambiguous.
pub proof fn lemma_erc20_descriptor_unique()
    ensures
        selectors_unique(erc20_descriptor_view()),
{
}

/// Builds the descriptor a host would register for the token contract.
pub fn erc20_descriptor() -> (d: Vec<Entry>)
    ensures
        d@ == erc20_descriptor_view(),
        selectors_unique(d@),
{
    let mut d: Vec<Entry> = Vec::new();
    d.push(Entry { selector: SELECTOR_ERC20_NEW, kind: EntryKind::Constructor, mutates: true });
    d.push(Entry { selector: SELECTOR_TOTAL_SUPPLY, kind: EntryKind::Message, mutates: false });
    d.push(Entry { selector: SELECTOR_BALANCE_OF, kind: EntryKind::Message, mutates: false });
    d.push(Entry { selector: SELECTOR_ALLOWANCE, kind: EntryKind::Message, mutates: false });
    d.push(Entry { selector: SELECTOR_TRANSFER, kind: EntryKind::Message, mutates: true });
    d.push(Entry { selector: SELECTOR_APPROVE, kind: EntryKind::Message, mutates: true });
    d.push(Entry { selector: SELECTOR_TRANSFER_FROM, kind: EntryKind::Message, mutates: true });
    proof {
        assert(d@ =~= erc20_descriptor_view());
    }
    d
}

/// The token error kinds.
#[derive(Clone, Copy, Debug, PartialEq, Eq, Structural)]
pub enum Error {
    /// The sender's balance cannot cover the requested amount.
    InsufficientBalance,
    /// The caller's allowance from the owner cannot cover the amount.
    InsufficientAllowance,
}

/// Event emitted when value moves between accounts. `from` is absent for
/// minting at deployment; `to` would be absent for burning.
#[derive(Clone, Copy, Debug, PartialEq, Eq)]
pub struct Transfer {
    pub from: Option<AccountId>,
    pub to: Option<AccountId>,
    pub value: Balance,
}

/// Event emitted when `owner` allows `spender` to withdraw up to `value`.
#[derive(Clone, Copy, Debug, PartialEq, Eq)]
pub struct Approval {
    pub owner: AccountId,
    pub spender: AccountId,
    pub value: Balance,
}

/// One entry of the invocation's event journal.
#[derive(Clone, Copy, Debug, PartialEq, Eq)]
pub enum EventRecord {
    Transfer(Transfer),
    Approval(Approval),
}

/// The interface contract every conforming token satisfies.
///
/// The spec functions give each implementation's observable state: its
/// supply, its balance and allowance tables (total functions, unset entries
/// reading zero), and the sum of all balances. `inv` is the implementation's
/// well-formedness; `supply_conserved` obliges every implementation to prove
/// that well-formedness forces the balances to sum to the supply.
pub trait BaseErc20: Sized {
    /// Well-formedness of the implementation's state.
    spec fn inv(&self) -> bool;

    /// The fixed total token supply.
    spec fn spec_total_supply(&self) -> Balance;

    /// The balance table, total over all principals.
    spec fn spec_balance(&self, owner: AccountId) -> Balance;

    /// The allowance table, total over all pairs of principals.
    spec fn spec_allowance(&self, owner: AccountId, spender: AccountId) -> Balance;

    /// The sum of every account's balance.
    spec fn spec_balance_sum(&self) -> int;

    /// Conservation of supply: in any well-formed state the balances sum
    /// to the total supply, whatever sequence of messages produced it.
    proof fn supply_conserved(&self)
        requires
            self.inv(),
        ensures
            self.spec_balance_sum() == self.spec_total_supply() as int,
    ;

    /// Returns the total token supply.
    fn total_supply(&self) -> (r: Balance)
        requires
            self.inv(),
        ensures
            r == self.spec_total_supply(),
    ;

    /// Returns the balance of `owner`; zero if the account is unset.
    fn balance_of(&self, owner: AccountId) -> (r: Balance)
        requires
            self.inv(),
        ensures
            r == self.spec_balance(owner),
    ;

    /// Returns what `spender` may still withdraw from `owner`; zero if unset.
    fn allowance(&self, owner: AccountId, spender: AccountId) -> (r: Balance)
        requires
            self.inv(),
        ensures
            r == self.spec_allowance(owner, spender),
    ;

    /// Moves `value` from the caller's account to `to`.
    ///
    /// Succeeds exactly when the caller's balance covers `value`; then the
    /// caller's balance falls and `to`'s rises by `value` (a self-transfer
    /// changes nothing) and one `Transfer` event is emitted. On failure
    /// nothing changes and nothing is emitted.
    fn transfer(&mut self, env: &Env, events: &mut Vec<EventRecord>, to: AccountId, value: Balance) -> (r: Result<(), Error>)
        requires
            old(self).inv(),
        ensures
            final(self).inv(),
            final(self).spec_total_supply() == old(self).spec_total_supply(),
            r is Ok <==> old(self).spec_balance(env.caller) >= value,
            r is Err ==> r == Result::<(), Error>::Err(Error::InsufficientBalance),
            r is Err ==> final(self).spec_balance_sum() == old(self).spec_balance_sum()
                && (forall|b: AccountId| final(self).spec_balance(b) == old(self).spec_balance(b))
                && final(events)@ == old(events)@,
            r is Ok ==> forall|b: AccountId| final(self).spec_balance(b) == (
                if env.caller == to {
                    old(self).spec_balance(b)
                } else if b == env.caller {
                    (old(self).spec_balance(b) - value) as Balance
                } else if b == to {
                    (old(self).spec_balance(b) + value) as Balance
                } else {
                    old(self).spec_balance(b)
                }),
            r is Ok ==> final(events)@ == old(events)@.push(
                EventRecord::Transfer((Transfer { from: Some(env.caller), to: Some(to), value }))),
            forall|x: AccountId, y: AccountId|
                final(self).spec_allowance(x, y) == old(self).spec_allowance(x, y),
    ;

    /// Lets `spender` withdraw up to `value` from the caller, overwriting
    /// any earlier allowance, and emits one `Approval` event.
    fn approve(&mut self, env: &Env, events: &mut Vec<EventRecord>, spender: AccountId, value: Balance) -> (r: Result<(), Error>)
        requires
            old(self).inv(),
        ensures
            final(self).inv(),
            final(self).spec_total_supply() == old(self).spec_total_supply(),
            r is Ok,
            forall|b: AccountId| final(self).spec_balance(b) == old(self).spec_balance(b),
            final(self).spec_balance_sum() == old(self).spec_balance_sum(),
            forall|x: AccountId, y: AccountId| final(self).spec_allowance(x, y) == (
                if x == env.caller && y == spender {
                    value
                } else {
                    old(self).spec_allowance(x, y)
                }),
            final(events)@ == old(events)@.push(
                EventRecord::Approval((Approval { owner: env.caller, spender, value }))),
    ;

    /// Moves `value` from `from` to `to` on the caller's allowance.
    ///
    /// Fails with `InsufficientAllowance` when the caller's allowance from
    /// `from` cannot cover `value`; otherwise with `InsufficientBalance`
    /// when `from`'s balance cannot. On success the balances move as in
    /// `transfer`, the spent allowance falls by exactly `value`, and one
    /// `Transfer` event is emitted. On failure nothing changes and nothing
    /// is emitted.
    fn transfer_from(&mut self, env: &Env, events: &mut Vec<EventRecord>, from: AccountId, to: AccountId, value: Balance) -> (r: Result<(), Error>)
        requires
            old(self).inv(),
        ensures
            final(self).inv(),
            final(self).spec_total_supply() == old(self).spec_total_supply(),
            r is Ok <==> (old(self).spec_allowance(from, env.caller) >= value
                && old(self).spec_balance(from) >= value),
            old(self).spec_allowance(from, env.caller) < value ==> r == Result::<(), Error>::Err(
                Error::InsufficientAllowance),
            old(self).spec_allowance(from, env.caller) >= value && old(self).spec_balance(from)
                < value ==> r == Result::<(), Error>::Err(Error::InsufficientBalance),
            r is Err ==> final(self).spec_balance_sum() == old(self).spec_balance_sum()
                && (forall|b: AccountId| final(self).spec_balance(b) == old(self).spec_balance(b))
                && (forall|x: AccountId, y: AccountId|
                    final(self).spec_allowance(x, y) == old(self).spec_allowance(x, y))
                && final(events)@ == old(events)@,
            r is Ok ==> forall|b: AccountId| final(self).spec_balance(b) == (
                if from == to {
                    old(self).spec_balance(b)
                } else if b == from {
                    (old(self).spec_balance(b) - value) as Balance
                } else if b == to {
                    (old(self).spec_balance(b) + value) as Balance
                } else {
                    old(self).spec_balance(b)
                }),
            r is Ok ==> forall|x: AccountId, y: AccountId| final(self).spec_allowance(x, y) == (
                if x == from && y == env.caller {
                    (old(self).spec_allowance(x, y) - value) as Balance
                } else {
                    old(self).spec_allowance(x, y)
                }),
            r is Ok ==> final(events)@ == old(events)@.push(
                EventRecord::Transfer((Transfer { from: Some(from), to: Some(to), value }))),
    ;
}

/// The token's persistent state: supply, balances, allowances.
pub struct Erc20 {
    total_supply: Balance,
    balances: BalanceMap,
    allowances: AllowanceMap,
}

impl Erc20 {
    /// Creates a token with `total_supply` units, all credited to the
    /// deploying caller, and emits the minting `Transfer` event.
    pub fn new(env: &Env, events: &mut Vec<EventRecord>, total_supply: Balance) -> (t: Erc20)
        ensures
            t.inv(),
            t.spec_total_supply() == total_supply,
            forall|b: AccountId| t.spec_balance(b) == (if b == env.caller {
                total_supply
            } else {
                0
            }),
            forall|x: AccountId, y: AccountId| t.spec_allowance(x, y) == 0,
            final(events)@ == old(events)@.push(
                EventRecord::Transfer((Transfer { from: None, to: Some(env.caller), value: total_supply }))),
    {
        let mut balances = BalanceMap::new();
        let caller = env.caller();
        balances.set(caller, total_supply);
        events.push(EventRecord::Transfer(Transfer {
            from: None,
            to: Some(caller),
            value: total_supply,
        }));
        Erc20 { total_supply, balances, allowances: AllowanceMap::new() }
    }

    /// The balance actually recorded for `owner` (zero when unset); the
    /// common read behind `balance_of` and the transfer paths.
    fn balance_of_impl(&self, owner: &AccountId) -> (r: Balance)
        requires
            self.inv(),
        ensures
            r == self.spec_balance(*owner),
    {
        self.balances.get(owner)
    }

    /// The allowance actually recorded for `(owner, spender)` (zero when
    /// unset); the common read behind `allowance` and `transfer_from`.
    fn allowance_impl(&self, owner: &AccountId, spender: &AccountId) -> (r: Balance)
        requires
            self.inv(),
        ensures
            r == self.spec_allowance(*owner, *spender),
    {
        self.allowances.get(owner, spender)
    }

    /// Moves `value` from `from` to `to` when `from`'s balance covers it,
    /// emitting the `Transfer` event; the shared core of `transfer` and
    /// `transfer_from`. Checked arithmetic: conservation of the supply
    /// bounds the receiving balance, so the credit cannot overflow.
    fn transfer_from_to(&mut self, events: &mut Vec<EventRecord>, from: &AccountId, to: &AccountId, value: Balance) -> (r: Result<(), Error>)
        requires
            old(self).inv(),
        ensures
            final(self).inv(),
            final(self).total_supply == old(self).total_supply,
            final(self).allowances == old(self).allowances,
            r is Ok <==> old(self).spec_balance(*from) >= value,
            r is Err ==> r == Result::<(), Error>::Err(Error::InsufficientBalance),
            r is Err ==> *final(self) == *old(self) && final(events)@ == old(events)@,
            r is Ok ==> forall|b: AccountId| final(self).spec_balance(b) == (
                if *from == *to {
                    old(self).spec_balance(b)
                } else if b == *from {
                    (old(self).spec_balance(b) - value) as Balance
                } else if b == *to {
                    (old(self).spec_balance(b) + value) as Balance
                } else {
                    old(self).spec_balance(b)
                }),
            r is Ok ==> final(events)@ == old(events)@.push(
                EventRecord::Transfer((Transfer { from: Some(*from), to: Some(*to), value }))),
    {
        let from_balance = self.balances.get(from);
        if from_balance < value {
            return Err(Error::InsufficientBalance);
        }
        self.balances.set(*from, from_balance - value);
        let to_balance = self.balances.get(to);
        proof {
            self.balances.entry_le_sum(*to);
        }
        self.balances.set(*to, to_balance + value);
        events.push(EventRecord::Transfer(Transfer {
            from: Some(*from),
            to: Some(*to),
            value,
        }));
        Ok(())
    }
}

impl BaseErc20 for Erc20 {
    /// Both tables are well-formed and the balances sum to the supply.
    closed spec fn inv(&self) -> bool {
        &&& self.balances.wf()
        &&& self.allowances.wf()
        &&& self.balances.total() == self.total_supply as int
    }

    closed spec fn spec_total_supply(&self) -> Balance {
        self.total_supply
    }

    closed spec fn spec_balance(&self, owner: AccountId) -> Balance {
        self.balances.spec_get(owner)
    }

    closed spec fn spec_allowance(&self, owner: AccountId, spender: AccountId) -> Balance {
        self.allowances.spec_get(owner, spender)
    }

    closed spec fn spec_balance_sum(&self) -> int {
        self.balances.total()
    }

    proof fn supply_conserved(&self) {
    }

    fn total_supply(&self) -> (r: Balance) {
        self.total_supply
    }

    fn balance_of(&self, owner: AccountId) -> (r: Balance) {
        self.balance_of_impl(&owner)
    }

    fn allowance(&self, owner: AccountId, spender: AccountId) -> (r: Balance) {
        self.allowance_impl(&owner, &spender)
    }

    fn transfer(&mut self, env: &Env, events: &mut Vec<EventRecord>, to: AccountId, value: Balance) -> (r: Result<(), Error>) {
        let from = env.caller();
        self.transfer_from_to(events, &from, &to, value)
    }

    fn approve(&mut self, env: &Env, events: &mut Vec<EventRecord>, spender: AccountId, value: Balance) -> (r: Result<(), Error>) {
        let owner = env.caller();
        self.allowances.set(owner, spender, value);
        events.push(EventRecord::Approval(Approval { owner, spender, value }));
        Ok(())
    }

    fn transfer_from(&mut self, env: &Env, events: &mut Vec<EventRecord>, from: AccountId, to: AccountId, value: Balance) -> (r: Result<(), Error>) {
        let caller = env.caller();
        let allowance = self.allowance_impl(&from, &caller);
        if allowance < value {
            return Err(Error::InsufficientAllowance);
        }
        match self.transfer_from_to(events, &from, &to, value) {
            Ok(()) => {
                let ghost mid = *self;
                self.allowances.set(from, caller, allowance - value);
                proof {
                    assert forall|b: AccountId| self.spec_balance(b) == (
                        if from == to {
                            old(self).spec_balance(b)
                        } else if b == from {
                            (old(self).spec_balance(b) - value) as Balance
                        } else if b == to {
                            (old(self).spec_balance(b) + value) as Balance
                        } else {
                            old(self).spec_balance(b)
                        }) by {
                        assert(self.spec_balance(b) == mid.spec_balance(b));
                    }
                }
                Ok(())
            },
            Err(e) => Err(e),
        }
    }
}

impl Default for Erc20 {
    /// An empty token: zero supply, no balances, no allowances.
    fn default() -> (t: Erc20)
        ensures
            t.inv(),
            t.spec_total_supply() == 0,
            forall|b: AccountId| t.spec_balance(b) == 0,
            forall|x: AccountId, y: AccountId| t.spec_allowance(x, y) == 0,
    {
        Erc20 { total_supply: 0, balances: BalanceMap::new(), allowances: AllowanceMap::new() }
    }
}

} // verus!
