//! The token contract bound to the runtime: a deployed instance that takes
//! wire-encoded invocations, decodes the selector and the positional
//! arguments, runs the verified messages, and encodes the reply — the
//! return value on success, the domain error in the revert payload on
//! failure. Wire events are flushed only when the invocation succeeds; a
//! failed invocation changes nothing and emits nothing.

use vstd::prelude::*;
use crate::codec::{
    account_at, balance_bytes, decode_account, decode_balance, encode_balance, le_value,
    lemma_le_value_bound, lemma_pow256_16,
};
use crate::dispatch::{outcome_view, read_selector, spec_selector, Outcome};
use crate::erc20::{
    BaseErc20, Erc20, Error, EventRecord, Transfer, SELECTOR_ALLOWANCE, SELECTOR_APPROVE,
    SELECTOR_BALANCE_OF, SELECTOR_ERC20_NEW, SELECTOR_TOTAL_SUPPLY, SELECTOR_TRANSFER,
    SELECTOR_TRANSFER_FROM,
};
use crate::event::{journal_to_wire, record_topics, topics_view, Event};
use crate::host::Env;
use crate::types::{AccountId, Balance};

verus! {

/// Canonical form of a token error: its one-byte variant tag.
pub open spec fn error_bytes(e: Error) -> Seq<u8> {
    match e {
        Error::InsufficientBalance => seq![0u8],
        Error::InsufficientAllowance => seq![1u8],
    }
}

/// Encodes a token error into a revert payload.
pub fn encode_error(e: Error) -> (r: Vec<u8>)
    ensures
        r@ == error_bytes(e),
{
    let r = match e {
        Error::InsufficientBalance => vec![0u8],
        Error::InsufficientAllowance => vec![1u8],
    };
    proof {
        assert(r@ =~= error_bytes(e));
    }
    r
}

/// The invocation succeeded with exactly this reply payload.
pub open spec fn success_with(o: Outcome, payload: Seq<u8>) -> bool {
    outcome_view(o) == (0int, payload)
}

/// The invocation reverted with exactly this error payload.
pub open spec fn reverted_with(o: Outcome, payload: Seq<u8>) -> bool {
    outcome_view(o) == (1int, payload)
}

/// Exactly one wire event was flushed, carrying this record's topics.
pub open spec fn single_event(evs: Seq<Event>, rec: EventRecord) -> bool {
    &&& evs.len() == 1
    &&& topics_view(evs[0]) == record_topics(rec)
    &&& evs[0].data@ == Seq::<u8>::empty()
}

/// Conservation of supply at the instance level: whatever sequence of wire
/// invocations produced a well-formed instance, its balances sum to its
/// total supply, since `deploy` and `call` keep the instance well-formed.
pub proof fn lemma_instance_supply_conserved(inst: Erc20Instance)
    requires
        inst.wf(),
    ensures
        inst.spec_token().spec_balance_sum() == inst.spec_token().spec_total_supply() as int,
{
    inst.spec_token().supply_conserved();
}

/// A deployed instance of the token contract.
pub struct Erc20Instance {
    account: AccountId,
    token: Erc20,
    initialized: bool,
}

impl Erc20Instance {
    /// The address of this deployment.
    pub closed spec fn spec_account(&self) -> AccountId {
        self.account
    }

    /// The token state this instance holds.
    pub closed spec fn spec_token(&self) -> Erc20 {
        self.token
    }

    /// Whether the constructor has run.
    pub closed spec fn spec_initialized(&self) -> bool {
        self.initialized
    }

    /// The held token state is well-formed.
    pub closed spec fn wf(&self) -> bool {
        self.token.inv()
    }

    /// A fresh, uninitialized instance at address `account`.
    pub fn instantiate(account: AccountId) -> (inst: Erc20Instance)
        ensures
            inst.wf(),
            !inst.spec_initialized(),
            inst.spec_account() == account,
    {
        Erc20Instance { account, token: Erc20::default(), initialized: false }
    }

    /// The `deploy` entry point: runs the `new(total_supply)` constructor.
    /// Refused (a trap) once initialized; on success the caller holds the
    /// whole supply and the minting `Transfer` event is flushed.
    pub fn deploy(&mut self, env: &Env, input: &Vec<u8>) -> (r: (Outcome, Vec<Event>))
        requires
            old(self).wf(),
        ensures
            final(self).wf(),
            final(self).spec_account() == old(self).spec_account(),
            !(r.0 is Success) ==> r.1@.len() == 0 && final(self).spec_token() == old(
                self,
            ).spec_token() && final(self).spec_initialized() == old(self).spec_initialized(),
            old(self).spec_initialized() ==> outcome_view(r.0) == (3int, Seq::<u8>::empty()),
            !old(self).spec_initialized() && (input@.len() < 4 || spec_selector(input@)
                != SELECTOR_ERC20_NEW as nat) ==> outcome_view(r.0) == (2int, Seq::<u8>::empty()),
            !old(self).spec_initialized() && input@.len() >= 4 && spec_selector(input@)
                == SELECTOR_ERC20_NEW as nat && input@.len() != 20 ==> outcome_view(r.0) == (
                3int,
                Seq::<u8>::empty(),
            ),
            ({
                let supply = le_value(input@.subrange(4, 20)) as Balance;
                !old(self).spec_initialized() && input@.len() == 20 && spec_selector(input@)
                    == SELECTOR_ERC20_NEW as nat ==> {
                    &&& success_with(r.0, Seq::<u8>::empty())
                    &&& final(self).spec_initialized()
                    &&& final(self).spec_token().spec_total_supply() == supply
                    &&& forall|b: AccountId|
                        final(self).spec_token().spec_balance(b) == (if b == env.caller {
                            supply
                        } else {
                            0
                        })
                    &&& forall|x: AccountId, y: AccountId|
                        final(self).spec_token().spec_allowance(x, y) == 0
                    &&& single_event(
                        r.1@,
                        EventRecord::Transfer(
                            (Transfer { from: None, to: Some(env.caller), value: supply }),
                        ),
                    )
                }
            }),
    {
        if self.initialized {
            return (Outcome::Trapped, Vec::new());
        }
        if input.len() < 4 {
            return (Outcome::NoMatchingEntry, Vec::new());
        }
        let sel = read_selector(input);
        if sel == SELECTOR_ERC20_NEW {
            if input.len() != 20 {
                return (Outcome::Trapped, Vec::new());
            }
            let supply = decode_balance(input, 4);
            proof {
                lemma_le_value_bound(input@.subrange(4, 20));
                lemma_pow256_16();
            }
            let mut journal: Vec<EventRecord> = Vec::new();
            self.token = Erc20::new(env, &mut journal, supply);
            self.initialized = true;
            (Outcome::Success(Vec::new()), journal_to_wire(&journal))
        } else {
            (Outcome::NoMatchingEntry, Vec::new())
        }
    }

    /// The `call` entry point: runs the message the input buffer selects.
    ///
    /// Read-only messages return the queried value, canonically encoded,
    /// and touch nothing. A mutating message that succeeds flushes exactly
    /// its one event; one that fails reverts with the encoded domain error.
    /// Traps on an uninitialized instance and on malformed argument tuples;
    /// every non-success path leaves all state unchanged and emits nothing.
    pub fn call(&mut self, env: &Env, input: &Vec<u8>) -> (r: (Outcome, Vec<Event>))
        requires
            old(self).wf(),
        ensures
            final(self).wf(),
            final(self).spec_account() == old(self).spec_account(),
            final(self).spec_initialized() == old(self).spec_initialized(),
            final(self).spec_token().spec_total_supply() == old(
                self,
            ).spec_token().spec_total_supply(),
            !(r.0 is Success) ==> r.1@.len() == 0 && (forall|b: AccountId|
                final(self).spec_token().spec_balance(b) == old(self).spec_token().spec_balance(b))
                && (forall|x: AccountId, y: AccountId|
                final(self).spec_token().spec_allowance(x, y) == old(
                    self,
                ).spec_token().spec_allowance(x, y)),
            !old(self).spec_initialized() ==> outcome_view(r.0) == (3int, Seq::<u8>::empty()),
            old(self).spec_initialized() && input@.len() < 4 ==> outcome_view(r.0) == (
                2int,
                Seq::<u8>::empty(),
            ),
            old(self).spec_initialized() && input@.len() >= 4 && spec_selector(input@)
                == SELECTOR_TOTAL_SUPPLY as nat ==> (input@.len() == 4 ==> success_with(
                r.0,
                balance_bytes(old(self).spec_token().spec_total_supply()),
            ) && final(self).spec_token() == old(self).spec_token() && r.1@.len() == 0) && (
            input@.len() != 4 ==> outcome_view(r.0) == (3int, Seq::<u8>::empty())),
            old(self).spec_initialized() && input@.len() >= 4 && spec_selector(input@)
                == SELECTOR_BALANCE_OF as nat ==> (input@.len() == 36 ==> success_with(
                r.0,
                balance_bytes(old(self).spec_token().spec_balance(account_at(input@, 4))),
            ) && final(self).spec_token() == old(self).spec_token() && r.1@.len() == 0) && (
            input@.len() != 36 ==> outcome_view(r.0) == (3int, Seq::<u8>::empty())),
            old(self).spec_initialized() && input@.len() >= 4 && spec_selector(input@)
                == SELECTOR_ALLOWANCE as nat ==> (input@.len() == 68 ==> success_with(
                r.0,
                balance_bytes(
                    old(self).spec_token().spec_allowance(
                        account_at(input@, 4),
                        account_at(input@, 36),
                    ),
                ),
            ) && final(self).spec_token() == old(self).spec_token() && r.1@.len() == 0) && (
            input@.len() != 68 ==> outcome_view(r.0) == (3int, Seq::<u8>::empty())),
            ({
                let to = account_at(input@, 4);
                let value = le_value(input@.subrange(36, 52)) as Balance;
                old(self).spec_initialized() && input@.len() >= 4 && spec_selector(input@)
                    == SELECTOR_TRANSFER as nat ==> (input@.len() == 52 ==> {
                    &&& old(self).spec_token().spec_balance(env.caller) >= value ==> {
                        &&& success_with(r.0, Seq::<u8>::empty())
                        &&& forall|b: AccountId|
                            final(self).spec_token().spec_balance(b) == (if env.caller == to {
                                old(self).spec_token().spec_balance(b)
                            } else if b == env.caller {
                                (old(self).spec_token().spec_balance(b) - value) as Balance
                            } else if b == to {
                                (old(self).spec_token().spec_balance(b) + value) as Balance
                            } else {
                                old(self).spec_token().spec_balance(b)
                            })
                        &&& single_event(
                            r.1@,
                            EventRecord::Transfer(
                                (Transfer { from: Some(env.caller), to: Some(to), value }),
                            ),
                        )
                    }
                    &&& old(self).spec_token().spec_balance(env.caller) < value ==> reverted_with(
                        r.0,
                        error_bytes(Error::InsufficientBalance),
                    )
                }) && (input@.len() != 52 ==> outcome_view(r.0) == (3int, Seq::<u8>::empty()))
            }),
            ({
                let spender = account_at(input@, 4);
                let value = le_value(input@.subrange(36, 52)) as Balance;
                old(self).spec_initialized() && input@.len() >= 4 && spec_selector(input@)
                    == SELECTOR_APPROVE as nat ==> (input@.len() == 52 ==> {
                    &&& success_with(r.0, Seq::<u8>::empty())
                    &&& forall|x: AccountId, y: AccountId|
                        final(self).spec_token().spec_allowance(x, y) == (if x == env.caller && y
                            == spender {
                            value
                        } else {
                            old(self).spec_token().spec_allowance(x, y)
                        })
                    &&& forall|b: AccountId|
                        final(self).spec_token().spec_balance(b) == old(
                            self,
                        ).spec_token().spec_balance(b)
                    &&& single_event(
                        r.1@,
                        EventRecord::Approval(
                            (crate::erc20::Approval { owner: env.caller, spender, value }),
                        ),
                    )
                }) && (input@.len() != 52 ==> outcome_view(r.0) == (3int, Seq::<u8>::empty()))
            }),
            ({
                let from = account_at(input@, 4);
                let to = account_at(input@, 36);
                let value = le_value(input@.subrange(68, 84)) as Balance;
                old(self).spec_initialized() && input@.len() >= 4 && spec_selector(input@)
                    == SELECTOR_TRANSFER_FROM as nat ==> (input@.len() == 84 ==> {
                    &&& old(self).spec_token().spec_allowance(from, env.caller) < value
                        ==> reverted_with(r.0, error_bytes(Error::InsufficientAllowance))
                    &&& old(self).spec_token().spec_allowance(from, env.caller) >= value && old(
                        self,
                    ).spec_token().spec_balance(from) < value ==> reverted_with(
                        r.0,
                        error_bytes(Error::InsufficientBalance),
                    )
                    &&& old(self).spec_token().spec_allowance(from, env.caller) >= value && old(
                        self,
                    ).spec_token().spec_balance(from) >= value ==> {
                        &&& success_with(r.0, Seq::<u8>::empty())
                        &&& forall|b: AccountId|
                            final(self).spec_token().spec_balance(b) == (if from == to {
                                old(self).spec_token().spec_balance(b)
                            } else if b == from {
                                (old(self).spec_token().spec_balance(b) - value) as Balance
                            } else if b == to {
                                (old(self).spec_token().spec_balance(b) + value) as Balance
                            } else {
                                old(self).spec_token().spec_balance(b)
                            })
                        &&& forall|x: AccountId, y: AccountId|
                            final(self).spec_token().spec_allowance(x, y) == (if x == from && y
                                == env.caller {
                                (old(self).spec_token().spec_allowance(x, y) - value) as Balance
                            } else {
                                old(self).spec_token().spec_allowance(x, y)
                            })
                        &&& single_event(
                            r.1@,
                            EventRecord::Transfer(
                                (Transfer { from: Some(from), to: Some(to), value }),
                            ),
                        )
                    }
                }) && (input@.len() != 84 ==> outcome_view(r.0) == (3int, Seq::<u8>::empty()))
            }),
            old(self).spec_initialized() && input@.len() >= 4 && spec_selector(input@)
                != SELECTOR_TOTAL_SUPPLY as nat && spec_selector(input@) != SELECTOR_BALANCE_OF as nat
                && spec_selector(input@) != SELECTOR_ALLOWANCE as nat && spec_selector(input@)
                != SELECTOR_TRANSFER as nat && spec_selector(input@) != SELECTOR_APPROVE as nat
                && spec_selector(input@) != SELECTOR_TRANSFER_FROM as nat ==> outcome_view(r.0) == (
                2int,
                Seq::<u8>::empty(),
            ),
    {
        if !self.initialized {
            return (Outcome::Trapped, Vec::new());
        }
        if input.len() < 4 {
            return (Outcome::NoMatchingEntry, Vec::new());
        }
        let sel = read_selector(input);
        if sel == SELECTOR_TOTAL_SUPPLY {
            if input.len() != 4 {
                return (Outcome::Trapped, Vec::new());
            }
            let mut out: Vec<u8> = Vec::new();
            encode_balance(self.token.total_supply(), &mut out);
            proof {
                assert(out@ =~= balance_bytes(self.token.spec_total_supply()));
            }
            (Outcome::Success(out), Vec::new())
        } else if sel == SELECTOR_BALANCE_OF {
            if input.len() != 36 {
                return (Outcome::Trapped, Vec::new());
            }
            let owner = decode_account(input, 4);
            let mut out: Vec<u8> = Vec::new();
            encode_balance(self.token.balance_of(owner), &mut out);
            proof {
                assert(out@ =~= balance_bytes(self.token.spec_balance(account_at(input@, 4))));
            }
            (Outcome::Success(out), Vec::new())
        } else if sel == SELECTOR_ALLOWANCE {
            if input.len() != 68 {
                return (Outcome::Trapped, Vec::new());
            }
            let owner = decode_account(input, 4);
            let spender = decode_account(input, 36);
            let mut out: Vec<u8> = Vec::new();
            encode_balance(self.token.allowance(owner, spender), &mut out);
            proof {
                assert(out@ =~= balance_bytes(
                    self.token.spec_allowance(account_at(input@, 4), account_at(input@, 36)),
                ));
            }
            (Outcome::Success(out), Vec::new())
        } else if sel == SELECTOR_TRANSFER {
            if input.len() != 52 {
                return (Outcome::Trapped, Vec::new());
            }
            let to = decode_account(input, 4);
            let value = decode_balance(input, 36);
            proof {
                lemma_le_value_bound(input@.subrange(36, 52));
                lemma_pow256_16();
            }
            let mut journal: Vec<EventRecord> = Vec::new();
            match self.token.transfer(env, &mut journal, to, value) {
                Ok(()) => (Outcome::Success(Vec::new()), journal_to_wire(&journal)),
                Err(e) => (Outcome::Reverted(encode_error(e)), Vec::new()),
            }
        } else if sel == SELECTOR_APPROVE {
            if input.len() != 52 {
                return (Outcome::Trapped, Vec::new());
            }
            let spender = decode_account(input, 4);
            let value = decode_balance(input, 36);
            proof {
                lemma_le_value_bound(input@.subrange(36, 52));
                lemma_pow256_16();
            }
            let mut journal: Vec<EventRecord> = Vec::new();
            match self.token.approve(env, &mut journal, spender, value) {
                Ok(()) => (Outcome::Success(Vec::new()), journal_to_wire(&journal)),
                Err(e) => (Outcome::Reverted(encode_error(e)), Vec::new()),
            }
        } else if sel == SELECTOR_TRANSFER_FROM {
            if input.len() != 84 {
                return (Outcome::Trapped, Vec::new());
            }
            let from = decode_account(input, 4);
            let to = decode_account(input, 36);
            let value = decode_balance(input, 68);
            proof {
                lemma_le_value_bound(input@.subrange(68, 84));
                lemma_pow256_16();
            }
            let mut journal: Vec<EventRecord> = Vec::new();
            match self.token.transfer_from(env, &mut journal, from, to, value) {
                Ok(()) => (Outcome::Success(Vec::new()), journal_to_wire(&journal)),
                Err(e) => (Outcome::Reverted(encode_error(e)), Vec::new()),
            }
        } else {
            (Outcome::NoMatchingEntry, Vec::new())
        }
    }
}

} // verus!
