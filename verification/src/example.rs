//! The introductory contract: one boolean storage cell, two constructors,
//! one mutating message and one read-only message. Besides the contract
//! itself, this module binds it to the runtime: a static descriptor naming
//! its entry points, and a deployed instance that dispatches wire-encoded
//! invocations against the journalled store, committing on success and
//! discarding on failure.

use vstd::prelude::*;
use crate::codec::{bool_bytes, decode_bool, encode_bool};
use crate::dispatch::{
    outcome_view, read_selector, selectors_unique, spec_selector, Entry, EntryKind, Outcome,
};
use crate::host::{Env, HostLedger};
use crate::store::Store;
use crate::types::{AccountId, Balance};

verus! {

/// Selector tag of the `new(init_value)` constructor. Tags are assigned at
/// schema-binding time; all that matters at run time is that they are
/// distinct within the descriptor.
pub const SELECTOR_NEW: u32 = 1;

/// Selector tag of the argument-free `default` constructor.
pub const SELECTOR_DEFAULT: u32 = 2;

/// Selector tag of the mutating `flip` message.
pub const SELECTOR_FLIP: u32 = 3;

/// Selector tag of the read-only `get` message.
pub const SELECTOR_GET: u32 = 4;

/// Contract state: a single `bool` value in storage.
pub struct Example {
    value: bool,
}

impl Example {
    /// The stored value.
    pub closed spec fn spec_value(&self) -> bool {
        self.value
    }

    /// A constructor the contract can be initialized with.
    pub fn new(init_value: bool) -> (e: Example)
        ensures
            e.spec_value() == init_value,
    {
        Example { value: init_value }
    }

    /// The alternative constructor: starts from the zero value of `bool`.
    pub fn default() -> (e: Example)
        ensures
            e.spec_value() == false,
    {
        Example::new(false)
    }

    /// A state-mutating message: negates the stored value.
    pub fn flip(&mut self)
        ensures
            final(self).spec_value() == !old(self).spec_value(),
    {
        self.value = !self.value;
    }

    /// A read-only message: returns the stored value.
    pub fn get(&self) -> (r: bool)
        ensures
            r == self.spec_value(),
    {
        self.value
    }
}

/// The contract's static descriptor: its entry points by selector.
pub open spec fn example_descriptor_view() -> Seq<Entry> {
    seq![
        (Entry { selector: SELECTOR_NEW, kind: EntryKind::Constructor, mutates: true }),
        (Entry { selector: SELECTOR_DEFAULT, kind: EntryKind::Constructor, mutates: true }),
        (Entry { selector: SELECTOR_FLIP, kind: EntryKind::Message, mutates: true }),
        (Entry { selector: SELECTOR_GET, kind: EntryKind::Message, mutates: false }),
    ]
}

/// Selector uniqueness for this contract's descriptor: no two of its
/// entries share a selector, so dispatch is unambiguous.
pub proof fn lemma_example_descriptor_unique()
    ensures
        selectors_unique(example_descriptor_view()),
{
}

/// Builds the descriptor a host would register for this contract.
pub fn example_descriptor() -> (d: Vec<Entry>)
    ensures
        d@ == example_descriptor_view(),
        selectors_unique(d@),
{
    let mut d: Vec<Entry> = Vec::new();
    d.push(Entry { selector: SELECTOR_NEW, kind: EntryKind::Constructor, mutates: true });
    d.push(Entry { selector: SELECTOR_DEFAULT, kind: EntryKind::Constructor, mutates: true });
    d.push(Entry { selector: SELECTOR_FLIP, kind: EntryKind::Message, mutates: true });
    d.push(Entry { selector: SELECTOR_GET, kind: EntryKind::Message, mutates: false });
    proof {
        assert(d@ =~= example_descriptor_view());
    }
    d
}

/// The static storage key of the contract's one boolean cell.
pub open spec fn value_key_view() -> Seq<u8> {
    seq![1u8, 0u8, 0u8, 0u8]
}

/// Builds the storage key of the boolean cell.
pub fn value_key() -> (k: Vec<u8>)
    ensures
        k@ == value_key_view(),
{
    let k = vec![1u8, 0u8, 0u8, 0u8];
    proof {
        assert(k@ =~= value_key_view());
    }
    k
}

/// The full effect of running `deploy` on an instance: the outcome's
/// fingerprint, the initialized flag afterwards, and the committed bytes of
/// the value cell afterwards — a function of the instance's observable
/// pre-state and the input buffer alone.
pub open spec fn spec_example_deploy(init: bool, stored: Option<Seq<u8>>, input: Seq<u8>) -> (
    (int, Seq<u8>),
    bool,
    Option<Seq<u8>>,
) {
    if init {
        ((3int, Seq::empty()), true, stored)
    } else if input.len() < 4 {
        ((2int, Seq::empty()), false, stored)
    } else {
        let sel = spec_selector(input);
        if sel == SELECTOR_NEW as nat {
            if input.len() == 5 && (input[4] == 0u8 || input[4] == 1u8) {
                ((0int, Seq::empty()), true, Some(bool_bytes(input[4] == 1u8)))
            } else {
                ((3int, Seq::empty()), false, stored)
            }
        } else if sel == SELECTOR_DEFAULT as nat {
            if input.len() == 4 {
                ((0int, Seq::empty()), true, Some(bool_bytes(false)))
            } else {
                ((3int, Seq::empty()), false, stored)
            }
        } else {
            ((2int, Seq::empty()), false, stored)
        }
    }
}

/// The full effect of running `call` on an initialized instance: the
/// outcome's fingerprint and the committed bytes of the value cell
/// afterwards — again a function of pre-state and input alone.
pub open spec fn spec_example_call(stored: Option<Seq<u8>>, input: Seq<u8>) -> (
    (int, Seq<u8>),
    Option<Seq<u8>>,
) {
    if input.len() < 4 {
        ((2int, Seq::empty()), stored)
    } else {
        let sel = spec_selector(input);
        if sel == SELECTOR_FLIP as nat {
            if input.len() != 4 {
                ((3int, Seq::empty()), stored)
            } else if stored == Some(bool_bytes(false)) {
                ((0int, Seq::empty()), Some(bool_bytes(true)))
            } else if stored == Some(bool_bytes(true)) {
                ((0int, Seq::empty()), Some(bool_bytes(false)))
            } else {
                ((3int, Seq::empty()), stored)
            }
        } else if sel == SELECTOR_GET as nat {
            if input.len() != 4 {
                ((3int, Seq::empty()), stored)
            } else if stored == Some(bool_bytes(false)) {
                ((0int, bool_bytes(false)), stored)
            } else if stored == Some(bool_bytes(true)) {
                ((0int, bool_bytes(true)), stored)
            } else {
                ((3int, Seq::empty()), stored)
            }
        } else {
            ((2int, Seq::empty()), stored)
        }
    }
}

/// Determinism of the runtime on this contract: the contracts of `deploy`
/// and `call` equate their whole observable effect with these functions of
/// (pre-state, input) alone, so two executions from identical pre-states,
/// inputs and environments end identically.
pub proof fn lemma_example_deterministic(
    i1: bool,
    i2: bool,
    s1: Option<Seq<u8>>,
    s2: Option<Seq<u8>>,
    in1: Seq<u8>,
    in2: Seq<u8>,
)
    requires
        i1 == i2,
        s1 == s2,
        in1 == in2,
    ensures
        spec_example_deploy(i1, s1, in1) == spec_example_deploy(i2, s2, in2),
        spec_example_call(s1, in1) == spec_example_call(s2, in2),
{
}

/// A deployed instance of the contract: its address, its persistent store,
/// and whether a constructor has run.
pub struct ExampleInstance {
    account: AccountId,
    store: Store,
    initialized: bool,
}

impl ExampleInstance {
    /// The address of this deployment.
    pub closed spec fn spec_account(&self) -> AccountId {
        self.account
    }

    /// The address of this deployment.
    pub fn account(&self) -> (r: AccountId)
        ensures
            r == self.spec_account(),
    {
        self.account
    }

    /// The store's committed keys are unique.
    pub closed spec fn wf(&self) -> bool {
        self.store.wf()
    }

    /// No invocation is in flight: the journal is empty.
    pub closed spec fn idle(&self) -> bool {
        self.store.journal_empty()
    }

    /// Whether a constructor has already run.
    pub closed spec fn spec_initialized(&self) -> bool {
        self.initialized
    }

    /// The committed bytes under storage key `k`.
    pub closed spec fn committed_at(&self, k: Seq<u8>) -> Option<Seq<u8>> {
        self.store.committed_get(k)
    }

    /// A fresh, uninitialized instance at address `account` with an empty
    /// storage root.
    pub fn instantiate(account: AccountId) -> (inst: ExampleInstance)
        ensures
            inst.wf(),
            inst.idle(),
            !inst.spec_initialized(),
            inst.spec_account() == account,
            forall|q: Seq<u8>| inst.committed_at(q) is None,
    {
        ExampleInstance { account, store: Store::new(), initialized: false }
    }

    /// Loads and strictly decodes the contract state from the value cell;
    /// `None` means the cell is unset or corrupt, which traps the
    /// invocation.
    fn read_state(&self) -> (r: Option<Example>)
        requires
            self.wf(),
        ensures
            match r {
                Some(e) => self.store.visible_get(value_key_view()) == Some(
                    bool_bytes(e.spec_value()),
                ),
                None => self.store.visible_get(value_key_view()) != Some(bool_bytes(false))
                    && self.store.visible_get(value_key_view()) != Some(bool_bytes(true)),
            },
    {
        let key = value_key();
        match self.store.get(&key) {
            None => None,
            Some(bytes) => {
                if bytes.len() != 1 {
                    return None;
                }
                match decode_bool(bytes, 0) {
                    Some(b) => {
                        proof {
                            assert(bytes@ =~= bool_bytes(b));
                        }
                        Some(Example::new(b))
                    },
                    None => {
                        proof {
                            assert(bytes@ != bool_bytes(false));
                            assert(bytes@ != bool_bytes(true));
                        }
                        None
                    },
                }
            },
        }
    }

    /// Encodes the contract state into the value cell and commits the
    /// journal: the write becomes the committed value in one atomic step.
    fn write_state(&mut self, state: &Example)
        requires
            old(self).wf(),
            old(self).idle(),
        ensures
            final(self).wf(),
            final(self).idle(),
            final(self).initialized == old(self).initialized,
            final(self).account == old(self).account,
            final(self).committed_at(value_key_view()) == Some(bool_bytes(state.spec_value())),
            forall|q: Seq<u8>|
                q != value_key_view() ==> final(self).committed_at(q) == old(self).committed_at(q),
    {
        proof {
            self.store.lemma_idle_visible();
        }
        let key = value_key();
        let mut buf: Vec<u8> = Vec::new();
        encode_bool(state.get(), &mut buf);
        proof {
            assert(buf@ =~= bool_bytes(state.spec_value()));
        }
        self.store.insert(key, buf);
        self.store.commit();
    }

    /// The `deploy` entry point: runs the constructor the input buffer
    /// selects. Refused (a trap) on an already-initialized instance; on
    /// success the initial state is committed atomically.
    pub fn deploy(&mut self, _env: &Env, input: &Vec<u8>) -> (r: Outcome)
        requires
            old(self).wf(),
            old(self).idle(),
        ensures
            final(self).wf(),
            final(self).idle(),
            final(self).spec_account() == old(self).spec_account(),
            (outcome_view(r), final(self).spec_initialized(), final(self).committed_at(
                value_key_view(),
            )) == spec_example_deploy(
                old(self).spec_initialized(),
                old(self).committed_at(value_key_view()),
                input@,
            ),
            forall|q: Seq<u8>|
                q != value_key_view() ==> final(self).committed_at(q) == old(self).committed_at(q),
    {
        if self.initialized {
            return Outcome::Trapped;
        }
        if input.len() < 4 {
            return Outcome::NoMatchingEntry;
        }
        let sel = read_selector(input);
        if sel == SELECTOR_NEW {
            if input.len() != 5 {
                return Outcome::Trapped;
            }
            match decode_bool(input, 4) {
                Some(b) => {
                    let state = Example::new(b);
                    self.write_state(&state);
                    self.initialized = true;
                    Outcome::Success(Vec::new())
                },
                None => Outcome::Trapped,
            }
        } else if sel == SELECTOR_DEFAULT {
            if input.len() != 4 {
                return Outcome::Trapped;
            }
            let state = Example::default();
            self.write_state(&state);
            self.initialized = true;
            Outcome::Success(Vec::new())
        } else {
            Outcome::NoMatchingEntry
        }
    }

    /// The `call` entry point: runs the message the input buffer selects.
    /// Traps on an uninitialized instance and on a corrupt value cell; a
    /// mutating message commits its journal on success, and every failing
    /// path leaves the committed state exactly as it was.
    pub fn call(&mut self, _env: &Env, input: &Vec<u8>) -> (r: Outcome)
        requires
            old(self).wf(),
            old(self).idle(),
        ensures
            final(self).wf(),
            final(self).idle(),
            final(self).spec_account() == old(self).spec_account(),
            final(self).spec_initialized() == old(self).spec_initialized(),
            !old(self).spec_initialized() ==> r == Outcome::Trapped && (forall|q: Seq<u8>|
                final(self).committed_at(q) == old(self).committed_at(q)),
            old(self).spec_initialized() ==> (outcome_view(r), final(self).committed_at(
                value_key_view(),
            )) == spec_example_call(old(self).committed_at(value_key_view()), input@),
            forall|q: Seq<u8>|
                q != value_key_view() ==> final(self).committed_at(q) == old(self).committed_at(q),
    {
        proof {
            self.store.lemma_idle_visible();
        }
        if !self.initialized {
            return Outcome::Trapped;
        }
        if input.len() < 4 {
            return Outcome::NoMatchingEntry;
        }
        let sel = read_selector(input);
        if sel == SELECTOR_FLIP {
            if input.len() != 4 {
                return Outcome::Trapped;
            }
            match self.read_state() {
                Some(state) => {
                    let mut state = state;
                    state.flip();
                    self.write_state(&state);
                    Outcome::Success(Vec::new())
                },
                None => Outcome::Trapped,
            }
        } else if sel == SELECTOR_GET {
            if input.len() != 4 {
                return Outcome::Trapped;
            }
            match self.read_state() {
                Some(state) => {
                    let mut out: Vec<u8> = Vec::new();
                    encode_bool(state.get(), &mut out);
                    proof {
                        assert(out@ =~= bool_bytes(state.spec_value()));
                    }
                    Outcome::Success(out)
                },
                None => Outcome::Trapped,
            }
        } else {
            Outcome::NoMatchingEntry
        }
    }

    /// Destroys this instance: its residual balance moves to `beneficiary`
    /// and its storage root is dropped with it. The instance value is
    /// consumed, so it can never be invoked again.
    pub fn terminate(self, ledger: &mut HostLedger, beneficiary: &AccountId)
        requires
            old(ledger).wf(),
        ensures
            final(ledger).wf(),
            final(ledger).total() == old(ledger).total(),
            forall|b: AccountId| final(ledger).spec_balance(b) == (
                if self.spec_account() == *beneficiary {
                    old(ledger).spec_balance(b)
                } else if b == self.spec_account() {
                    0
                } else if b == *beneficiary {
                    (old(ledger).spec_balance(b) + old(ledger).spec_balance(
                        self.spec_account(),
                    )) as Balance
                } else {
                    old(ledger).spec_balance(b)
                }),
    {
        let residue = ledger.balance(&self.account);
        match ledger.transfer(&self.account, beneficiary, residue) {
            Ok(()) => (),
            Err(_) => (),
        }
    }
}

} // verus!
