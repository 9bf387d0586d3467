//! The dispatch layer: a contract names its entry points in a static
//! descriptor — selector, entry kind, mutability — and an invocation's
//! input buffer starts with the four-byte selector of the entry to run,
//! followed by the canonically encoded argument tuple. Selectors within one
//! descriptor must be unique; the lookup here is what a host uses to route
//! an input buffer to exactly one entry.

use vstd::prelude::*;
use crate::codec::{decode_le, le_value};

verus! {

/// What kind of entry a selector names.
#[derive(Clone, Copy, Debug, PartialEq, Eq, Structural)]
pub enum EntryKind {
    /// Runs once, on an uninitialized instance, and produces the initial state.
    Constructor,
    /// Runs on an initialized instance.
    Message,
}

/// One row of a contract's static descriptor.
#[derive(Clone, Copy, Debug, PartialEq, Eq, Structural)]
pub struct Entry {
    /// The four-byte tag identifying this entry point.
    pub selector: u32,
    /// Constructor or message.
    pub kind: EntryKind,
    /// Whether the entry may write to storage; a read-only entry never does.
    pub mutates: bool,
}

/// How one invocation ended, as surfaced to the host.
#[derive(Debug, PartialEq, Eq)]
pub enum Outcome {
    /// The entry returned successfully: the journal was committed and the
    /// buffer holds the canonically encoded return value.
    Success(Vec<u8>),
    /// The entry returned a domain error: the journal was discarded and the
    /// buffer holds the canonically encoded error value.
    Reverted(Vec<u8>),
    /// The input named no entry of this contract.
    NoMatchingEntry,
    /// An uncatchable fault: malformed input for a known entry, a
    /// constructor re-run, or storage corruption. The journal was discarded
    /// and no payload is returned.
    Trapped,
}

/// A spec-level fingerprint of an outcome: its kind as a small number and
/// its payload bytes. Two outcomes are equal exactly when their
/// fingerprints are.
pub open spec fn outcome_view(o: Outcome) -> (int, Seq<u8>) {
    match o {
        Outcome::Success(v) => (0int, v@),
        Outcome::Reverted(v) => (1int, v@),
        Outcome::NoMatchingEntry => (2int, Seq::empty()),
        Outcome::Trapped => (3int, Seq::empty()),
    }
}

/// No two entries of a descriptor share a selector.
pub open spec fn selectors_unique(s: Seq<Entry>) -> bool {
    forall|i: int, j: int|
        #![trigger s[i].selector, s[j].selector]
        0 <= i < j < s.len() ==> s[i].selector != s[j].selector
}

/// Decides selector uniqueness for a descriptor; a build-time check, since
/// duplicate selectors make dispatch ambiguous.
pub fn check_selectors_unique(d: &Vec<Entry>) -> (r: bool)
    ensures
        r == selectors_unique(d@),
{
    let n = d.len();
    let mut i: usize = 0;
    while i < n
        invariant
            n == d@.len(),
            i <= n,
            forall|x: int, y: int|
                #![trigger d@[x].selector, d@[y].selector]
                0 <= x < y < d@.len() && x < i ==> d@[x].selector != d@[y].selector,
        decreases n - i,
    {
        let mut j: usize = i + 1;
        while j < n
            invariant
                n == d@.len(),
                i < j || j == i + 1,
                i < n,
                j <= n,
                forall|y: int| i < y < j ==> d@[i as int].selector != (#[trigger] d@[y].selector),
            decreases n - j,
        {
            if d[i].selector == d[j].selector {
                return false;
            }
            j += 1;
        }
        i += 1;
    }
    true
}

/// Finds the entry a selector names, if the descriptor has one.
pub fn find_entry(d: &Vec<Entry>, selector: u32) -> (r: Option<usize>)
    ensures
        match r {
            Some(i) => i < d@.len() && d@[i as int].selector == selector,
            None => forall|i: int| 0 <= i < d@.len() ==> (#[trigger] d@[i]).selector != selector,
        },
{
    let n = d.len();
    let mut i: usize = 0;
    while i < n
        invariant
            n == d@.len(),
            i <= n,
            forall|j: int| 0 <= j < i ==> (#[trigger] d@[j]).selector != selector,
        decreases n - i,
    {
        if d[i].selector == selector {
            return Some(i);
        }
        i += 1;
    }
    None
}

/// The stages of one invocation, from receiving the input buffer to
/// committing or reverting the journal.
#[derive(Clone, Copy, Debug, PartialEq, Eq, Structural)]
pub enum Phase {
    /// No invocation in flight.
    Idle,
    /// Input buffer received; the selector is being resolved.
    Dispatching,
    /// The selected entry is running.
    Executing,
    /// The entry returned successfully; the journal is being applied.
    Committing,
    /// The entry failed or trapped; the journal is being discarded.
    Reverting,
    /// The invocation has ended.
    Done,
}

/// The transitions an invocation may take between stages.
pub open spec fn phase_step(p: Phase, q: Phase) -> bool {
    ||| (p == Phase::Idle && q == Phase::Dispatching)
    ||| (p == Phase::Dispatching && q == Phase::Executing)
    ||| (p == Phase::Executing && q == Phase::Committing)
    ||| (p == Phase::Executing && q == Phase::Reverting)
    ||| (p == Phase::Committing && q == Phase::Done)
    ||| (p == Phase::Reverting && q == Phase::Done)
}

/// A lawful invocation history: starts idle and only ever takes allowed
/// steps.
pub open spec fn valid_trace(t: Seq<Phase>) -> bool {
    &&& t.len() > 0 ==> t[0] == Phase::Idle
    &&& forall|i: int| 0 <= i < t.len() - 1 ==> phase_step(t[i], #[trigger] t[i + 1])
}

/// The two ways an invocation can run to completion — through a commit or
/// through a revert — are both lawful histories.
pub proof fn lemma_invocation_traces()
    ensures
        valid_trace(
            seq![Phase::Idle, Phase::Dispatching, Phase::Executing, Phase::Committing, Phase::Done],
        ),
        valid_trace(
            seq![Phase::Idle, Phase::Dispatching, Phase::Executing, Phase::Reverting, Phase::Done],
        ),
{
}

/// Once an entry is executing, the only ways forward are committing or
/// reverting: there is no third ending.
pub proof fn lemma_executing_commits_or_reverts(q: Phase)
    requires
        phase_step(Phase::Executing, q),
    ensures
        q == Phase::Committing || q == Phase::Reverting,
{
}

/// The selector named by an input buffer: its first four bytes,
/// little-endian.
pub open spec fn spec_selector(input: Seq<u8>) -> nat {
    le_value(input.subrange(0, 4))
}

/// Reads the four-byte selector off the front of an input buffer.
pub fn read_selector(input: &Vec<u8>) -> (r: u32)
    requires
        input@.len() >= 4,
    ensures
        r as nat == spec_selector(input@),
{
    let v = decode_le(input, 0, 4);
    proof {
        crate::codec::lemma_le_value_bound(input@.subrange(0, 4));
        crate::codec::lemma_pow256_monotone(4, 16);
        crate::codec::lemma_pow256_16();
        assert(crate::codec::pow256(4) == 0x100000000) by {
            reveal_with_fuel(crate::codec::pow256, 5);
        }
    }
    v as u32
}

} // verus!
