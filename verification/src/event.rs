//! The wire form of events: the host's journal records an ordered list of
//! `(topics, data)` pairs, where each topic is the canonical encoding of
//! one field marked for indexing (the host hashes each topic into its
//! subscription index) and `data` is the canonical encoding of the
//! remaining payload. For the token's two events every field is a topic,
//! so their payload is empty.

use vstd::prelude::*;
use crate::codec::{
    account_bytes, balance_bytes, encode_account, encode_balance, encode_option_account,
    option_account_bytes,
};
use crate::erc20::{Approval, EventRecord, Transfer};

verus! {

/// One event as the host's journal records it.
#[derive(Debug, PartialEq, Eq)]
pub struct Event {
    /// Canonical encodings of the indexed fields, in declaration order.
    pub topics: Vec<Vec<u8>>,
    /// Canonical encoding of the non-indexed payload.
    pub data: Vec<u8>,
}

/// The topic byte strings of an event, at the spec level.
pub open spec fn topics_view(e: Event) -> Seq<Seq<u8>> {
    e.topics@.map_values(|t: Vec<u8>| t@)
}

/// The wire topics a `Transfer` must carry: all three of its fields.
pub open spec fn transfer_topics(t: Transfer) -> Seq<Seq<u8>> {
    seq![option_account_bytes(t.from), option_account_bytes(t.to), balance_bytes(t.value)]
}

/// The wire topics an `Approval` must carry: all three of its fields.
pub open spec fn approval_topics(a: Approval) -> Seq<Seq<u8>> {
    seq![account_bytes(a.owner), account_bytes(a.spender), balance_bytes(a.value)]
}

/// The wire topics of any journal record.
pub open spec fn record_topics(r: EventRecord) -> Seq<Seq<u8>> {
    match r {
        EventRecord::Transfer(t) => transfer_topics(t),
        EventRecord::Approval(a) => approval_topics(a),
    }
}

/// Encodes one journal record into the event the host flushes on commit:
/// its topics are exactly the canonical encodings of the record's fields,
/// and its payload is empty.
pub fn to_wire(r: &EventRecord) -> (e: Event)
    ensures
        topics_view(e) == record_topics(*r),
        e.data@ == Seq::<u8>::empty(),
{
    match r {
        EventRecord::Transfer(t) => {
            let mut topics: Vec<Vec<u8>> = Vec::new();
            let mut from_bytes: Vec<u8> = Vec::new();
            encode_option_account(&t.from, &mut from_bytes);
            topics.push(from_bytes);
            let mut to_bytes: Vec<u8> = Vec::new();
            encode_option_account(&t.to, &mut to_bytes);
            topics.push(to_bytes);
            let mut value_bytes: Vec<u8> = Vec::new();
            encode_balance(t.value, &mut value_bytes);
            topics.push(value_bytes);
            let e = Event { topics, data: Vec::new() };
            proof {
                assert(topics_view(e) =~= transfer_topics(*t));
            }
            e
        },
        EventRecord::Approval(a) => {
            let mut topics: Vec<Vec<u8>> = Vec::new();
            let mut owner_bytes: Vec<u8> = Vec::new();
            encode_account(&a.owner, &mut owner_bytes);
            topics.push(owner_bytes);
            let mut spender_bytes: Vec<u8> = Vec::new();
            encode_account(&a.spender, &mut spender_bytes);
            topics.push(spender_bytes);
            let mut value_bytes: Vec<u8> = Vec::new();
            encode_balance(a.value, &mut value_bytes);
            topics.push(value_bytes);
            let e = Event { topics, data: Vec::new() };
            proof {
                assert(topics_view(e) =~= approval_topics(*a));
            }
            e
        },
    }
}

/// Encodes a whole journal, keeping emission order: the `i`th wire event
/// carries the topics of the `i`th record.
pub fn journal_to_wire(records: &Vec<EventRecord>) -> (out: Vec<Event>)
    ensures
        out@.len() == records@.len(),
        forall|i: int|
            0 <= i < out@.len() ==> topics_view(out@[i]) == record_topics(records@[i])
                && out@[i].data@ == Seq::<u8>::empty(),
{
    let n = records.len();
    let mut out: Vec<Event> = Vec::new();
    let mut i: usize = 0;
    while i < n
        invariant
            n == records@.len(),
            i <= n,
            out@.len() == i,
            forall|j: int|
                0 <= j < i ==> topics_view(out@[j]) == record_topics(records@[j])
                    && out@[j].data@ == Seq::<u8>::empty(),
        decreases n - i,
    {
        let e = to_wire(&records[i]);
        out.push(e);
        i += 1;
    }
    out
}

} // verus!
