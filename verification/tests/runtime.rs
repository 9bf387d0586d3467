use contract_runtime::codec::{
    decode_account, decode_balance, decode_bool, decode_digest, decode_option_account,
    encode_account, encode_balance, encode_bool, encode_digest, encode_option_account,
};
use contract_runtime::dispatch::{
    check_selectors_unique, find_entry, read_selector, Entry, EntryKind, Outcome,
};
use contract_runtime::erc20::{erc20_descriptor, Approval, EventRecord, Transfer};
use contract_runtime::event::{journal_to_wire, to_wire};
use contract_runtime::example::{example_descriptor, ExampleInstance};
use contract_runtime::host::{Env, HostLedger, TransferError};
use contract_runtime::store::{bytes_eq, Store};
use contract_runtime::types::{AccountId, Digest};

fn env_for(caller: AccountId) -> Env {
    Env::new(caller, AccountId::from_byte(0xFE), 0, 1, 1000)
}

#[test]
fn balance_encoding_round_trips() {
    let mut buf: Vec<u8> = Vec::new();
    encode_balance(123_456_789_012_345_678_901_234_567u128, &mut buf);
    assert_eq!(buf.len(), 16);
    assert_eq!(decode_balance(&buf, 0), 123_456_789_012_345_678_901_234_567u128);
}

#[test]
fn balance_encoding_is_little_endian() {
    let mut buf: Vec<u8> = Vec::new();
    encode_balance(0x0102u128, &mut buf);
    assert_eq!(buf[0], 0x02);
    assert_eq!(buf[1], 0x01);
    assert_eq!(&buf[2..], &[0u8; 14]);
}

#[test]
fn digest_encoding_round_trips() {
    let h = Digest::new(77, 0xF00D);
    let mut buf: Vec<u8> = Vec::new();
    encode_digest(&h, &mut buf);
    assert_eq!(buf.len(), 32);
    assert_eq!(decode_digest(&buf, 0), h);
}

#[test]
fn account_encoding_round_trips() {
    let a = AccountId::new(0xDEAD_BEEF, 0xCAFE);
    let mut buf: Vec<u8> = Vec::new();
    encode_account(&a, &mut buf);
    assert_eq!(buf.len(), 32);
    assert_eq!(decode_account(&buf, 0), a);
}

#[test]
fn bool_decoding_is_strict() {
    let mut buf: Vec<u8> = Vec::new();
    encode_bool(true, &mut buf);
    encode_bool(false, &mut buf);
    assert_eq!(buf, vec![1, 0]);
    assert_eq!(decode_bool(&buf, 0), Some(true));
    assert_eq!(decode_bool(&buf, 1), Some(false));
    let junk: Vec<u8> = vec![2];
    assert_eq!(decode_bool(&junk, 0), None);
}

#[test]
fn selector_is_first_four_bytes() {
    let input: Vec<u8> = vec![0x2A, 0, 0, 0, 99, 99];
    assert_eq!(read_selector(&input), 42);
}

#[test]
fn byte_string_equality() {
    let a: Vec<u8> = vec![1, 2, 3];
    let b: Vec<u8> = vec![1, 2, 3];
    let c: Vec<u8> = vec![1, 2, 4];
    assert!(bytes_eq(&a, &b));
    assert!(!bytes_eq(&a, &c));
    assert!(!bytes_eq(&a, &vec![1, 2]));
}

#[test]
fn store_reads_pending_then_committed() {
    let mut store = Store::new();
    let key: Vec<u8> = vec![9];
    assert_eq!(store.get(&key), None);
    store.insert(key.clone(), vec![1, 2]);
    assert_eq!(store.get(&key), Some(&vec![1, 2]));
    store.commit();
    assert_eq!(store.get(&key), Some(&vec![1, 2]));
    store.insert(key.clone(), vec![3]);
    assert_eq!(store.get(&key), Some(&vec![3]));
}

#[test]
fn store_revert_discards_journal() {
    let mut store = Store::new();
    let key: Vec<u8> = vec![9];
    store.insert(key.clone(), vec![1]);
    store.commit();
    store.insert(key.clone(), vec![2]);
    store.remove(key.clone());
    store.revert();
    assert_eq!(store.get(&key), Some(&vec![1]));
}

#[test]
fn store_remove_then_commit() {
    let mut store = Store::new();
    let key: Vec<u8> = vec![7, 7];
    let other: Vec<u8> = vec![8];
    store.insert(key.clone(), vec![1]);
    store.insert(other.clone(), vec![2]);
    store.commit();
    store.remove(key.clone());
    assert_eq!(store.get(&key), None);
    store.commit();
    assert_eq!(store.get(&key), None);
    assert_eq!(store.get(&other), Some(&vec![2]));
}

#[test]
fn descriptors_have_unique_selectors() {
    assert!(check_selectors_unique(&example_descriptor()));
    assert!(check_selectors_unique(&erc20_descriptor()));
}

#[test]
fn duplicate_selectors_are_detected() {
    let mut d = example_descriptor();
    d.push(Entry { selector: 3, kind: EntryKind::Message, mutates: false });
    assert!(!check_selectors_unique(&d));
}

#[test]
fn unknown_selector_is_refused() {
    let env = env_for(AccountId::from_byte(1));
    let mut inst = ExampleInstance::instantiate(AccountId::from_byte(0xEE));
    assert_eq!(inst.deploy(&env, &vec![99, 0, 0, 0]), Outcome::NoMatchingEntry);
    assert_eq!(inst.deploy(&env, &vec![2, 0, 0, 0]), Outcome::Success(Vec::new()));
    assert_eq!(inst.call(&env, &vec![99, 0, 0, 0]), Outcome::NoMatchingEntry);
}

#[test]
fn failed_invocation_leaves_state_unchanged() {
    let env = env_for(AccountId::from_byte(1));
    let mut inst = ExampleInstance::instantiate(AccountId::from_byte(0xEE));
    assert_eq!(inst.deploy(&env, &vec![1, 0, 0, 0, 1]), Outcome::Success(Vec::new()));
    // Malformed flip input: known selector, wrong argument length.
    assert_eq!(inst.call(&env, &vec![3, 0, 0, 0, 9]), Outcome::Trapped);
    // The committed value is still the deployed `true`.
    assert_eq!(inst.call(&env, &vec![4, 0, 0, 0]), Outcome::Success(vec![1]));
}

#[test]
fn constructor_cannot_run_twice() {
    let env = env_for(AccountId::from_byte(1));
    let mut inst = ExampleInstance::instantiate(AccountId::from_byte(0xEE));
    assert_eq!(inst.deploy(&env, &vec![2, 0, 0, 0]), Outcome::Success(Vec::new()));
    assert_eq!(inst.deploy(&env, &vec![1, 0, 0, 0, 1]), Outcome::Trapped);
    assert_eq!(inst.call(&env, &vec![4, 0, 0, 0]), Outcome::Success(vec![0]));
}

#[test]
fn message_before_deploy_traps() {
    let env = env_for(AccountId::from_byte(1));
    let mut inst = ExampleInstance::instantiate(AccountId::from_byte(0xEE));
    assert_eq!(inst.call(&env, &vec![4, 0, 0, 0]), Outcome::Trapped);
}

#[test]
fn identical_runs_replay_identically() {
    let env = env_for(AccountId::from_byte(5));
    let script: Vec<Vec<u8>> = vec![
        vec![4, 0, 0, 0],
        vec![3, 0, 0, 0],
        vec![4, 0, 0, 0],
        vec![99, 0, 0, 0],
        vec![3, 0, 0, 0, 1],
    ];
    let mut one = ExampleInstance::instantiate(AccountId::from_byte(0xEE));
    let mut two = ExampleInstance::instantiate(AccountId::from_byte(0xEE));
    assert_eq!(one.deploy(&env, &vec![2, 0, 0, 0]), two.deploy(&env, &vec![2, 0, 0, 0]));
    for input in &script {
        assert_eq!(one.call(&env, input), two.call(&env, input));
    }
}

#[test]
fn option_account_encoding_round_trips() {
    let a = AccountId::from_byte(9);
    let mut buf: Vec<u8> = Vec::new();
    encode_option_account(&None, &mut buf);
    encode_option_account(&Some(a), &mut buf);
    assert_eq!(buf.len(), 34);
    assert_eq!(buf[0], 0);
    assert_eq!(buf[1], 1);
    assert_eq!(decode_option_account(&buf, 0), Some((None, 1)));
    assert_eq!(decode_option_account(&buf, 1), Some((Some(a), 33)));
    let junk: Vec<u8> = vec![7];
    assert_eq!(decode_option_account(&junk, 0), None);
    let truncated: Vec<u8> = vec![1, 2, 3];
    assert_eq!(decode_option_account(&truncated, 0), None);
}

#[test]
fn wire_events_carry_canonical_topics() {
    let a = AccountId::from_byte(1);
    let b = AccountId::from_byte(2);
    let transfer = EventRecord::Transfer(Transfer { from: None, to: Some(b), value: 5 });
    let approval = EventRecord::Approval(Approval { owner: a, spender: b, value: 9 });
    let e = to_wire(&transfer);
    assert_eq!(e.topics.len(), 3);
    assert_eq!(e.topics[0], vec![0]);
    assert_eq!(e.topics[1].len(), 33);
    assert_eq!(e.topics[1][0], 1);
    let mut expected_value: Vec<u8> = Vec::new();
    encode_balance(5, &mut expected_value);
    assert_eq!(e.topics[2], expected_value);
    assert!(e.data.is_empty());
    let journal = vec![transfer, approval];
    let wire = journal_to_wire(&journal);
    assert_eq!(wire.len(), 2);
    let mut owner_bytes: Vec<u8> = Vec::new();
    encode_account(&a, &mut owner_bytes);
    assert_eq!(wire[1].topics[0], owner_bytes);
}

#[test]
fn descriptor_lookup_finds_each_entry() {
    let d = example_descriptor();
    assert_eq!(find_entry(&d, 3), Some(2));
    let i = find_entry(&d, 1).expect("constructor entry");
    assert_eq!(d[i].kind, EntryKind::Constructor);
    assert!(d[i].mutates);
    assert_eq!(find_entry(&d, 77), None);
}

#[test]
fn host_transfer_moves_value() {
    let a = AccountId::from_byte(1);
    let b = AccountId::from_byte(2);
    let mut ledger = HostLedger::new();
    ledger.endow(a, 100);
    assert_eq!(ledger.balance(&a), 100);
    assert_eq!(ledger.transfer(&a, &b, 30), Ok(()));
    assert_eq!(ledger.balance(&a), 70);
    assert_eq!(ledger.balance(&b), 30);
}

#[test]
fn host_transfer_insufficient_funds() {
    let a = AccountId::from_byte(1);
    let b = AccountId::from_byte(2);
    let mut ledger = HostLedger::new();
    ledger.endow(a, 10);
    assert_eq!(ledger.transfer(&a, &b, 11), Err(TransferError::InsufficientFunds));
    assert_eq!(ledger.balance(&a), 10);
    assert_eq!(ledger.balance(&b), 0);
}

#[test]
fn terminate_pays_out_residual_balance() {
    let contract = AccountId::from_byte(0xEE);
    let heir = AccountId::from_byte(4);
    let mut ledger = HostLedger::new();
    ledger.endow(contract, 250);
    let env = env_for(AccountId::from_byte(1));
    let mut inst = ExampleInstance::instantiate(contract);
    inst.deploy(&env, &vec![2, 0, 0, 0]);
    inst.terminate(&mut ledger, &heir);
    assert_eq!(ledger.balance(&contract), 0);
    assert_eq!(ledger.balance(&heir), 250);
}

#[test]
fn environment_reads_back() {
    let caller = AccountId::from_byte(3);
    let callee = AccountId::from_byte(4);
    let env = Env::new(caller, callee, 17, 88, 123_456);
    assert_eq!(env.caller(), caller);
    assert_eq!(env.self_account(), callee);
    assert_eq!(env.transferred_value(), 17);
    assert_eq!(env.block_number(), 88);
    assert_eq!(env.block_timestamp(), 123_456);
}

#[test]
fn plain_value_types() {
    assert_eq!(AccountId::from_byte(1), AccountId::new(1, 0));
    assert_ne!(AccountId::from_byte(1), AccountId::from_byte(2));
    assert_eq!(AccountId::zero(), AccountId::new(0, 0));
    assert_eq!(Digest::zero(), Digest::new(0, 0));
    let inst = ExampleInstance::instantiate(AccountId::from_byte(0xAB));
    assert_eq!(inst.account(), AccountId::from_byte(0xAB));
}
