use contract_runtime::codec::{encode_account, encode_balance};
use contract_runtime::dispatch::Outcome;
use contract_runtime::erc20::{Approval, BaseErc20, Erc20, Error, EventRecord, Transfer};
use contract_runtime::erc20_wire::Erc20Instance;
use contract_runtime::example::{Example, ExampleInstance};
use contract_runtime::host::Env;
use contract_runtime::types::AccountId;

fn env_for(caller: AccountId) -> Env {
    Env::new(caller, AccountId::from_byte(0xFE), 0, 1, 1000)
}

fn selector(n: u32) -> Vec<u8> {
    n.to_le_bytes().to_vec()
}

fn with_account(mut buf: Vec<u8>, a: &AccountId) -> Vec<u8> {
    encode_account(a, &mut buf);
    buf
}

fn with_balance(mut buf: Vec<u8>, v: u128) -> Vec<u8> {
    encode_balance(v, &mut buf);
    buf
}

#[test]
fn default_works() {
    let example = Example::default();
    assert_eq!(example.get(), false);
}

#[test]
fn it_works() {
    let mut example = Example::new(false);
    assert_eq!(example.get(), false);
    example.flip();
    assert_eq!(example.get(), true);
}

#[test]
fn lib_default_works() {
    // Deploy through the wire interface with the default constructor, then
    // read the value back with a `get` call.
    let alice = AccountId::from_byte(1);
    let env = env_for(alice);
    let mut inst = ExampleInstance::instantiate(AccountId::from_byte(0xEE));
    let deploy_input: Vec<u8> = vec![2, 0, 0, 0];
    assert_eq!(inst.deploy(&env, &deploy_input), Outcome::Success(Vec::new()));
    let get_input: Vec<u8> = vec![4, 0, 0, 0];
    assert_eq!(inst.call(&env, &get_input), Outcome::Success(vec![0]));
}

#[test]
fn lib_it_works() {
    // Deploy with `new(false)`, observe `false`, flip, observe `true`.
    let bob = AccountId::from_byte(2);
    let env = env_for(bob);
    let mut inst = ExampleInstance::instantiate(AccountId::from_byte(0xEE));
    let deploy_input: Vec<u8> = vec![1, 0, 0, 0, 0];
    assert_eq!(inst.deploy(&env, &deploy_input), Outcome::Success(Vec::new()));
    let get_input: Vec<u8> = vec![4, 0, 0, 0];
    assert_eq!(inst.call(&env, &get_input), Outcome::Success(vec![0]));
    let flip_input: Vec<u8> = vec![3, 0, 0, 0];
    assert_eq!(inst.call(&env, &flip_input), Outcome::Success(Vec::new()));
    assert_eq!(inst.call(&env, &get_input), Outcome::Success(vec![1]));
}

#[test]
fn basic_transfer() {
    let a = AccountId::from_byte(1);
    let b = AccountId::from_byte(2);
    let mut events: Vec<EventRecord> = Vec::new();
    let env_a = env_for(a);
    let mut token = Erc20::new(&env_a, &mut events, 1000);
    assert_eq!(token.total_supply(), 1000);
    assert_eq!(token.balance_of(a), 1000);
    assert_eq!(token.transfer(&env_a, &mut events, b, 400), Ok(()));
    assert_eq!(token.balance_of(a), 600);
    assert_eq!(token.balance_of(b), 400);
    assert_eq!(events.len(), 2);
    assert_eq!(
        events[1],
        EventRecord::Transfer(Transfer { from: Some(a), to: Some(b), value: 400 })
    );
}

#[test]
fn insufficient_balance() {
    let a = AccountId::from_byte(1);
    let b = AccountId::from_byte(2);
    let mut events: Vec<EventRecord> = Vec::new();
    let env_a = env_for(a);
    let mut token = Erc20::new(&env_a, &mut events, 1000);
    let emitted_before = events.len();
    assert_eq!(
        token.transfer(&env_a, &mut events, b, 2000),
        Err(Error::InsufficientBalance)
    );
    assert_eq!(token.balance_of(a), 1000);
    assert_eq!(token.balance_of(b), 0);
    assert_eq!(events.len(), emitted_before);
}

#[test]
fn approve_and_transfer_from() {
    let a = AccountId::from_byte(1);
    let b = AccountId::from_byte(2);
    let c = AccountId::from_byte(3);
    let mut events: Vec<EventRecord> = Vec::new();
    let env_a = env_for(a);
    let env_c = env_for(c);
    let mut token = Erc20::new(&env_a, &mut events, 1000);
    assert_eq!(token.approve(&env_a, &mut events, c, 300), Ok(()));
    assert_eq!(token.allowance(a, c), 300);
    assert_eq!(token.transfer_from(&env_c, &mut events, a, b, 250), Ok(()));
    assert_eq!(token.balance_of(a), 750);
    assert_eq!(token.balance_of(b), 250);
    assert_eq!(token.allowance(a, c), 50);
    assert_eq!(events.len(), 3);
    assert_eq!(
        events[1],
        EventRecord::Approval(Approval { owner: a, spender: c, value: 300 })
    );
    assert_eq!(
        events[2],
        EventRecord::Transfer(Transfer { from: Some(a), to: Some(b), value: 250 })
    );
}

#[test]
fn allowance_underflow() {
    let a = AccountId::from_byte(1);
    let b = AccountId::from_byte(2);
    let c = AccountId::from_byte(3);
    let mut events: Vec<EventRecord> = Vec::new();
    let env_a = env_for(a);
    let env_c = env_for(c);
    let mut token = Erc20::new(&env_a, &mut events, 1000);
    assert_eq!(token.approve(&env_a, &mut events, c, 300), Ok(()));
    assert_eq!(token.transfer_from(&env_c, &mut events, a, b, 250), Ok(()));
    let emitted_before = events.len();
    assert_eq!(
        token.transfer_from(&env_c, &mut events, a, b, 100),
        Err(Error::InsufficientAllowance)
    );
    assert_eq!(token.balance_of(a), 750);
    assert_eq!(token.balance_of(b), 250);
    assert_eq!(token.allowance(a, c), 50);
    assert_eq!(events.len(), emitted_before);
}

#[test]
fn mint_emits_transfer_event() {
    let a = AccountId::from_byte(7);
    let mut events: Vec<EventRecord> = Vec::new();
    let token = Erc20::new(&env_for(a), &mut events, 555);
    assert_eq!(token.total_supply(), 555);
    assert_eq!(events.len(), 1);
    assert_eq!(
        events[0],
        EventRecord::Transfer(Transfer { from: None, to: Some(a), value: 555 })
    );
}

#[test]
fn self_transfer_changes_nothing() {
    let a = AccountId::from_byte(1);
    let mut events: Vec<EventRecord> = Vec::new();
    let env_a = env_for(a);
    let mut token = Erc20::new(&env_a, &mut events, 100);
    assert_eq!(token.transfer(&env_a, &mut events, a, 40), Ok(()));
    assert_eq!(token.balance_of(a), 100);
    assert_eq!(events.len(), 2);
}

#[test]
fn supply_conserved_over_sequence() {
    let a = AccountId::from_byte(1);
    let b = AccountId::from_byte(2);
    let c = AccountId::from_byte(3);
    let mut events: Vec<EventRecord> = Vec::new();
    let env_a = env_for(a);
    let env_b = env_for(b);
    let mut token = Erc20::new(&env_a, &mut events, 1000);
    assert_eq!(token.transfer(&env_a, &mut events, b, 300), Ok(()));
    assert_eq!(token.transfer(&env_b, &mut events, c, 120), Ok(()));
    assert_eq!(token.approve(&env_a, &mut events, c, 50), Ok(()));
    assert_eq!(token.transfer_from(&env_for(c), &mut events, a, c, 50), Ok(()));
    let sum = token.balance_of(a) + token.balance_of(b) + token.balance_of(c);
    assert_eq!(sum, token.total_supply());
}

#[test]
fn wire_token_deploy_and_query() {
    let a = AccountId::from_byte(1);
    let env_a = env_for(a);
    let mut inst = Erc20Instance::instantiate(AccountId::from_byte(0xEE));
    let (outcome, events) = inst.deploy(&env_a, &with_balance(selector(1), 1000));
    assert_eq!(outcome, Outcome::Success(Vec::new()));
    assert_eq!(events.len(), 1);
    // The minting event's first topic is the encoded absent sender.
    assert_eq!(events[0].topics[0], vec![0]);
    assert!(events[0].data.is_empty());
    let (outcome, events) = inst.call(&env_a, &selector(2));
    let mut expected: Vec<u8> = Vec::new();
    encode_balance(1000, &mut expected);
    assert_eq!(outcome, Outcome::Success(expected));
    assert!(events.is_empty());
    let (outcome, _) = inst.call(&env_a, &with_account(selector(3), &a));
    let mut expected: Vec<u8> = Vec::new();
    encode_balance(1000, &mut expected);
    assert_eq!(outcome, Outcome::Success(expected));
}

#[test]
fn wire_token_transfer_success_and_revert() {
    let a = AccountId::from_byte(1);
    let b = AccountId::from_byte(2);
    let env_a = env_for(a);
    let mut inst = Erc20Instance::instantiate(AccountId::from_byte(0xEE));
    inst.deploy(&env_a, &with_balance(selector(1), 1000));
    let (outcome, events) = inst.call(&env_a, &with_balance(with_account(selector(5), &b), 400));
    assert_eq!(outcome, Outcome::Success(Vec::new()));
    assert_eq!(events.len(), 1);
    assert_eq!(events[0].topics.len(), 3);
    // An overdraft reverts with the encoded domain error and emits nothing.
    let (outcome, events) = inst.call(&env_a, &with_balance(with_account(selector(5), &b), 2000));
    assert_eq!(outcome, Outcome::Reverted(vec![0]));
    assert!(events.is_empty());
    let (outcome, _) = inst.call(&env_a, &with_account(selector(3), &a));
    let mut expected: Vec<u8> = Vec::new();
    encode_balance(600, &mut expected);
    assert_eq!(outcome, Outcome::Success(expected));
}

#[test]
fn wire_token_allowance_error_payload() {
    let a = AccountId::from_byte(1);
    let b = AccountId::from_byte(2);
    let c = AccountId::from_byte(3);
    let env_a = env_for(a);
    let env_c = env_for(c);
    let mut inst = Erc20Instance::instantiate(AccountId::from_byte(0xEE));
    inst.deploy(&env_a, &with_balance(selector(1), 1000));
    let (outcome, _) = inst.call(&env_a, &with_balance(with_account(selector(6), &c), 300));
    assert_eq!(outcome, Outcome::Success(Vec::new()));
    let transfer_from = |value: u128| {
        with_balance(with_account(with_account(selector(7), &a), &b), value)
    };
    let (outcome, _) = inst.call(&env_c, &transfer_from(250));
    assert_eq!(outcome, Outcome::Success(Vec::new()));
    let (outcome, events) = inst.call(&env_c, &transfer_from(100));
    assert_eq!(outcome, Outcome::Reverted(vec![1]));
    assert!(events.is_empty());
    let allowance_query = with_account(with_account(selector(4), &a), &c);
    let (outcome, _) = inst.call(&env_c, &allowance_query);
    let mut expected: Vec<u8> = Vec::new();
    encode_balance(50, &mut expected);
    assert_eq!(outcome, Outcome::Success(expected));
}

#[test]
fn wire_token_rejects_malformed_input() {
    let a = AccountId::from_byte(1);
    let env_a = env_for(a);
    let mut inst = Erc20Instance::instantiate(AccountId::from_byte(0xEE));
    // Messages before deployment trap.
    let (outcome, _) = inst.call(&env_a, &selector(2));
    assert_eq!(outcome, Outcome::Trapped);
    inst.deploy(&env_a, &with_balance(selector(1), 10));
    // A second constructor run traps.
    let (outcome, _) = inst.deploy(&env_a, &with_balance(selector(1), 10));
    assert_eq!(outcome, Outcome::Trapped);
    // Known selector, wrong argument length: a trap.
    let (outcome, _) = inst.call(&env_a, &selector(5));
    assert_eq!(outcome, Outcome::Trapped);
    // Unknown selector: no matching entry.
    let (outcome, _) = inst.call(&env_a, &selector(99));
    assert_eq!(outcome, Outcome::NoMatchingEntry);
}

#[test]
fn default_token_is_empty() {
    let token = Erc20::default();
    assert_eq!(token.total_supply(), 0);
    assert_eq!(token.balance_of(AccountId::from_byte(1)), 0);
    assert_eq!(token.allowance(AccountId::from_byte(1), AccountId::from_byte(2)), 0);
}
