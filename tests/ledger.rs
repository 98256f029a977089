use duo_ledger::contract::{
    deposit_and_split, funded_amount, get_balance, get_owner, instantiate, send_duo, withdraw,
};
use duo_ledger::error::ContractError;
use duo_ledger::ledger::Balances;
use duo_ledger::msg::{Coin, InstantiateMsg, MessageInfo, TransferInstruction, NATIVE_DENOM};
use duo_ledger::state::State;

const OWNER: &str = "owner";
const U1: &str = "user1";
const U2: &str = "user2";

fn fresh(fee: u128) -> State {
    instantiate(InstantiateMsg { owner: OWNER.to_string(), fixed_fee: fee }).0
}

fn usei(amount: u128) -> Coin {
    Coin { denom: NATIVE_DENOM.to_string(), amount }
}

fn info(sender: &str, funds: Vec<Coin>) -> MessageInfo {
    MessageInfo { sender: sender.to_string(), funds }
}

fn bal(state: &State, who: &str) -> u128 {
    get_balance(state, &who.to_string()).balance.amount
}

fn scenario_a() -> State {
    let mut state = fresh(1000);
    send_duo(&mut state, info("payer", vec![usei(3000)]), U1.to_string(), U2.to_string()).unwrap();
    state
}

#[test]
fn deposit_splits_after_fee() {
    let state = scenario_a();
    assert_eq!(bal(&state, U1), 1000);
    assert_eq!(bal(&state, U2), 1000);
    assert_eq!(bal(&state, OWNER), 1000);
    assert_eq!(bal(&state, "payer"), 0);
}

#[test]
fn withdrawals_debit_and_instruct_transfer() {
    let mut state = scenario_a();
    let res = withdraw(&mut state, info(U1, vec![]), 500).unwrap();
    assert_eq!(bal(&state, U1), 500);
    assert_eq!(res.messages, vec![TransferInstruction { to_address: U1.to_string(), amount: 500 }]);
    let res = withdraw(&mut state, info(U2, vec![]), 1000).unwrap();
    assert_eq!(bal(&state, U2), 0);
    assert_eq!(res.messages, vec![TransferInstruction { to_address: U2.to_string(), amount: 1000 }]);
    assert_eq!(bal(&state, U1), 500);
    assert_eq!(bal(&state, OWNER), 1000);
}

#[test]
fn deposit_equal_to_fee_is_refused() {
    let mut state = fresh(1000);
    let r = send_duo(&mut state, info("payer", vec![usei(1000)]), U1.to_string(), U2.to_string());
    assert_eq!(r, Err(ContractError::InsufficientFunds {}));
    assert_eq!(bal(&state, U1), 0);
    assert_eq!(bal(&state, U2), 0);
    assert_eq!(bal(&state, OWNER), 0);
    assert!(state.balances.entries().is_empty());
}

#[test]
fn deposit_below_fee_leaves_balances() {
    let mut state = scenario_a();
    let before = state.balances.entries();
    let r = deposit_and_split(&mut state, 999, &U1.to_string(), &U2.to_string());
    assert_eq!(r, Err(ContractError::InsufficientFunds {}));
    assert_eq!(state.balances.entries(), before);
    assert_eq!(bal(&state, OWNER), 1000);
}

#[test]
fn odd_remainder_is_credited_to_nobody() {
    let mut state = fresh(10);
    deposit_and_split(&mut state, 21, &U1.to_string(), &U2.to_string()).unwrap();
    assert_eq!(bal(&state, U1), 5);
    assert_eq!(bal(&state, U2), 5);
    assert_eq!(bal(&state, OWNER), 10);
}

#[test]
fn receiver_named_twice_gets_both_shares() {
    let mut state = fresh(100);
    deposit_and_split(&mut state, 300, &U1.to_string(), &U1.to_string()).unwrap();
    assert_eq!(bal(&state, U1), 200);
    assert_eq!(bal(&state, OWNER), 100);
    assert_eq!(state.balances.entries().len(), 2);
}

#[test]
fn owner_as_receiver_gets_share_and_fee() {
    let mut state = fresh(100);
    deposit_and_split(&mut state, 301, &OWNER.to_string(), &U2.to_string()).unwrap();
    assert_eq!(bal(&state, OWNER), 200);
    assert_eq!(bal(&state, U2), 100);
}

#[test]
fn zero_fee_splits_everything() {
    let mut state = fresh(0);
    deposit_and_split(&mut state, 1, &U1.to_string(), &U2.to_string()).unwrap();
    assert_eq!(bal(&state, U1), 0);
    assert_eq!(bal(&state, U2), 0);
    assert_eq!(bal(&state, OWNER), 0);
    assert_eq!(state.balances.entries().len(), 3);
}

#[test]
fn deposits_accumulate() {
    let mut state = scenario_a();
    deposit_and_split(&mut state, 1500, &U2.to_string(), &"user3".to_string()).unwrap();
    assert_eq!(bal(&state, U1), 1000);
    assert_eq!(bal(&state, U2), 1250);
    assert_eq!(bal(&state, "user3"), 250);
    assert_eq!(bal(&state, OWNER), 2000);
}

#[test]
fn other_denominations_are_ignored() {
    let funds = vec![usei(1000), Coin { denom: "uatom".to_string(), amount: 5000 }, usei(2000)];
    assert_eq!(funded_amount(&funds), Ok(3000));
    let mut state = fresh(1000);
    send_duo(&mut state, info("payer", funds), U1.to_string(), U2.to_string()).unwrap();
    assert_eq!(bal(&state, U1), 1000);
    assert_eq!(bal(&state, U2), 1000);
}

#[test]
fn funds_in_another_denomination_only_are_insufficient() {
    let mut state = fresh(0);
    let funds = vec![Coin { denom: "uatom".to_string(), amount: 5000 }];
    let r = send_duo(&mut state, info("payer", funds), U1.to_string(), U2.to_string());
    assert_eq!(r, Err(ContractError::InsufficientFunds {}));
}

#[test]
fn funds_that_overflow_are_refused() {
    let funds = vec![usei(u128::MAX), usei(1)];
    assert_eq!(funded_amount(&funds), Err(ContractError::Overflow {}));
    let mut state = fresh(0);
    let r = send_duo(&mut state, info("payer", funds), U1.to_string(), U2.to_string());
    assert_eq!(r, Err(ContractError::Overflow {}));
    assert!(state.balances.entries().is_empty());
}

#[test]
fn largest_funds_are_accepted() {
    assert_eq!(funded_amount(&vec![usei(u128::MAX)]), Ok(u128::MAX));
    assert_eq!(funded_amount(&vec![]), Ok(0));
}

#[test]
fn balance_overflow_is_refused_without_effect() {
    let mut state = fresh(10);
    state.balances.set(OWNER.to_string(), u128::MAX - 5);
    let r = deposit_and_split(&mut state, 100, &U1.to_string(), &U2.to_string());
    assert_eq!(r, Err(ContractError::Overflow {}));
    assert_eq!(bal(&state, OWNER), u128::MAX - 5);
    assert_eq!(bal(&state, U1), 0);
    assert_eq!(state.balances.entries().len(), 1);
}

#[test]
fn withdraw_zero_is_invalid() {
    let mut state = scenario_a();
    let r = withdraw(&mut state, info(U1, vec![]), 0);
    assert!(matches!(r, Err(ContractError::InvalidArgument { .. })));
    assert_eq!(bal(&state, U1), 1000);
}

#[test]
fn withdraw_zero_without_entry_is_invalid() {
    let mut state = fresh(1000);
    let r = withdraw(&mut state, info(U1, vec![]), 0);
    assert!(matches!(r, Err(ContractError::InvalidArgument { .. })));
}

#[test]
fn withdraw_without_entry_is_insufficient() {
    let mut state = scenario_a();
    let r = withdraw(&mut state, info("stranger", vec![]), 1);
    assert_eq!(r, Err(ContractError::InsufficientFunds {}));
    assert!(state.balances.get(&"stranger".to_string()).is_none());
}

#[test]
fn withdraw_beyond_balance_is_insufficient() {
    let mut state = scenario_a();
    let before = state.balances.entries();
    let r = withdraw(&mut state, info(U1, vec![]), 1001);
    assert_eq!(r, Err(ContractError::InsufficientFunds {}));
    assert_eq!(state.balances.entries(), before);
}

#[test]
fn withdrawn_to_zero_entry_stays() {
    let mut state = scenario_a();
    withdraw(&mut state, info(U2, vec![]), 1000).unwrap();
    assert_eq!(state.balances.get(&U2.to_string()), Some(0));
    let r = withdraw(&mut state, info(U2, vec![]), 1);
    assert_eq!(r, Err(ContractError::InsufficientFunds {}));
}

#[test]
fn unknown_account_reads_zero() {
    let state = scenario_a();
    let r = get_balance(&state, &"nobody".to_string());
    assert_eq!(r.balance.amount, 0);
    assert_eq!(r.balance.denom, "usei");
    assert_eq!(get_owner(&state).owner, OWNER);
}

#[test]
fn ledger_set_get_and_entries() {
    let mut b = Balances::new();
    assert_eq!(b.get(&"a".to_string()), None);
    b.set("a".to_string(), 7);
    b.credit(&"b".to_string(), 3);
    b.credit(&"a".to_string(), 2);
    b.debit(&"b".to_string(), 3);
    assert_eq!(b.balance_of(&"a".to_string()), 9);
    assert_eq!(b.get(&"b".to_string()), Some(0));
    assert_eq!(b.entries(), vec![("a".to_string(), 9), ("b".to_string(), 0)]);
}
