use vstd::prelude::*;

use crate::error::ContractError;
use crate::ledger::{balance, Balances};
use crate::msg::{
    native_denom, Coin, ExecuteMsg, GetBalanceResponse, GetOwnerResponse, InstantiateMsg,
    MessageInfo, QueryMsg, QueryResponse, Response, TransferInstruction, NATIVE_DENOM,
};
use crate::state::State;

verus! {

/// The sum of the native-denomination amounts among `funds`; other denominations count nothing.
pub open spec fn native_total(funds: Seq<Coin>) -> nat
    decreases funds.len(),
{
    if funds.len() == 0 {
        0
    } else {
        native_total(funds.drop_last()) + if funds.last().denom@ == native_denom() {
            funds.last().amount as nat
        } else {
            0
        }
    }
}

proof fn lemma_native_total_prefix(funds: Seq<Coin>, i: int)
    requires
        0 <= i <= funds.len(),
    ensures
        native_total(funds.subrange(0, i)) <= native_total(funds),
    decreases funds.len(),
{
    if i < funds.len() {
        assert(funds.drop_last().subrange(0, i) =~= funds.subrange(0, i));
        lemma_native_total_prefix(funds.drop_last(), i);
    } else {
        assert(funds.subrange(0, i) =~= funds);
    }
}

/// The native coins attached to a call, summed.
pub fn funded_amount(funds: &Vec<Coin>) -> (r: Result<u128, ContractError>)
    ensures
        native_total(funds@) <= u128::MAX ==> r == Ok::<u128, ContractError>(native_total(funds@) as u128),
        native_total(funds@) > u128::MAX ==> r == Err::<u128, ContractError>(ContractError::Overflow {}),
{
    let native = NATIVE_DENOM.to_owned();
    let n = funds.len();
    let mut total: u128 = 0;
    let mut i: usize = 0;
    while i < n
        invariant
            n == funds@.len(),
            i <= n,
            native@ == native_denom(),
            total == native_total(funds@.subrange(0, i as int)),
        decreases n - i,
    {
        proof {
            assert(funds@.subrange(0, i + 1).drop_last() =~= funds@.subrange(0, i as int));
        }
        if funds[i].denom == native {
            match total.checked_add(funds[i].amount) {
                Some(t) => total = t,
                None => {
                    proof {
                        lemma_native_total_prefix(funds@, i + 1);
                    }
                    return Err(ContractError::Overflow {});
                },
            }
        }
        i = i + 1;
    }
    proof {
        assert(funds@.subrange(0, n as int) =~= funds@);
    }
    Ok(total)
}

/// What each recipient gets of a deposit of `funded`: half of what is left after the fee, rounded down.
pub open spec fn split_share(funded: u128, fee: u128) -> int {
    (funded - fee) / 2
}

/// What a deposit with this split adds to `account`; an account named twice gets both parts.
pub open spec fn deposit_credit(
    owner: Seq<char>,
    fee: u128,
    share: int,
    receiver1: Seq<char>,
    receiver2: Seq<char>,
    account: Seq<char>,
) -> int {
    (if account == receiver1 { share } else { 0 }) + (if account == receiver2 { share } else { 0 })
        + (if account == owner { fee as int } else { 0 })
}

/// `m` with `amount` added to the balance of `account`.
pub open spec fn credited(m: Map<Seq<char>, u128>, account: Seq<char>, amount: int) -> Map<Seq<char>, u128> {
    m.insert(account, (balance(m, account) + amount) as u128)
}

/// The balances after a deposit: each receiver credited with `share`, then the owner with the fee.
pub open spec fn after_deposit(
    m: Map<Seq<char>, u128>,
    owner: Seq<char>,
    fee: u128,
    share: int,
    receiver1: Seq<char>,
    receiver2: Seq<char>,
) -> Map<Seq<char>, u128> {
    credited(credited(credited(m, receiver1, share), receiver2, share), owner, fee as int)
}

/// Every balance that a deposit touches still fits in 128 bits afterwards.
pub open spec fn deposit_fits(
    m: Map<Seq<char>, u128>,
    owner: Seq<char>,
    fee: u128,
    share: int,
    receiver1: Seq<char>,
    receiver2: Seq<char>,
) -> bool {
    &&& balance(m, receiver1) + deposit_credit(owner, fee, share, receiver1, receiver2, receiver1) <= u128::MAX
    &&& balance(m, receiver2) + deposit_credit(owner, fee, share, receiver1, receiver2, receiver2) <= u128::MAX
    &&& balance(m, owner) + deposit_credit(owner, fee, share, receiver1, receiver2, owner) <= u128::MAX
}

fn credit_of(owner: &String, fee: u128, share: u128, receiver1: &String, receiver2: &String, account: &String) -> (r: u128)
    requires
        2 * share + fee <= u128::MAX,
    ensures
        r == deposit_credit(owner@, fee, share as int, receiver1@, receiver2@, account@),
{
    let mut r: u128 = 0;
    if *account == *receiver1 {
        r = r + share;
    }
    if *account == *receiver2 {
        r = r + share;
    }
    if *account == *owner {
        r = r + fee;
    }
    r
}

fn fits(balances: &Balances, account: &String, credit: u128) -> (r: bool)
    requires
        balances.wf(),
    ensures
        r == (balance(balances@, account@) + credit <= u128::MAX),
{
    balances.balance_of(account) <= u128::MAX - credit
}

/// Takes a deposit of `funded` and splits it: the fee to the owner, the rest in two equal
/// shares to the receivers, the odd unit (if any) to nobody.
pub fn deposit_and_split(state: &mut State, funded: u128, receiver1: &String, receiver2: &String) -> (r: Result<(), ContractError>)
    requires
        old(state).wf(),
    ensures
        final(state).wf(),
        final(state).owner == old(state).owner,
        final(state).fixed_fee == old(state).fixed_fee,
        r.is_ok() <==> funded > old(state).fixed_fee && deposit_fits(old(state).balances@, old(state).owner@,
            old(state).fixed_fee, split_share(funded, old(state).fixed_fee), receiver1@, receiver2@),
        funded <= old(state).fixed_fee ==> r == Err::<(), ContractError>(ContractError::InsufficientFunds {}),
        funded > old(state).fixed_fee && r.is_err() ==> r == Err::<(), ContractError>(ContractError::Overflow {}),
        r.is_err() ==> final(state).balances@ == old(state).balances@,
        r.is_ok() ==> final(state).balances@ == after_deposit(old(state).balances@, old(state).owner@,
            old(state).fixed_fee, split_share(funded, old(state).fixed_fee), receiver1@, receiver2@),
{
    let fee = state.fixed_fee;
    if funded <= fee {
        return Err(ContractError::InsufficientFunds {});
    }
    let share = (funded - fee) / 2;
    let c1 = credit_of(&state.owner, fee, share, receiver1, receiver2, receiver1);
    let c2 = credit_of(&state.owner, fee, share, receiver1, receiver2, receiver2);
    let c3 = credit_of(&state.owner, fee, share, receiver1, receiver2, &state.owner);
    if !(fits(&state.balances, receiver1, c1) && fits(&state.balances, receiver2, c2) && fits(&state.balances, &state.owner, c3)) {
        return Err(ContractError::Overflow {});
    }
    let ghost m0 = state.balances@;
    state.balances.credit(receiver1, share);
    let ghost m1 = state.balances@;
    assert(balance(m1, receiver2@) == balance(m0, receiver2@) + if receiver2@ == receiver1@ { share as int } else { 0 });
    state.balances.credit(receiver2, share);
    let ghost m2 = state.balances@;
    assert(balance(m2, state.owner@) == balance(m0, state.owner@)
        + (if state.owner@ == receiver1@ { share as int } else { 0 })
        + (if state.owner@ == receiver2@ { share as int } else { 0 }));
    state.balances.credit(&state.owner, fee);
    Ok(())
}

/// The withdrawal-request checks, in order: a zero amount is refused outright, then the
/// caller must hold an entry covering `amount`.
pub open spec fn withdrawal_allowed(m: Map<Seq<char>, u128>, caller: Seq<char>, amount: u128) -> bool {
    amount != 0 && m.contains_key(caller) && amount <= m[caller]
}

/// Debits `amount` from the caller's balance and instructs the host to pay it out.
pub fn withdraw(state: &mut State, info: MessageInfo, amount: u128) -> (r: Result<Response, ContractError>)
    requires
        old(state).wf(),
    ensures
        final(state).wf(),
        final(state).owner == old(state).owner,
        final(state).fixed_fee == old(state).fixed_fee,
        r.is_ok() <==> withdrawal_allowed(old(state).balances@, info.sender@, amount),
        amount == 0 ==> r matches Err(ContractError::InvalidArgument { .. }),
        amount != 0 && r.is_err() ==> r == Err::<Response, ContractError>(ContractError::InsufficientFunds {}),
        r.is_err() ==> final(state).balances@ == old(state).balances@,
        r.is_ok() ==> {
            &&& final(state).balances@ == old(state).balances@.insert(
                info.sender@,
                (old(state).balances@[info.sender@] - amount) as u128,
            )
            &&& r->Ok_0.messages@.len() == 1
            &&& r->Ok_0.messages@[0].to_address@ == info.sender@
            &&& r->Ok_0.messages@[0].amount == amount
        },
{
    if amount == 0 {
        return Err(ContractError::InvalidArgument { msg: "Amount cannot be zero".to_owned() });
    }
    let balance = match state.balances.get(&info.sender) {
        Some(b) => b,
        None => return Err(ContractError::InsufficientFunds {}),
    };
    if balance < amount {
        return Err(ContractError::InsufficientFunds {});
    }
    state.balances.debit(&info.sender, amount);
    let mut messages: Vec<TransferInstruction> = Vec::new();
    messages.push(TransferInstruction { to_address: info.sender, amount });
    Ok(Response { messages })
}

/// Creates the ledger: the given owner and fee, and no balances.
pub fn instantiate(msg: InstantiateMsg) -> (r: (State, Response))
    ensures
        r.0.wf(),
        r.0.owner@ == msg.owner@,
        r.0.fixed_fee == msg.fixed_fee,
        r.0.balances@ == Map::<Seq<char>, u128>::empty(),
        r.1.messages@.len() == 0,
{
    let state = State { owner: msg.owner, fixed_fee: msg.fixed_fee, balances: Balances::new() };
    (state, Response { messages: Vec::new() })
}

/// Deposits the native coins attached to the call, split between two receivers.
pub fn send_duo(state: &mut State, info: MessageInfo, receiver1: String, receiver2: String) -> (r: Result<Response, ContractError>)
    requires
        old(state).wf(),
    ensures
        final(state).wf(),
        final(state).owner == old(state).owner,
        final(state).fixed_fee == old(state).fixed_fee,
        native_total(info.funds@) > u128::MAX ==> r == Err::<Response, ContractError>(ContractError::Overflow {})
            && final(state).balances@ == old(state).balances@,
        native_total(info.funds@) <= u128::MAX ==> {
            let funded = native_total(info.funds@) as u128;
            &&& r.is_ok() <==> funded > old(state).fixed_fee && deposit_fits(old(state).balances@,
                old(state).owner@, old(state).fixed_fee, split_share(funded, old(state).fixed_fee),
                receiver1@, receiver2@)
            &&& funded <= old(state).fixed_fee ==> r == Err::<Response, ContractError>(ContractError::InsufficientFunds {})
            &&& funded > old(state).fixed_fee && r.is_err() ==> r == Err::<Response, ContractError>(ContractError::Overflow {})
            &&& r.is_err() ==> final(state).balances@ == old(state).balances@
            &&& r.is_ok() ==> final(state).balances@ == after_deposit(old(state).balances@, old(state).owner@,
                old(state).fixed_fee, split_share(funded, old(state).fixed_fee), receiver1@, receiver2@)
            &&& r.is_ok() ==> r->Ok_0.messages@.len() == 0
        },
{
    let funded = match funded_amount(&info.funds) {
        Ok(f) => f,
        Err(e) => return Err(e),
    };
    match deposit_and_split(state, funded, &receiver1, &receiver2) {
        Ok(()) => Ok(Response { messages: Vec::new() }),
        Err(e) => Err(e),
    }
}

/// Runs one call against the ledger.
pub fn execute(state: &mut State, info: MessageInfo, msg: ExecuteMsg) -> (r: Result<Response, ContractError>)
    requires
        old(state).wf(),
    ensures
        final(state).wf(),
        final(state).owner == old(state).owner,
        final(state).fixed_fee == old(state).fixed_fee,
        r.is_err() ==> final(state).balances@ == old(state).balances@,
        match msg {
            ExecuteMsg::SendDuo { receiver1, receiver2 } => {
                let funded = native_total(info.funds@);
                &&& r.is_ok() <==> funded <= u128::MAX && funded > old(state).fixed_fee && deposit_fits(
                    old(state).balances@, old(state).owner@, old(state).fixed_fee,
                    split_share(funded as u128, old(state).fixed_fee), receiver1@, receiver2@)
                &&& r.is_ok() ==> final(state).balances@ == after_deposit(old(state).balances@, old(state).owner@,
                    old(state).fixed_fee, split_share(funded as u128, old(state).fixed_fee), receiver1@, receiver2@)
                    && r->Ok_0.messages@.len() == 0
                &&& funded <= old(state).fixed_fee ==> r == Err::<Response, ContractError>(ContractError::InsufficientFunds {})
                &&& funded > old(state).fixed_fee && r.is_err() ==> r == Err::<Response, ContractError>(ContractError::Overflow {})
            },
            ExecuteMsg::Withdraw { amount } => {
                &&& r.is_ok() <==> withdrawal_allowed(old(state).balances@, info.sender@, amount)
                &&& amount == 0 ==> (r matches Err(ContractError::InvalidArgument { .. }))
                &&& amount != 0 && r.is_err() ==> r == Err::<Response, ContractError>(ContractError::InsufficientFunds {})
                &&& r.is_ok() ==> final(state).balances@ == old(state).balances@.insert(
                    info.sender@, (old(state).balances@[info.sender@] - amount) as u128)
                    && r->Ok_0.messages@.len() == 1
                    && r->Ok_0.messages@[0].to_address@ == info.sender@
                    && r->Ok_0.messages@[0].amount == amount
            },
        },
{
    match msg {
        ExecuteMsg::SendDuo { receiver1, receiver2 } => send_duo(state, info, receiver1, receiver2),
        ExecuteMsg::Withdraw { amount } => withdraw(state, info, amount),
    }
}

/// The owner set at creation.
pub fn get_owner(state: &State) -> (r: GetOwnerResponse)
    ensures
        r.owner@ == state.owner@,
{
    GetOwnerResponse { owner: state.owner.clone() }
}

/// The balance of `address` in the native denomination; zero for an address never credited.
pub fn get_balance(state: &State, address: &String) -> (r: GetBalanceResponse)
    requires
        state.wf(),
    ensures
        r.balance.denom@ == native_denom(),
        r.balance.amount == balance(state.balances@, address@),
{
    GetBalanceResponse { balance: Coin { denom: NATIVE_DENOM.to_owned(), amount: state.balances.balance_of(address) } }
}

/// Answers one query.
pub fn query(state: &State, msg: QueryMsg) -> (r: QueryResponse)
    requires
        state.wf(),
    ensures
        match msg {
            QueryMsg::GetOwner {} => r matches QueryResponse::Owner(o) && o.owner@ == state.owner@,
            QueryMsg::GetBalance { address } => r matches QueryResponse::Balance(b)
                && b.balance.denom@ == native_denom()
                && b.balance.amount == balance(state.balances@, address@),
        },
{
    match msg {
        QueryMsg::GetOwner {} => QueryResponse::Owner(get_owner(state)),
        QueryMsg::GetBalance { address } => QueryResponse::Balance(get_balance(state, &address)),
    }
}

/// Split conservation: a deposit of `funded` above the fee raises every account's balance by
/// exactly what the split assigns to it (each receiver `split_share`, the owner the fee, an
/// account named more than once the sum of its parts), leaves every other balance as it was,
/// and hands out in all `2 * split_share + fee`, which is at most `funded` and equal to it
/// exactly when what is left after the fee is even.
pub proof fn lemma_split_conservation(
    m: Map<Seq<char>, u128>,
    owner: Seq<char>,
    fee: u128,
    funded: u128,
    receiver1: Seq<char>,
    receiver2: Seq<char>,
)
    requires
        funded > fee,
        deposit_fits(m, owner, fee, split_share(funded, fee), receiver1, receiver2),
    ensures
        forall|k: Seq<char>|
            #![trigger balance(after_deposit(m, owner, fee, split_share(funded, fee), receiver1, receiver2), k)]
            balance(after_deposit(m, owner, fee, split_share(funded, fee), receiver1, receiver2), k)
                == balance(m, k) + deposit_credit(owner, fee, split_share(funded, fee), receiver1, receiver2, k),
        receiver1 != receiver2 && receiver1 != owner && receiver2 != owner ==> {
            let after = after_deposit(m, owner, fee, split_share(funded, fee), receiver1, receiver2);
            &&& balance(after, receiver1) == balance(m, receiver1) + (funded - fee) / 2
            &&& balance(after, receiver2) == balance(m, receiver2) + (funded - fee) / 2
            &&& balance(after, owner) == balance(m, owner) + fee
        },
        2 * split_share(funded, fee) + fee <= funded,
        2 * split_share(funded, fee) + fee == funded <==> (funded - fee) % 2 == 0,
{
    let share = split_share(funded, fee);
    let m1 = credited(m, receiver1, share);
    let m2 = credited(m1, receiver2, share);
    assert(balance(m1, receiver2) == balance(m, receiver2) + if receiver2 == receiver1 { share } else { 0 });
    assert(balance(m2, owner) == balance(m, owner) + (if owner == receiver1 { share } else { 0 })
        + (if owner == receiver2 { share } else { 0 }));
}

/// Every balance is a non-negative amount that fits in 128 bits, whatever calls came before:
/// the ledger holds only such amounts, and a withdrawal is refused rather than let a balance
/// drop below zero.
pub proof fn lemma_balances_non_negative(state: State, account: Seq<char>)
    requires
        state.wf(),
    ensures
        0 <= balance(state.balances@, account) <= u128::MAX,
{
}

} // verus!
