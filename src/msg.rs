use vstd::prelude::*;

verus! {

/// The one denomination the ledger counts.
pub const NATIVE_DENOM: &'static str = "usei";

/// The denomination as characters.
pub open spec fn native_denom() -> Seq<char> {
    NATIVE_DENOM@
}

/// An amount of one denomination.
#[derive(Debug, Clone, PartialEq, Eq)]
pub struct Coin {
    pub denom: String,
    pub amount: u128,
}

/// Who made a call, and the coins the host attached to it.
#[derive(Debug, Clone, PartialEq, Eq)]
pub struct MessageInfo {
    pub sender: String,
    pub funds: Vec<Coin>,
}

#[derive(Debug, Clone, PartialEq, Eq)]
pub struct InstantiateMsg {
    pub owner: String,
    pub fixed_fee: u128,
}

#[derive(Debug, Clone, PartialEq, Eq)]
pub enum ExecuteMsg {
    /// Deposit the attached native coins, less the fee, in equal shares to two receivers.
    SendDuo { receiver1: String, receiver2: String },
    /// Withdraw `amount` of the caller's balance.
    Withdraw { amount: u128 },
}

#[derive(Debug, Clone, PartialEq, Eq)]
pub enum QueryMsg {
    GetOwner {},
    GetBalance { address: String },
}

#[derive(Debug, Clone, PartialEq, Eq)]
pub struct GetOwnerResponse {
    pub owner: String,
}

#[derive(Debug, Clone, PartialEq, Eq)]
pub struct GetBalanceResponse {
    pub balance: Coin,
}

#[derive(Debug, Clone, PartialEq, Eq)]
pub enum QueryResponse {
    Owner(GetOwnerResponse),
    Balance(GetBalanceResponse),
}

/// An instruction to the host: pay `amount` of the native denomination to `to_address`.
#[derive(Debug, Clone, PartialEq, Eq)]
pub struct TransferInstruction {
    pub to_address: String,
    pub amount: u128,
}

/// What a successful call hands back to the host: the transfers it must carry out.
#[derive(Debug, Clone, PartialEq, Eq)]
pub struct Response {
    pub messages: Vec<TransferInstruction>,
}

} // verus!
