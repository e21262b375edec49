//! Request and response types of the machine's external interface.
//!
//! All identities and catalog names are byte strings; amounts are plain
//! unsigned integers. Host-side encodings are translated into these
//! types before a transition runs.

use vstd::prelude::*;

use crate::state::BeverageInfo;

verus! {

/// Treasury choice made once at instantiation.
pub enum TreasurySetup {
    /// Sales are paid in the token deployed at `token_addr`.
    External { token_addr: Vec<u8> },
    /// The machine issues its own token, capped at `supply_cap`.
    SelfIssued { supply_cap: u128 },
}

pub struct InstantiateMsg {
    pub treasury: TreasurySetup,
}

/// Funds tendered with a purchase: an amount of a given token.
pub struct Payment {
    pub token_addr: Vec<u8>,
    pub amount: u128,
}

/// Decoded hook message carried by an inbound token transfer.
pub enum ReceiveMsg {
    BuyBeverage { name: Vec<u8> },
}

/// Hook message a buyer attaches to a token send.
pub struct Cw20HookMsg {
    pub beverage_name: Vec<u8>,
}

pub enum ExecuteMsg {
    AddBeverage { name: Vec<u8>, amount: u64, price: u128 },
    SetPrice { name: Vec<u8>, price: u128 },
    FillUpBeverage { name: Vec<u8>, amount: u64 },
    BuyBeverage { name: Vec<u8> },
    Receive { sender: Vec<u8>, amount: u128, msg: ReceiveMsg },
    Withdraw { amount: u128 },
    GiveTokens { address: Vec<u8>, tokens: u128 },
}

pub enum QueryMsg {
    BeverageList { offset: Option<Vec<u8>>, limit: Option<u32> },
}

pub struct AllBeveragesDetails {
    pub name: Vec<u8>,
    pub amount: u64,
    pub price: u128,
}

pub struct AllBeveragesResponse {
    pub beverages: Vec<AllBeveragesDetails>,
}

/// Instruction to the external token ledger, attached to a successful
/// withdrawal; the host performs the actual transfer.
#[derive(Debug, PartialEq, Eq)]
pub struct TransferInstruction {
    pub token_addr: Vec<u8>,
    pub recipient: Vec<u8>,
    pub amount: u128,
}

/// Successful outcome of a transition, carrying the attributes the
/// caller is told and any deferred instruction.
#[derive(Debug, PartialEq, Eq)]
pub enum Response {
    Added { name: Vec<u8>, amount: u64, price: u128 },
    Repriced { name: Vec<u8>, price: u128 },
    Refilled { name: Vec<u8>, amount: u64 },
    Purchased { name: Vec<u8> },
    Withdrawn { amount: u128, transfer: Option<TransferInstruction> },
    Granted { address: Vec<u8>, balance: u128 },
}

/// A record as a query reports it.
impl AllBeveragesDetails {
    pub open spec fn matches_entry(self, name: Seq<u8>, info: BeverageInfo) -> bool {
        self.name@ == name && self.amount == info.amount && self.price == info.price
    }
}

} // verus!
