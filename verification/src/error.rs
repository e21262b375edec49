//! Typed failures of the state machine.

use vstd::prelude::*;

verus! {

/// Every way a transition or query can be refused. Failures never
/// commit any state change.
#[derive(Clone, Copy, Debug, PartialEq, Eq, Structural)]
pub enum ContractError {
    /// The caller is not the administrator.
    Unauthorized,
    /// A quantity that must be positive was zero.
    InvalidZeroAmount,
    /// A price that must be positive was zero.
    InvalidZeroPrice,
    /// Issuing would push the total supply above the cap.
    CannotExceedCap,
    /// The catalog already holds an entry under this name.
    IsAlreadyInVendingMachine,
    /// The stock would exceed the maximum capacity.
    AmountTooBig,
    /// No catalog entry under this name.
    BeverageNotFound,
    /// The entry exists but its stock is zero.
    OutOfStock,
    /// The tendered funds or recorded balance are below the price.
    NotEnoughTokens,
    /// The payment is denominated in an unexpected token.
    WrongToken,
    /// A catalog name must be non-empty.
    InvalidName,
    /// A malformed account identity.
    InvalidRecipient,
    /// The operation does not exist in the configured treasury mode.
    WrongMode,
    /// A counter would exceed its machine representation.
    Overflow,
    /// The underlying key-value store failed.
    StorageError,
}

impl ContractError {
    /// Stable, human-readable rendering of each failure kind.
    pub fn message(&self) -> &'static str {
        match self {
            ContractError::Unauthorized => "Unauthorized",
            ContractError::InvalidZeroAmount => "Invalid zero amount",
            ContractError::InvalidZeroPrice => "Invalid zero price",
            ContractError::CannotExceedCap => "Minting cannot exceed the cap",
            ContractError::IsAlreadyInVendingMachine => "Beverage is already in vending machine",
            ContractError::AmountTooBig => "Beverage amount cannot be more than 50",
            ContractError::BeverageNotFound => "Beverage not found",
            ContractError::OutOfStock => "Out of stock",
            ContractError::NotEnoughTokens => "Not enough tokens",
            ContractError::WrongToken => "Wrong token",
            ContractError::InvalidName => "Invalid beverage name",
            ContractError::InvalidRecipient => "Invalid recipient address",
            ContractError::WrongMode => "Operation not available in this treasury mode",
            ContractError::Overflow => "Counter overflow",
            ContractError::StorageError => "Storage error",
        }
    }
}

} // verus!
