use vstd::prelude::*;

verus! {

/// Why a ledger or payment operation did not go through.
#[derive(Debug, Clone, Copy, PartialEq, Eq, Structural)]
pub enum PaymentError {
    /// No account is registered under the identifier.
    UserNotFound,
    /// The sender's balance is below the amount.
    InsufficientBalance,
    /// Key material could not be decoded into a key.
    InvalidKey,
    /// The network did not confirm the transfer.
    TransactionFailed,
}

impl PaymentError {
    /// A short human-readable description.
    pub fn message(&self) -> (r: &'static str) {
        match self {
            PaymentError::UserNotFound => "User not found",
            PaymentError::InsufficientBalance => "Insufficient balance",
            PaymentError::InvalidKey => "Invalid key",
            PaymentError::TransactionFailed => "Transaction failed",
        }
    }
}

} // verus!
