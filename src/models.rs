use vstd::prelude::*;

verus! {

/// A locally tracked account: its public identifier, the key pair that
/// authorizes its transfers, and its cached balance in stroops.
pub struct User {
    pub public_key: String,
    pub keypair: stellar_sdk::Keypair,
    pub balance: u64,
}

/// A confirmed transfer. `timestamp` is in seconds since the Unix epoch.
pub struct Payment {
    pub from: String,
    pub to: String,
    pub amount: u64,
    pub message: String,
    pub timestamp: i64,
}

/// A repeating transfer. `interval` and `next_payment` are in seconds
/// (a length of time and a Unix timestamp).
pub struct RecurringPayment {
    pub from: String,
    pub to: String,
    pub amount: u64,
    pub message: String,
    pub interval: i64,
    pub next_payment: i64,
}

/// Whether the payment has `id` as its sender or its receiver.
pub open spec fn involves(p: Payment, id: Seq<char>) -> bool {
    p.from@ == id || p.to@ == id
}

/// Whether the recurring payment is due at time `now`.
pub open spec fn is_due(r: RecurringPayment, now: i64) -> bool {
    r.next_payment <= now
}

} // verus!
