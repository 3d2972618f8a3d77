//! In-memory bookkeeping for a payment client on the Stellar network: an
//! account ledger, an append-only payment log and a schedule of recurring
//! payments. Submitting transactions is left to the caller; the library
//! decides what is sent and records what the network confirmed.
//!
//! Amounts are whole stroops and times are seconds since the Unix epoch.
//!
//! A transfer is not atomic across the network and the local books: the
//! network confirms first and the books are updated afterwards, so a process
//! that stops in between leaves the books short of a transfer that happened.
//! Nothing here reconciles the two.
use vstd::prelude::*;

pub mod error;
pub mod external;
pub mod laws;
pub mod models;
pub mod payment_system;

verus! {

} // verus!
