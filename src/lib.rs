//! Custody and conditional disbursement of token balances: single-bounty
//! escrows with timed release schedules and batch operations, and a shared
//! payout pool for programs that pay many recipients.
//!
//! Every operation is a state transition on an in-memory model of the
//! contract's storage. Token movements, authorization signatures, clocks and
//! event emission belong to the host; operations receive the caller and the
//! ledger time as plain values and return the transfers the host must make.

mod address;
pub mod bounty_escrow;
pub mod metadata;
pub mod program_escrow;

pub use address::Address;
