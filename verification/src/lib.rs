//! Deterministic Ed25519 signing identities for an Algorand-style ledger:
//! seed/mnemonic key management, domain-separated signing of programs, bids
//! and transactions, and aggregation of M-of-N threshold (multisig)
//! signatures with strict merge validation.

pub mod account;
pub mod address;
pub mod crypto;
pub mod errors;
pub mod mnemonic;
pub mod multisig;
pub mod transaction;
