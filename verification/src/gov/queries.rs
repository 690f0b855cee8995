//! The queries of the ledger. None of them changes it.

pub mod airdrop;
pub mod bank;
pub mod poll;
