//! Governance: stake ledger, unbonding claims, vote locks, polls and airdrops.

pub mod airdrop;
pub mod entrypoints;
pub mod executions;
pub mod migrations;
pub mod msg;
pub mod poll;
pub mod queries;
pub mod staking;
pub mod states;
pub mod testing;
