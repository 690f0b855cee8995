//! The commands and queries of reward staking.

use crate::common::Attribute;
use crate::math::Decimal;

use vstd::prelude::*;

verus! {

/// What the pool is created with.
#[derive(Clone, Debug, PartialEq)]
pub struct InstantiateMsg {
    pub governance: String,
    pub pylon_token: String,
    pub staking_token: String,
    pub distribution_schedule: Vec<(u64, u64, u128)>,
}

/// What arrives together with a transfer of staking tokens.
#[derive(Clone, Copy, Debug, PartialEq, Eq, Structural)]
pub enum Cw20HookMsg {
    Bond,
}

/// A transfer of tokens to the pool, as the token reports it.
#[derive(Clone, Debug, PartialEq)]
pub struct Cw20ReceiveMsg {
    /// Who sent the tokens.
    pub sender: String,
    pub amount: u128,
    /// The request that came with the tokens, if one could be read.
    pub msg: Option<Cw20HookMsg>,
}

/// The commands.
#[derive(Clone, Debug, PartialEq)]
pub enum ExecuteMsg {
    Receive(Cw20ReceiveMsg),
    Unbond { amount: u128 },
    /// Withdraw the pending reward.
    Withdraw,
    MigrateStaking { new_staking_contract: String },
}

/// The upgrade of a pool from its first record shapes.
#[derive(Clone, Debug, PartialEq)]
pub enum MigrateMsg {
    Migrate { governance: String },
    General,
}

/// The queries.
#[derive(Clone, Debug, PartialEq)]
pub enum QueryMsg {
    Config,
    State { token_version: Option<u64>, block_height: Option<u64> },
    StakerInfo { staker: String, block_height: Option<u64> },
}

#[derive(Clone, Debug, PartialEq)]
pub struct ConfigResponse {
    pub pylon_token: String,
    pub staking_token: Vec<String>,
    pub distribution_schedule: Vec<(u64, u64, u128)>,
}

#[derive(Clone, Copy, Debug, PartialEq, Eq, Structural)]
pub struct StateResponse {
    pub halted: bool,
    pub started_at: u64,
    pub last_distributed: u64,
    pub total_bond_amount: u128,
    pub global_reward_index: Decimal,
}

#[derive(Clone, Debug, PartialEq)]
pub struct StakerInfoResponse {
    pub staker: String,
    pub staking_token_version: u64,
    pub reward_index: Decimal,
    pub bond_amount: u128,
    pub pending_reward: u128,
}

/// A transfer of `amount` of `token` from the pool to `recipient`, for the
/// host to make.
#[derive(Clone, Debug, PartialEq)]
pub struct Transfer {
    pub token: String,
    pub recipient: String,
    pub amount: u128,
}

/// The outcome of a command: the transfers that the host has to make, and a
/// description of what was done.
#[derive(Clone, Debug, PartialEq)]
pub struct Response {
    pub messages: Vec<Transfer>,
    pub attributes: Vec<Attribute>,
}

impl Response {
    /// The outcome of a command that asks nothing of the host.
    pub fn new() -> (r: Response)
        ensures
            r.messages@.len() == 0,
            r.attributes@.len() == 0,
    {
        Response { messages: Vec::new(), attributes: Vec::new() }
    }
}

} // verus!
