//! Reading the records of earlier ledgers.
//!
//! Each earlier shape of a record is a type of its own, and each upgrade is
//! a function from the old shape, and the values that it lacks, to the
//! current one.

use crate::gov::msg::VoterInfo;
use crate::gov::states::Config;
use crate::gov::states::State;
use crate::gov::states::TokenManager;
use crate::math::Decimal;

use vstd::prelude::*;

verus! {

/// The totals before the total of the unbonding claims was kept.
#[derive(Clone, Debug, PartialEq)]
pub struct LegacyState {
    pub poll_count: u64,
    pub total_share: u128,
    pub total_deposit: u128,
    pub total_airdrop_count: u64,
    pub airdrop_update_candidates: Vec<u64>,
}

/// The configuration before there was an unstaking period.
#[derive(Clone, Debug, PartialEq)]
pub struct LegacyConfig {
    pub owner: String,
    pub pylon_token: String,
    pub quorum: Decimal,
    pub threshold: Decimal,
    pub voting_period: u64,
    pub timelock_period: u64,
    pub expiration_period: u64,
    pub proposal_deposit: u128,
    pub snapshot_period: u64,
}

/// The account of a staker as it may still be stored: the claim ids may be
/// missing.
#[derive(Clone, Debug, PartialEq)]
pub struct LegacyTokenManager {
    pub share: u128,
    pub latest_claim_id: Option<u64>,
    pub last_unlocked_claim_id: Option<u64>,
    pub locked_balance: Vec<(u64, VoterInfo)>,
}

/// The totals of an upgraded ledger: those of the old one, and
/// `total_unbondings` as given.
pub fn state(legacy: LegacyState, total_unbondings: u128) -> (r: State)
    ensures
        r == (State {
            poll_count: legacy.poll_count,
            total_share: legacy.total_share,
            total_deposit: legacy.total_deposit,
            total_unbondings,
            total_airdrop_count: legacy.total_airdrop_count,
            airdrop_update_candidates: legacy.airdrop_update_candidates,
        }),
{
    State {
        poll_count: legacy.poll_count,
        total_share: legacy.total_share,
        total_deposit: legacy.total_deposit,
        total_unbondings,
        total_airdrop_count: legacy.total_airdrop_count,
        airdrop_update_candidates: legacy.airdrop_update_candidates,
    }
}

/// The configuration of an upgraded ledger: that of the old one, and
/// `unstaking_period` as given.
pub fn migrate(legacy: LegacyConfig, unstaking_period: u64) -> (r: Config)
    ensures
        r == (Config {
            owner: legacy.owner,
            pylon_token: legacy.pylon_token,
            quorum: legacy.quorum,
            threshold: legacy.threshold,
            voting_period: legacy.voting_period,
            timelock_period: legacy.timelock_period,
            expiration_period: legacy.expiration_period,
            proposal_deposit: legacy.proposal_deposit,
            snapshot_period: legacy.snapshot_period,
            unstaking_period,
        }),
{
    Config {
        owner: legacy.owner,
        pylon_token: legacy.pylon_token,
        quorum: legacy.quorum,
        threshold: legacy.threshold,
        voting_period: legacy.voting_period,
        timelock_period: legacy.timelock_period,
        expiration_period: legacy.expiration_period,
        proposal_deposit: legacy.proposal_deposit,
        snapshot_period: legacy.snapshot_period,
        unstaking_period,
    }
}

/// The account of a staker in the current shape: a missing claim id is
/// zero.
pub fn token_manager(legacy: LegacyTokenManager) -> (r: TokenManager)
    ensures
        r == (TokenManager {
            share: legacy.share,
            latest_claim_id: match legacy.latest_claim_id {
                Some(v) => v,
                None => 0,
            },
            last_unlocked_claim_id: match legacy.last_unlocked_claim_id {
                Some(v) => v,
                None => 0,
            },
            locked_balance: legacy.locked_balance,
        }),
{
    TokenManager {
        share: legacy.share,
        latest_claim_id: match legacy.latest_claim_id {
            Some(v) => v,
            None => 0,
        },
        last_unlocked_claim_id: match legacy.last_unlocked_claim_id {
            Some(v) => v,
            None => 0,
        },
        locked_balance: legacy.locked_balance,
    }
}

} // verus!
