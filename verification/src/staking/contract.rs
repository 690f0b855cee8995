//! The operations of reward staking.
//!
//! Rewards follow a schedule of slots. Whenever a staker bonds, unbonds or
//! withdraws, the rewards of the blocks since the last distribution are
//! spread over the bonded tokens by raising the global reward index, and the
//! staker is credited with the rise since the staker's own index.

use crate::common::Attribute;
use crate::common::attr;
use crate::common::attr_number;
use crate::error::ContractError;
use crate::math::Decimal;
use crate::math::ratio_error;
use crate::math::spec_ratio_error;
use crate::staking::msg::ConfigResponse;
use crate::staking::msg::Cw20HookMsg;
use crate::staking::msg::Cw20ReceiveMsg;
use crate::staking::msg::ExecuteMsg;
use crate::staking::msg::InstantiateMsg;
use crate::staking::msg::QueryMsg;
use crate::staking::msg::Response;
use crate::staking::msg::StakerInfoResponse;
use crate::staking::msg::StateResponse;
use crate::staking::msg::Transfer;
use crate::staking::state::ConfigV1;
use crate::staking::state::ConfigV2;
use crate::staking::state::StakerInfoV1;
use crate::staking::state::StakerInfoV2;
use crate::staking::state::StateV1;
use crate::staking::state::StateV2;
use crate::staking::state::Storage;
use crate::staking::state::current_version;
use crate::staking::state::fresh_state;
use crate::staking::state::has_info;
use crate::staking::state::info_index;
use crate::staking::state::read_staker_info;
use crate::staking::state::read_state;
use crate::staking::state::remove_staker_info;
use crate::staking::state::spec_current_version;
use crate::staking::state::spec_fresh_state;
use crate::staking::state::spec_read_staker_info;
use crate::staking::state::spec_read_state;
use crate::staking::state::spec_stored_staker_info;
use crate::staking::state::store_staker_info;
use crate::staking::state::store_state;
use crate::staking::state::upgrade_config;
use crate::staking::state::upgrade_state;

use crate::common::is_number;
use crate::common::is_text;
use vstd::prelude::*;

verus! {

/// The larger of two heights.
pub open spec fn spec_later(a: u64, b: u64) -> u64 {
    if a >= b { a } else { b }
}

/// The smaller of two heights.
pub open spec fn spec_earlier(a: u64, b: u64) -> u64 {
    if a <= b { a } else { b }
}

/// What a slot hands out per block: its amount over its length.
pub open spec fn spec_slot_rate(slot: (u64, u64, u128)) -> Result<Decimal, ContractError> {
    if slot.1 < slot.0 {
        Err(ContractError::Underflow)
    } else {
        match Decimal::spec_from_ratio(slot.2, (slot.1 - slot.0) as u128) {
            Ok(rate) => Ok(rate),
            Err(e) => Err(spec_ratio_error(e)),
        }
    }
}

/// What a slot distributes over its first `blocks` blocks: `blocks` times
/// its rate, rounded down.
pub open spec fn spec_slot_amount(slot: (u64, u64, u128), blocks: u64) -> Result<u128, ContractError> {
    match spec_slot_rate(slot) {
        Err(e) => Err(e),
        Ok(rate) => match rate.spec_mul_floor(blocks as u128) {
            Ok(v) => Ok(v),
            Err(e) => Err(spec_ratio_error(e)),
        },
    }
}

/// What a slot distributes between `last_distributed` and `height`: nothing
/// if it starts after `height` or ends before `last_distributed`, else its
/// rate times the number of its blocks in between.
pub open spec fn spec_slot_reward(slot: (u64, u64, u128), last_distributed: u64, height: u64) -> Result<
    u128,
    ContractError,
> {
    if slot.0 > height || slot.1 < last_distributed {
        Ok(0)
    } else if spec_earlier(slot.1, height) < spec_later(slot.0, last_distributed) {
        Err(ContractError::Underflow)
    } else {
        spec_slot_amount(slot, (spec_earlier(slot.1, height) - spec_later(slot.0, last_distributed)) as u64)
    }
}

/// What the schedule distributes between `last_distributed` and `height`:
/// the sum over its slots.
pub open spec fn spec_distributed(schedule: Seq<(u64, u64, u128)>, last_distributed: u64, height: u64) -> Result<
    u128,
    ContractError,
>
    decreases schedule.len(),
{
    if schedule.len() == 0 {
        Ok(0)
    } else {
        match spec_distributed(schedule.drop_last(), last_distributed, height) {
            Err(e) => Err(e),
            Ok(sum) => match spec_slot_reward(schedule.last(), last_distributed, height) {
                Err(e) => Err(e),
                Ok(v) => if sum + v > u128::MAX {
                    Err(ContractError::Overflow)
                } else {
                    Ok((sum + v) as u128)
                },
            },
        }
    }
}

/// The totals after the rewards up to `height` have been distributed. A
/// halted version stays as it is. While nothing is bonded, the height
/// advances and the index stays: the rewards of that time go to nobody.
/// Else the index rises by what was distributed, per bonded token.
pub open spec fn spec_compute_reward(config: ConfigV2, state: StateV2, height: u64) -> Result<StateV2, ContractError> {
    if state.halted {
        Ok(state)
    } else if state.total_bond_amount == 0 {
        Ok(StateV2 { last_distributed: height, ..state })
    } else {
        match spec_distributed(config.distribution_schedule@, state.last_distributed, height) {
            Err(e) => Err(e),
            Ok(distributed) => match Decimal::spec_from_ratio(distributed, state.total_bond_amount) {
                Err(e) => Err(spec_ratio_error(e)),
                Ok(rise) => if state.global_reward_index.atomics + rise.atomics > u128::MAX {
                    Err(ContractError::Overflow)
                } else {
                    Ok(
                        StateV2 {
                            last_distributed: height,
                            global_reward_index: Decimal {
                                atomics: (state.global_reward_index.atomics + rise.atomics) as u128,
                            },
                            ..state
                        },
                    )
                },
            },
        }
    }
}

/// What a slot distributes over its first `blocks` blocks.
pub fn slot_amount(slot: (u64, u64, u128), blocks: u64) -> (r: Result<u128, ContractError>)
    ensures
        r == spec_slot_amount(slot, blocks),
{
    if slot.1 < slot.0 {
        return Err(ContractError::Underflow);
    }
    let num_blocks: u64 = slot.1 - slot.0;
    let rate: Decimal = match Decimal::from_ratio(slot.2, num_blocks as u128) {
        Ok(v) => v,
        Err(e) => { return Err(ratio_error(e)); },
    };
    match rate.mul_floor(blocks as u128) {
        Ok(v) => Ok(v),
        Err(e) => Err(ratio_error(e)),
    }
}

/// What a slot distributes between `last_distributed` and `height`.
pub fn slot_reward(slot: (u64, u64, u128), last_distributed: u64, height: u64) -> (r: Result<u128, ContractError>)
    ensures
        r == spec_slot_reward(slot, last_distributed, height),
{
    if slot.0 > height || slot.1 < last_distributed {
        return Ok(0);
    }
    let until: u64 = if slot.1 <= height { slot.1 } else { height };
    let from: u64 = if slot.0 >= last_distributed { slot.0 } else { last_distributed };
    if until < from {
        return Err(ContractError::Underflow);
    }
    slot_amount(slot, until - from)
}

/// Distributes the rewards of the schedule up to `block_height`: raises the
/// global reward index of `state` by what the slots hand out since the last
/// distribution, per bonded token. On failure nothing changes.
pub fn compute_reward(config: &ConfigV2, state: &mut StateV2, block_height: u64) -> (r: Result<(), ContractError>)
    ensures
        match spec_compute_reward(*config, *old(state), block_height) {
            Ok(s) => r == Ok::<(), ContractError>(()) && *final(state) == s,
            Err(e) => r == Err::<(), ContractError>(e) && *final(state) == *old(state),
        },
{
    if state.halted {
        return Ok(());
    }
    if state.total_bond_amount == 0 {
        state.last_distributed = block_height;
        return Ok(());
    }
    let mut distributed: u128 = 0;
    let mut i: usize = 0;
    while i < config.distribution_schedule.len()
        invariant
            i <= config.distribution_schedule.len(),
            *state == *old(state),
            !state.halted,
            state.total_bond_amount != 0,
            spec_distributed(config.distribution_schedule@.take(i as int), state.last_distributed, block_height)
                == Ok::<u128, ContractError>(distributed),
        decreases config.distribution_schedule.len() - i,
    {
        let slot: (u64, u64, u128) = config.distribution_schedule[i];
        proof {
            let next = config.distribution_schedule@.take(i + 1);
            assert(next.drop_last() =~= config.distribution_schedule@.take(i as int));
            assert(next.last() == slot);
        }
        let reward: u128 = match slot_reward(slot, state.last_distributed, block_height) {
            Ok(v) => v,
            Err(e) => {
                proof {
                    let next = config.distribution_schedule@.take(i + 1);
                    assert(spec_distributed(next, state.last_distributed, block_height) == Err::<u128, ContractError>(e));
                    lemma_distributed_fails_on(
                        config.distribution_schedule@,
                        state.last_distributed,
                        block_height,
                        i + 1,
                    );
                }
                return Err(e);
            },
        };
        distributed = match distributed.checked_add(reward) {
            Some(v) => v,
            None => {
                proof {
                    let next = config.distribution_schedule@.take(i + 1);
                    assert(spec_distributed(next, state.last_distributed, block_height) == Err::<u128, ContractError>(
                        ContractError::Overflow,
                    ));
                    lemma_distributed_fails_on(
                        config.distribution_schedule@,
                        state.last_distributed,
                        block_height,
                        i + 1,
                    );
                }
                return Err(ContractError::Overflow);
            },
        };
        i += 1;
    }
    proof {
        assert(config.distribution_schedule@.take(i as int) =~= config.distribution_schedule@);
    }
    let rise: Decimal = match Decimal::from_ratio(distributed, state.total_bond_amount) {
        Ok(v) => v,
        Err(e) => { return Err(ratio_error(e)); },
    };
    let index: Decimal = match state.global_reward_index.checked_add(rise) {
        Some(v) => v,
        None => { return Err(ContractError::Overflow); },
    };
    state.last_distributed = block_height;
    state.global_reward_index = index;
    Ok(())
}

/// A schedule whose first `n` slots fail to add up fails as a whole, in the
/// same way.
pub proof fn lemma_distributed_fails_on(schedule: Seq<(u64, u64, u128)>, last_distributed: u64, height: u64, n: int)
    requires
        0 <= n <= schedule.len(),
        spec_distributed(schedule.take(n), last_distributed, height) is Err,
    ensures
        spec_distributed(schedule, last_distributed, height) == spec_distributed(
            schedule.take(n),
            last_distributed,
            height,
        ),
    decreases schedule.len() - n,
{
    if n < schedule.len() {
        assert(schedule.take(n + 1).drop_last() =~= schedule.take(n));
        lemma_distributed_fails_on(schedule, last_distributed, height, n + 1);
    } else {
        assert(schedule.take(n) =~= schedule);
    }
}

/// The record of a staker after the rise of the global index since the
/// staker's own index has been credited:
/// `pending_reward += bond_amount * global_index - bond_amount * reward_index`,
/// each product rounded down.
pub open spec fn spec_compute_staker_reward(state: StateV2, staker_info: StakerInfoV2) -> Result<
    StakerInfoV2,
    ContractError,
> {
    match state.global_reward_index.spec_mul_floor(staker_info.bond_amount) {
        Err(e) => Err(spec_ratio_error(e)),
        Ok(earned) => match staker_info.reward_index.spec_mul_floor(staker_info.bond_amount) {
            Err(e) => Err(spec_ratio_error(e)),
            Ok(paid) => if earned < paid {
                Err(ContractError::Underflow)
            } else if staker_info.pending_reward + (earned - paid) > u128::MAX {
                Err(ContractError::Overflow)
            } else {
                Ok(
                    StakerInfoV2 {
                        reward_index: state.global_reward_index,
                        pending_reward: (staker_info.pending_reward + (earned - paid)) as u128,
                        ..staker_info
                    },
                )
            },
        },
    }
}

/// Credits to the staker what the bonded amount has earned since the staker
/// was last settled. On failure nothing changes.
pub fn compute_staker_reward(state: &StateV2, staker_info: &mut StakerInfoV2) -> (r: Result<(), ContractError>)
    ensures
        match spec_compute_staker_reward(*state, *old(staker_info)) {
            Ok(s) => r == Ok::<(), ContractError>(()) && *final(staker_info) == s,
            Err(e) => r == Err::<(), ContractError>(e) && *final(staker_info) == *old(staker_info),
        },
{
    let earned: u128 = match state.global_reward_index.mul_floor(staker_info.bond_amount) {
        Ok(v) => v,
        Err(e) => { return Err(ratio_error(e)); },
    };
    let paid: u128 = match staker_info.reward_index.mul_floor(staker_info.bond_amount) {
        Ok(v) => v,
        Err(e) => { return Err(ratio_error(e)); },
    };
    let pending: u128 = match earned.checked_sub(paid) {
        Some(v) => v,
        None => { return Err(ContractError::Underflow); },
    };
    let total: u128 = match staker_info.pending_reward.checked_add(pending) {
        Some(v) => v,
        None => { return Err(ContractError::Overflow); },
    };
    staker_info.reward_index = state.global_reward_index;
    staker_info.pending_reward = total;
    Ok(())
}

/// Adds `amount` to the bonded amount of the staker and of the pool.
pub fn increase_bond_amount(state: &mut StateV2, staker_info: &mut StakerInfoV2, amount: u128) -> (r: Result<
    (),
    ContractError,
>)
    ensures
        r == (if old(state).total_bond_amount + amount > u128::MAX || old(staker_info).bond_amount + amount
            > u128::MAX {
            Err::<(), ContractError>(ContractError::Overflow)
        } else {
            Ok::<(), ContractError>(())
        }),
        match r {
            Ok(_) => {
                &&& *final(state) == (StateV2 {
                    total_bond_amount: (old(state).total_bond_amount + amount) as u128,
                    ..*old(state)
                })
                &&& *final(staker_info) == (StakerInfoV2 {
                    bond_amount: (old(staker_info).bond_amount + amount) as u128,
                    ..*old(staker_info)
                })
            },
            Err(_) => *final(state) == *old(state) && *final(staker_info) == *old(staker_info),
        },
{
    let total: u128 = match state.total_bond_amount.checked_add(amount) {
        Some(v) => v,
        None => { return Err(ContractError::Overflow); },
    };
    let bonded: u128 = match staker_info.bond_amount.checked_add(amount) {
        Some(v) => v,
        None => { return Err(ContractError::Overflow); },
    };
    state.total_bond_amount = total;
    staker_info.bond_amount = bonded;
    Ok(())
}

/// Takes `amount` from the bonded amount of the staker and of the pool.
pub fn decrease_bond_amount(state: &mut StateV2, staker_info: &mut StakerInfoV2, amount: u128) -> (r: Result<
    (),
    ContractError,
>)
    ensures
        r == (if old(state).total_bond_amount < amount || old(staker_info).bond_amount < amount {
            Err::<(), ContractError>(ContractError::Underflow)
        } else {
            Ok::<(), ContractError>(())
        }),
        match r {
            Ok(_) => {
                &&& *final(state) == (StateV2 {
                    total_bond_amount: (old(state).total_bond_amount - amount) as u128,
                    ..*old(state)
                })
                &&& *final(staker_info) == (StakerInfoV2 {
                    bond_amount: (old(staker_info).bond_amount - amount) as u128,
                    ..*old(staker_info)
                })
            },
            Err(_) => *final(state) == *old(state) && *final(staker_info) == *old(staker_info),
        },
{
    let total: u128 = match state.total_bond_amount.checked_sub(amount) {
        Some(v) => v,
        None => { return Err(ContractError::Underflow); },
    };
    let bonded: u128 = match staker_info.bond_amount.checked_sub(amount) {
        Some(v) => v,
        None => { return Err(ContractError::Underflow); },
    };
    state.total_bond_amount = total;
    staker_info.bond_amount = bonded;
    Ok(())
}

/// Creates a pool for one staking token, at `height`: version zero starts
/// there with nothing bonded and the reward index at zero.
pub fn instantiate(height: u64, msg: InstantiateMsg) -> (r: Storage)
    ensures
        r.config.governance == msg.governance,
        r.config.pylon_token == msg.pylon_token,
        r.config.staking_token@ == seq![msg.staking_token],
        r.config.distribution_schedule == msg.distribution_schedule,
        r.states@ == seq![spec_fresh_state(height)],
        r.stakers@.len() == 0,
{
    let mut staking_token: Vec<String> = Vec::new();
    staking_token.push(msg.staking_token);
    let mut states: Vec<StateV2> = Vec::new();
    states.push(fresh_state(height));
    Storage {
        config: ConfigV2 {
            governance: msg.governance,
            pylon_token: msg.pylon_token,
            staking_token,
            distribution_schedule: msg.distribution_schedule,
        },
        states,
        stakers: Vec::new(),
    }
}

/// What is left of a stake in a replaced staking token: the totals of that
/// version without the stake, and the amount to give back.
#[derive(Clone, Copy, Debug, PartialEq, Eq, Structural)]
pub struct LegacyExit {
    pub version: u64,
    pub state: StateV2,
    pub returned: u128,
}

/// What a command of a staker changes.
#[derive(Clone, Copy, Debug, PartialEq, Eq, Structural)]
pub struct Outcome {
    /// Set where the staker was moved out of a replaced staking token.
    pub legacy: Option<LegacyExit>,
    /// The version of the current staking token.
    pub version: u64,
    /// The new totals of that version.
    pub state: StateV2,
    /// The new record of the staker.
    pub staker_info: StakerInfoV2,
}

/// Moves a staker whose record is of another version than `version` out of
/// that version: the staker is credited with the rewards of that version,
/// the whole stake is unbonded, and the record changes to `version`. A
/// staker of `version` stays as it is.
pub open spec fn spec_leave_legacy(states: Seq<StateV2>, staker_info: StakerInfoV2, version: u64) -> Result<
    (Option<LegacyExit>, StakerInfoV2),
    ContractError,
> {
    if staker_info.staking_token_version == version {
        Ok((None, staker_info))
    } else {
        match spec_read_state(states, staker_info.staking_token_version) {
            Err(e) => Err(e),
            Ok(legacy_state) => match spec_compute_staker_reward(legacy_state, staker_info) {
                Err(e) => Err(e),
                Ok(settled) => if legacy_state.total_bond_amount < settled.bond_amount {
                    Err(ContractError::Underflow)
                } else {
                    Ok(
                        (
                            Some(
                                LegacyExit {
                                    version: staker_info.staking_token_version,
                                    state: StateV2 {
                                        total_bond_amount: (legacy_state.total_bond_amount
                                            - settled.bond_amount) as u128,
                                        ..legacy_state
                                    },
                                    returned: settled.bond_amount,
                                },
                            ),
                            StakerInfoV2 { bond_amount: 0, staking_token_version: version, ..settled },
                        ),
                    )
                },
            },
        }
    }
}

/// Moves a staker out of a replaced staking token, if the record is of one.
pub fn leave_legacy(states: &Vec<StateV2>, staker_info: StakerInfoV2, version: u64) -> (r: Result<
    (Option<LegacyExit>, StakerInfoV2),
    ContractError,
>)
    ensures
        r == spec_leave_legacy(states@, staker_info, version),
{
    if staker_info.staking_token_version == version {
        return Ok((None, staker_info));
    }
    if staker_info.staking_token_version >= states.len() as u64 {
        return Err(ContractError::NotFound);
    }
    let mut legacy_state: StateV2 = states[staker_info.staking_token_version as usize];
    let mut settled: StakerInfoV2 = staker_info;
    match compute_staker_reward(&legacy_state, &mut settled) {
        Ok(_) => {},
        Err(e) => { return Err(e); },
    }
    let returned: u128 = settled.bond_amount;
    match decrease_bond_amount(&mut legacy_state, &mut settled, returned) {
        Ok(_) => {},
        Err(e) => { return Err(e); },
    }
    settled.staking_token_version = version;
    Ok((Some(LegacyExit { version: staker_info.staking_token_version, state: legacy_state, returned }), settled))
}

/// What every command of a staker does first, at `height`: a staker whose
/// record is of a replaced staking token is moved out of it; then the
/// rewards of the current version up to `height` are distributed, and the
/// staker is credited.
pub open spec fn spec_arrive(config: ConfigV2, states: Seq<StateV2>, staker_info: StakerInfoV2, height: u64) -> Result<
    Outcome,
    ContractError,
> {
    match spec_current_version(config) {
        Err(e) => Err(e),
        Ok(version) => match spec_read_state(states, version) {
            Err(e) => Err(e),
            Ok(state) => match spec_leave_legacy(states, staker_info, version) {
                Err(e) => Err(e),
                Ok((legacy, moved)) => match spec_compute_reward(config, state, height) {
                    Err(e) => Err(e),
                    Ok(distributed) => match spec_compute_staker_reward(distributed, moved) {
                        Err(e) => Err(e),
                        Ok(settled) => if legacy is Some && legacy->Some_0.version >= config.staking_token@.len() {
                            Err(ContractError::NotFound)
                        } else {
                            Ok(Outcome { legacy, version, state: distributed, staker_info: settled })
                        },
                    },
                },
            },
        }
    }
}

/// What every command of a staker does first.
pub fn arrive(config: &ConfigV2, states: &Vec<StateV2>, staker_info: StakerInfoV2, height: u64) -> (r: Result<
    Outcome,
    ContractError,
>)
    ensures
        r == spec_arrive(*config, states@, staker_info, height),
{
    let version: u64 = match current_version(config) {
        Ok(v) => v,
        Err(e) => { return Err(e); },
    };
    if version >= states.len() as u64 {
        return Err(ContractError::NotFound);
    }
    let mut state: StateV2 = states[version as usize];
    let (legacy, moved): (Option<LegacyExit>, StakerInfoV2) = match leave_legacy(states, staker_info, version) {
        Ok(v) => v,
        Err(e) => { return Err(e); },
    };
    let mut settled: StakerInfoV2 = moved;
    match compute_reward(config, &mut state, height) {
        Ok(_) => {},
        Err(e) => { return Err(e); },
    }
    match compute_staker_reward(&state, &mut settled) {
        Ok(_) => {},
        Err(e) => { return Err(e); },
    }
    match legacy {
        Some(exit) => if exit.version >= config.staking_token.len() as u64 {
            return Err(ContractError::NotFound);
        },
        None => {},
    }
    Ok(Outcome { legacy, version, state, staker_info: settled })
}

/// What bonding `amount` at `height` changes for a staker with the record
/// `staker_info`: after the staker has arrived, `amount` is added to the
/// bonded amounts.
pub open spec fn spec_bond(config: ConfigV2, states: Seq<StateV2>, staker_info: StakerInfoV2, height: u64, amount: u128) -> Result<
    Outcome,
    ContractError,
> {
    match spec_arrive(config, states, staker_info, height) {
        Err(e) => Err(e),
        Ok(arrived) => if arrived.state.total_bond_amount + amount > u128::MAX || arrived.staker_info.bond_amount
            + amount > u128::MAX {
            Err(ContractError::Overflow)
        } else {
            Ok(
                Outcome {
                    state: StateV2 {
                        total_bond_amount: (arrived.state.total_bond_amount + amount) as u128,
                        ..arrived.state
                    },
                    staker_info: StakerInfoV2 {
                        bond_amount: (arrived.staker_info.bond_amount + amount) as u128,
                        ..arrived.staker_info
                    },
                    ..arrived
                },
            )
        },
    }
}

/// What bonding `amount` at `height` changes.
pub fn bond_outcome(config: &ConfigV2, states: &Vec<StateV2>, staker_info: StakerInfoV2, height: u64, amount: u128) -> (r:
    Result<Outcome, ContractError>)
    ensures
        r == spec_bond(*config, states@, staker_info, height, amount),
{
    let mut outcome: Outcome = match arrive(config, states, staker_info, height) {
        Ok(v) => v,
        Err(e) => { return Err(e); },
    };
    match increase_bond_amount(&mut outcome.state, &mut outcome.staker_info, amount) {
        Ok(_) => {},
        Err(e) => { return Err(e); },
    }
    Ok(outcome)
}

/// What unbonding `amount` at `height` changes for a staker with the record
/// `staker_info`. Once the current version and its totals are found, a
/// request for more than the record has bonded is refused before anything is
/// settled. Else the staker arrives, and `amount` is taken from what is
/// bonded then; for a staker who has just left a replaced staking token that
/// is nothing.
pub open spec fn spec_unbond(config: ConfigV2, states: Seq<StateV2>, staker_info: StakerInfoV2, height: u64, amount: u128) -> Result<
    Outcome,
    ContractError,
> {
    match spec_current_version(config) {
        Err(e) => Err(e),
        Ok(version) => match spec_read_state(states, version) {
            Err(e) => Err(e),
            Ok(_) => if staker_info.bond_amount < amount {
                Err(ContractError::InvalidUnbondAmount)
            } else {
                match spec_arrive(config, states, staker_info, height) {
                    Err(e) => Err(e),
                    Ok(arrived) => if arrived.staker_info.bond_amount < amount {
                        Err(ContractError::InvalidUnbondAmount)
                    } else if arrived.state.total_bond_amount < amount {
                        Err(ContractError::Underflow)
                    } else {
                        Ok(
                            Outcome {
                                state: StateV2 {
                                    total_bond_amount: (arrived.state.total_bond_amount - amount) as u128,
                                    ..arrived.state
                                },
                                staker_info: StakerInfoV2 {
                                    bond_amount: (arrived.staker_info.bond_amount - amount) as u128,
                                    ..arrived.staker_info
                                },
                                ..arrived
                            },
                        )
                    },
                }
            },
        },
    }
}

/// What unbonding `amount` at `height` changes.
pub fn unbond_outcome(config: &ConfigV2, states: &Vec<StateV2>, staker_info: StakerInfoV2, height: u64, amount: u128) -> (r:
    Result<Outcome, ContractError>)
    ensures
        r == spec_unbond(*config, states@, staker_info, height, amount),
{
    let version: u64 = match current_version(config) {
        Ok(v) => v,
        Err(e) => { return Err(e); },
    };
    if version >= states.len() as u64 {
        return Err(ContractError::NotFound);
    }
    if staker_info.bond_amount < amount {
        return Err(ContractError::InvalidUnbondAmount);
    }
    let mut outcome: Outcome = match arrive(config, states, staker_info, height) {
        Ok(v) => v,
        Err(e) => { return Err(e); },
    };
    if outcome.staker_info.bond_amount < amount {
        return Err(ContractError::InvalidUnbondAmount);
    }
    match decrease_bond_amount(&mut outcome.state, &mut outcome.staker_info, amount) {
        Ok(_) => {},
        Err(e) => { return Err(e); },
    }
    Ok(outcome)
}

/// What withdrawing the pending reward at `height` changes for a staker
/// with the record `staker_info`, and the reward to pay out: after the
/// staker has arrived, the pending reward leaves the record.
pub open spec fn spec_withdraw(config: ConfigV2, states: Seq<StateV2>, staker_info: StakerInfoV2, height: u64) -> Result<
    (Outcome, u128),
    ContractError,
> {
    match spec_arrive(config, states, staker_info, height) {
        Err(e) => Err(e),
        Ok(arrived) => Ok(
            (
                Outcome { staker_info: StakerInfoV2 { pending_reward: 0, ..arrived.staker_info }, ..arrived },
                arrived.staker_info.pending_reward,
            ),
        ),
    }
}

/// What withdrawing the pending reward at `height` changes, and the reward.
pub fn withdraw_outcome(config: &ConfigV2, states: &Vec<StateV2>, staker_info: StakerInfoV2, height: u64) -> (r: Result<
    (Outcome, u128),
    ContractError,
>)
    ensures
        r == spec_withdraw(*config, states@, staker_info, height),
{
    let mut outcome: Outcome = match arrive(config, states, staker_info, height) {
        Ok(v) => v,
        Err(e) => { return Err(e); },
    };
    let reward: u128 = outcome.staker_info.pending_reward;
    outcome.staker_info.pending_reward = 0;
    Ok((outcome, reward))
}

/// The totals of the versions after `outcome`.
pub open spec fn spec_states_after(states: Seq<StateV2>, outcome: Outcome) -> Seq<StateV2> {
    match outcome.legacy {
        Some(exit) => states.update(exit.version as int, exit.state).update(outcome.version as int, outcome.state),
        None => states.update(outcome.version as int, outcome.state),
    }
}

/// Whether `after` is `before` with the record of `owner` written as `info`:
/// over the owner's first record, or as a new last record where the owner
/// had none; or, where `keep` is not set, with the owner's first record
/// removed. Every other record stays as and where it was.
pub open spec fn spec_record_written(
    before: Seq<(String, StakerInfoV1)>,
    after: Seq<(String, StakerInfoV1)>,
    owner: Seq<char>,
    info: StakerInfoV2,
    keep: bool,
) -> bool {
    if !has_info(before, owner) {
        if keep {
            &&& after.len() == before.len() + 1
            &&& after.drop_last() == before
            &&& after.last().0@ == owner
            &&& after.last().1 == spec_stored_staker_info(info)
        } else {
            after == before
        }
    } else if keep {
        after.len() == before.len() && after[info_index(before, owner)].0 == before[info_index(before, owner)].0
            && after == before.update(
            info_index(before, owner),
            (after[info_index(before, owner)].0, spec_stored_staker_info(info)),
        )
    } else {
        after == before.remove(info_index(before, owner))
    }
}

/// Whether `messages` asks for the stake of a staker who has left a
/// replaced staking token to be sent back, if there is one, and then for
/// `amount` of `token` to be sent, all to `recipient`; without a token, for
/// the former only.
pub open spec fn spec_transfers(
    messages: Seq<Transfer>,
    config: ConfigV2,
    legacy: Option<LegacyExit>,
    payment: Option<(String, u128)>,
    recipient: String,
) -> bool {
    let first = if legacy is Some { 1int } else { 0int };
    &&& messages.len() == first + (if payment is Some { 1int } else { 0int })
    &&& legacy is Some ==> {
        &&& messages[0].token == config.staking_token@[legacy->Some_0.version as int]
        &&& messages[0].recipient == recipient
        &&& messages[0].amount == legacy->Some_0.returned
    }
    &&& payment is Some ==> {
        &&& messages[first].token == payment->Some_0.0
        &&& messages[first].recipient == recipient
        &&& messages[first].amount == payment->Some_0.1
    }
}

/// Whether `attributes` describes a command of `owner` by its action, the
/// owner and the amount.
pub open spec fn spec_describes(attributes: Seq<Attribute>, action: Seq<char>, owner: Seq<char>, amount: u128) -> bool {
    &&& attributes.len() == 3
    &&& is_text(attributes[0], "action"@, action)
    &&& is_text(attributes[1], "owner"@, owner)
    &&& is_number(attributes[2], "amount"@, amount)
}

/// Writes what a command of `sender` has changed, and hands back the
/// transfers that it asks for.
fn commit(storage: &mut Storage, sender: &String, outcome: &Outcome, keep: bool, payment: Option<(String, u128)>) -> (r:
    Response)
    requires
        outcome.legacy is Some ==> outcome.legacy->Some_0.version < old(storage).config.staking_token@.len()
            && outcome.legacy->Some_0.version < old(storage).states@.len(),
        outcome.version < old(storage).states@.len(),
    ensures
        final(storage).config == old(storage).config,
        final(storage).states@ == spec_states_after(old(storage).states@, *outcome),
        spec_record_written(old(storage).stakers@, final(storage).stakers@, sender@, outcome.staker_info, keep),
        spec_transfers(r.messages@, old(storage).config, outcome.legacy, payment, *sender),
        r.attributes@.len() == 0,
{
    let mut response = Response::new();
    match outcome.legacy {
        Some(exit) => {
            response.messages.push(
                Transfer {
                    token: storage.config.staking_token[exit.version as usize].clone(),
                    recipient: sender.clone(),
                    amount: exit.returned,
                },
            );
            let _ = store_state(storage, exit.version, &exit.state);
        },
        None => {},
    }
    match payment {
        Some((token, amount)) => {
            response.messages.push(Transfer { token, recipient: sender.clone(), amount });
        },
        None => {},
    }
    if keep {
        store_staker_info(storage, sender, &outcome.staker_info);
    } else {
        remove_staker_info(storage, sender);
    }
    let _ = store_state(storage, outcome.version, &outcome.state);
    response
}

/// What [`bond`] guarantees of its outcome `r` and of the pool `after` it,
/// which was `before`.
pub open spec fn bond_ensures(
    before: Storage,
    after: Storage,
    height: u64,
    sender: String,
    amount: u128,
    r: Result<Response, ContractError>,
) -> bool {
    &&& match spec_current_version(before.config) {
        Err(e) => r == Err::<Response, ContractError>(e),
        Ok(version) => match spec_bond(
            before.config,
            before.states@,
            spec_read_staker_info(before.stakers@, sender@, version),
            height,
            amount,
        ) {
            Err(e) => r == Err::<Response, ContractError>(e),
            Ok(outcome) => {
                &&& r is Ok
                &&& after.config == before.config
                &&& after.states@ == spec_states_after(before.states@, outcome)
                &&& spec_record_written(before.stakers@, after.stakers@, sender@, outcome.staker_info, true)
                &&& spec_transfers(r->Ok_0.messages@, before.config, outcome.legacy, None, sender)
                &&& spec_describes(r->Ok_0.attributes@, "bond"@, sender@, amount)
            },
        },
    }
    &&& r is Err ==> after == before
}

/// Bonds `amount` staking tokens of `sender`, which the pool has received
/// already, at `height`. A staker whose record is of a replaced staking
/// token is moved out of it first: the rewards of that version are credited,
/// and the host is asked to send the old stake back. On failure nothing
/// changes.
pub fn bond(storage: &mut Storage, height: u64, sender: String, amount: u128) -> (r: Result<Response, ContractError>)
    ensures
        bond_ensures(*old(storage), *final(storage), height, sender, amount, r),
{
    let staker_info: StakerInfoV2 = match read_staker_info(storage, &sender) {
        Ok(v) => v,
        Err(e) => { return Err(e); },
    };
    let outcome: Outcome = match bond_outcome(&storage.config, &storage.states, staker_info, height, amount) {
        Ok(v) => v,
        Err(e) => { return Err(e); },
    };
    let mut response = commit(storage, &sender, &outcome, true, None);
    response.attributes.push(attr("action", "bond"));
    response.attributes.push(attr("owner", sender.as_str()));
    response.attributes.push(attr_number("amount", amount));
    Ok(response)
}

/// What [`receive_cw20`] guarantees of its outcome `r` and of the pool `after`
/// it, which was `before`.
pub open spec fn receive_cw20_ensures(
    before: Storage,
    after: Storage,
    height: u64,
    sender: String,
    cw20_msg: Cw20ReceiveMsg,
    r: Result<Response, ContractError>,
) -> bool {
    &&& r is Err ==> after == before
    &&& if cw20_msg.msg is None {
        r == Err::<Response, ContractError>(ContractError::DataShouldBeGiven)
    } else if spec_current_version(before.config) is Err {
        r == Err::<Response, ContractError>(ContractError::NotFound)
    } else if before.config.staking_token@.last()@ != sender@ {
        r == Err::<Response, ContractError>(ContractError::Unauthorized)
    } else {
        bond_ensures(before, after, height, cw20_msg.sender, cw20_msg.amount, r)
    }
}

/// Handles a transfer of staking tokens to the pool, at `height`. Only the
/// current staking token may report one, and only with the request to bond.
pub fn receive_cw20(storage: &mut Storage, height: u64, sender: &String, cw20_msg: Cw20ReceiveMsg) -> (r: Result<
    Response,
    ContractError,
>)
    ensures
        receive_cw20_ensures(*old(storage), *final(storage), height, *sender, cw20_msg, r),
{
    match cw20_msg.msg {
        Some(Cw20HookMsg::Bond) => {
            match current_version(&storage.config) {
                Ok(_) => {},
                Err(e) => { return Err(e); },
            }
            let last: usize = storage.config.staking_token.len() - 1;
            if storage.config.staking_token[last] != *sender {
                return Err(ContractError::Unauthorized);
            }
            bond(storage, height, cw20_msg.sender, cw20_msg.amount)
        },
        None => Err(ContractError::DataShouldBeGiven),
    }
}

/// What [`unbond`] guarantees of its outcome `r` and of the pool `after` it,
/// which was `before`.
pub open spec fn unbond_ensures(
    before: Storage,
    after: Storage,
    height: u64,
    sender: String,
    amount: u128,
    r: Result<Response, ContractError>,
) -> bool {
    &&& match spec_current_version(before.config) {
        Err(e) => r == Err::<Response, ContractError>(e),
        Ok(version) => match spec_unbond(
            before.config,
            before.states@,
            spec_read_staker_info(before.stakers@, sender@, version),
            height,
            amount,
        ) {
            Err(e) => r == Err::<Response, ContractError>(e),
            Ok(outcome) => {
                &&& r is Ok
                &&& after.config == before.config
                &&& after.states@ == spec_states_after(before.states@, outcome)
                &&& spec_record_written(
                    before.stakers@,
                    after.stakers@,
                    sender@,
                    outcome.staker_info,
                    !(outcome.staker_info.pending_reward == 0 && outcome.staker_info.bond_amount == 0),
                )
                &&& spec_transfers(
                    r->Ok_0.messages@,
                    before.config,
                    outcome.legacy,
                    Some((before.config.staking_token@[version as int], amount)),
                    sender,
                )
                &&& spec_describes(r->Ok_0.attributes@, "unbond"@, sender@, amount)
            },
        },
    }
    &&& r is Err ==> after == before
}

/// Unbonds `amount` staking tokens of `sender` at `height` and asks the
/// host to send them back. A staker whose record is of a replaced staking
/// token is moved out of it first, and gets the whole of the old stake back;
/// what can be unbonded then is what is bonded in the current staking token.
/// The rewards up to `height` are credited before the stake goes. A record
/// that holds neither a stake nor a reward afterwards is removed. On failure
/// nothing changes.
pub fn unbond(storage: &mut Storage, height: u64, sender: String, amount: u128) -> (r: Result<Response, ContractError>)
    ensures
        unbond_ensures(*old(storage), *final(storage), height, sender, amount, r),
{
    let staker_info: StakerInfoV2 = match read_staker_info(storage, &sender) {
        Ok(v) => v,
        Err(e) => { return Err(e); },
    };
    let outcome: Outcome = match unbond_outcome(&storage.config, &storage.states, staker_info, height, amount) {
        Ok(v) => v,
        Err(e) => { return Err(e); },
    };
    let keep: bool = !(outcome.staker_info.pending_reward == 0 && outcome.staker_info.bond_amount == 0);
    let current: usize = storage.config.staking_token.len() - 1;
    let token: String = storage.config.staking_token[current].clone();
    let mut response = commit(storage, &sender, &outcome, keep, Some((token, amount)));
    response.attributes.push(attr("action", "unbond"));
    response.attributes.push(attr("owner", sender.as_str()));
    response.attributes.push(attr_number("amount", amount));
    Ok(response)
}

/// What [`withdraw`] guarantees of its outcome `r` and of the pool `after`
/// it, which was `before`.
pub open spec fn withdraw_ensures(
    before: Storage,
    after: Storage,
    height: u64,
    sender: String,
    r: Result<Response, ContractError>,
) -> bool {
    &&& match spec_current_version(before.config) {
        Err(e) => r == Err::<Response, ContractError>(e),
        Ok(version) => match spec_withdraw(
            before.config,
            before.states@,
            spec_read_staker_info(before.stakers@, sender@, version),
            height,
        ) {
            Err(e) => r == Err::<Response, ContractError>(e),
            Ok((outcome, reward)) => {
                &&& r is Ok
                &&& after.config == before.config
                &&& after.states@ == spec_states_after(before.states@, outcome)
                &&& spec_record_written(
                    before.stakers@,
                    after.stakers@,
                    sender@,
                    outcome.staker_info,
                    outcome.staker_info.bond_amount != 0,
                )
                &&& spec_transfers(
                    r->Ok_0.messages@,
                    before.config,
                    outcome.legacy,
                    Some((before.config.pylon_token, reward)),
                    sender,
                )
                &&& spec_describes(r->Ok_0.attributes@, "withdraw"@, sender@, reward)
            },
        },
    }
    &&& r is Err ==> after == before
}

/// Pays out the pending reward of `sender` at `height`. A staker whose
/// record is of a replaced staking token is moved out of it first, and gets
/// the old stake back. The rewards up to `height` are credited, the record's
/// reward goes to zero, and the host is asked to transfer the reward in the
/// reward token. A record without a stake is removed. On failure nothing
/// changes.
pub fn withdraw(storage: &mut Storage, height: u64, sender: String) -> (r: Result<Response, ContractError>)
    ensures
        withdraw_ensures(*old(storage), *final(storage), height, sender, r),
{
    let staker_info: StakerInfoV2 = match read_staker_info(storage, &sender) {
        Ok(v) => v,
        Err(e) => { return Err(e); },
    };
    let (outcome, reward): (Outcome, u128) = match withdraw_outcome(
        &storage.config,
        &storage.states,
        staker_info,
        height,
    ) {
        Ok(v) => v,
        Err(e) => { return Err(e); },
    };
    let token: String = storage.config.pylon_token.clone();
    let mut response = commit(storage, &sender, &outcome, outcome.staker_info.bond_amount != 0, Some((token, reward)));
    response.attributes.push(attr("action", "withdraw"));
    response.attributes.push(attr("owner", sender.as_str()));
    response.attributes.push(attr_number("amount", reward));
    Ok(response)
}

/// The sum of the amounts of the slots.
pub open spec fn spec_scheduled(schedule: Seq<(u64, u64, u128)>) -> int
    decreases schedule.len(),
{
    if schedule.len() == 0 {
        0
    } else {
        spec_scheduled(schedule.drop_last()) + schedule.last().2
    }
}

/// The schedule as it ends at `height`, with what it has distributed until
/// then. A slot that has not started at `height` is dropped; a slot that
/// ended before stays and counts in full; a slot that is running ends at
/// `height` and keeps what its rate gives for the blocks that have passed.
pub open spec fn spec_truncate(schedule: Seq<(u64, u64, u128)>, height: u64) -> Result<
    (Seq<(u64, u64, u128)>, u128),
    ContractError,
>
    decreases schedule.len(),
{
    if schedule.len() == 0 {
        Ok((Seq::empty(), 0))
    } else {
        match spec_truncate(schedule.drop_last(), height) {
            Err(e) => Err(e),
            Ok((kept, distributed)) => {
                let slot = schedule.last();
                if slot.0 >= height {
                    Ok((kept, distributed))
                } else if slot.1 < height {
                    if distributed + slot.2 > u128::MAX {
                        Err(ContractError::Overflow)
                    } else {
                        Ok((kept.push(slot), (distributed + slot.2) as u128))
                    }
                } else {
                    match spec_slot_amount(slot, (height - slot.0) as u64) {
                        Err(e) => Err(e),
                        Ok(on_slot) => if distributed + on_slot > u128::MAX {
                            Err(ContractError::Overflow)
                        } else {
                            Ok((kept.push((slot.0, height, on_slot)), (distributed + on_slot) as u128))
                        },
                    }
                }
            },
        }
    }
}

/// A schedule whose first `n` slots cannot be ended cannot be ended as a
/// whole, for the same reason.
pub proof fn lemma_truncate_fails_on(schedule: Seq<(u64, u64, u128)>, height: u64, n: int)
    requires
        0 <= n <= schedule.len(),
        spec_truncate(schedule.take(n), height) is Err,
    ensures
        spec_truncate(schedule, height) is Err,
        spec_truncate(schedule, height)->Err_0 == spec_truncate(schedule.take(n), height)->Err_0,
    decreases schedule.len() - n,
{
    if n < schedule.len() {
        assert(schedule.take(n + 1).drop_last() =~= schedule.take(n));
        lemma_truncate_fails_on(schedule, height, n + 1);
    } else {
        assert(schedule.take(n) =~= schedule);
    }
}

/// The schedule as it ends at `height`, with what it has distributed until
/// then.
pub fn truncate(
    schedule: &Vec<(u64, u64, u128)>,
    height: u64,
) -> (r: Result<(Vec<(u64, u64, u128)>, u128), ContractError>)
    ensures
        match spec_truncate(schedule@, height) {
            Err(e) => r == Err::<(Vec<(u64, u64, u128)>, u128), ContractError>(e),
            Ok((kept, distributed)) => r is Ok && r->Ok_0.0@ == kept && r->Ok_0.1 == distributed,
        },
{
    let mut kept: Vec<(u64, u64, u128)> = Vec::new();
    let mut distributed: u128 = 0;
    let mut i: usize = 0;
    while i < schedule.len()
        invariant
            i <= schedule.len(),
            spec_truncate(schedule@.take(i as int), height) == Ok::<(Seq<(u64, u64, u128)>, u128), ContractError>(
                (kept@, distributed),
            ),
        decreases schedule.len() - i,
    {
        let slot: (u64, u64, u128) = schedule[i];
        proof {
            let next = schedule@.take(i + 1);
            assert(next.drop_last() =~= schedule@.take(i as int));
            assert(next.last() == slot);
        }
        if slot.0 < height {
            let on_slot: u128 = if slot.1 < height {
                slot.2
            } else {
                match slot_amount(slot, height - slot.0) {
                    Ok(v) => v,
                    Err(e) => {
                        proof {
                            assert(spec_truncate(schedule@.take(i + 1), height) == Err::<
                                (Seq<(u64, u64, u128)>, u128),
                                ContractError,
                            >(e));
                            lemma_truncate_fails_on(schedule@, height, i + 1);
                        }
                        return Err(e);
                    },
                }
            };
            distributed = match distributed.checked_add(on_slot) {
                Some(v) => v,
                None => {
                    proof {
                        assert(spec_truncate(schedule@.take(i + 1), height) == Err::<
                            (Seq<(u64, u64, u128)>, u128),
                            ContractError,
                        >(ContractError::Overflow));
                        lemma_truncate_fails_on(schedule@, height, i + 1);
                    }
                    return Err(ContractError::Overflow);
                },
            };
            if slot.1 < height {
                kept.push(slot);
            } else {
                kept.push((slot.0, height, on_slot));
            }
        }
        i += 1;
    }
    proof {
        assert(schedule@.take(i as int) =~= schedule@);
    }
    Ok((kept, distributed))
}

/// The sum of the amounts of the slots, or `None` if it does not fit.
pub fn scheduled(schedule: &Vec<(u64, u64, u128)>) -> (r: Option<u128>)
    ensures
        r == (if spec_scheduled(schedule@) > u128::MAX {
            None
        } else {
            Some(spec_scheduled(schedule@) as u128)
        }),
        0 <= spec_scheduled(schedule@),
{
    let mut total: u128 = 0;
    let mut i: usize = 0;
    while i < schedule.len()
        invariant
            i <= schedule.len(),
            total == spec_scheduled(schedule@.take(i as int)),
        decreases schedule.len() - i,
    {
        proof {
            assert(schedule@.take(i + 1).drop_last() =~= schedule@.take(i as int));
        }
        total = match total.checked_add(schedule[i].2) {
            Some(v) => v,
            None => {
                proof {
                    lemma_scheduled_grows(schedule@, i + 1);
                }
                return None;
            },
        };
        i += 1;
    }
    proof {
        assert(schedule@.take(i as int) =~= schedule@);
    }
    Some(total)
}

/// The sum over the first `n` slots is at most the sum over all.
pub proof fn lemma_scheduled_grows(schedule: Seq<(u64, u64, u128)>, n: int)
    requires
        0 <= n <= schedule.len(),
    ensures
        spec_scheduled(schedule.take(n)) <= spec_scheduled(schedule),
    decreases schedule.len() - n,
{
    if n < schedule.len() {
        assert(schedule.take(n + 1).drop_last() =~= schedule.take(n));
        lemma_scheduled_grows(schedule, n + 1);
    } else {
        assert(schedule.take(n) =~= schedule);
    }
}

/// What replacing the staking token at `height` changes.
#[derive(Clone, Debug, PartialEq)]
pub struct MigrateOutcome {
    /// The version that is replaced.
    pub version: u64,
    /// Its totals, with the rewards distributed up to `height`, halted.
    pub state: StateV2,
    /// The schedule as it ends at `height`.
    pub schedule: Vec<(u64, u64, u128)>,
    /// What the schedule has distributed up to `height`.
    pub distributed: u128,
    /// What the schedule had left to distribute.
    pub remaining: u128,
}

/// What replacing the staking token at `height` changes, or why it fails.
pub open spec fn spec_migrate_staking(config: ConfigV2, states: Seq<StateV2>, height: u64) -> Result<
    (u64, StateV2, Seq<(u64, u64, u128)>, u128, u128),
    ContractError,
> {
    match spec_current_version(config) {
        Err(e) => Err(e),
        Ok(version) => match spec_read_state(states, version) {
            Err(e) => Err(e),
            Ok(state) => match spec_compute_reward(config, state, height) {
                Err(e) => Err(e),
                Ok(distributed_state) => if spec_scheduled(config.distribution_schedule@) > u128::MAX {
                    Err(ContractError::Overflow)
                } else {
                    match spec_truncate(config.distribution_schedule@, height) {
                        Err(e) => Err(e),
                        Ok((schedule, distributed)) => if spec_scheduled(config.distribution_schedule@)
                            < distributed {
                            Err(ContractError::Underflow)
                        } else if version == u64::MAX {
                            Err(ContractError::Overflow)
                        } else {
                            Ok(
                                (
                                    version,
                                    StateV2 { halted: true, ..distributed_state },
                                    schedule,
                                    distributed,
                                    (spec_scheduled(config.distribution_schedule@) - distributed) as u128,
                                ),
                            )
                        },
                    }
                },
            },
        }
    }
}

/// What replacing the staking token at `height` changes.
pub fn migrate_outcome(
    config: &ConfigV2,
    states: &Vec<StateV2>,
    height: u64,
) -> (r: Result<MigrateOutcome, ContractError>)
    ensures
        match spec_migrate_staking(*config, states@, height) {
            Err(e) => r == Err::<MigrateOutcome, ContractError>(e),
            Ok((version, state, schedule, distributed, remaining)) => {
                &&& r is Ok
                &&& r->Ok_0.version == version
                &&& r->Ok_0.state == state
                &&& r->Ok_0.schedule@ == schedule
                &&& r->Ok_0.distributed == distributed
                &&& r->Ok_0.remaining == remaining
            },
        },
{
    let version: u64 = match current_version(config) {
        Ok(v) => v,
        Err(e) => { return Err(e); },
    };
    if version >= states.len() as u64 {
        return Err(ContractError::NotFound);
    }
    let mut state: StateV2 = states[version as usize];
    match compute_reward(config, &mut state, height) {
        Ok(_) => {},
        Err(e) => { return Err(e); },
    }
    let total: u128 = match scheduled(&config.distribution_schedule) {
        Some(v) => v,
        None => { return Err(ContractError::Overflow); },
    };
    let (schedule, distributed): (Vec<(u64, u64, u128)>, u128) = match truncate(&config.distribution_schedule, height) {
        Ok(v) => v,
        Err(e) => { return Err(e); },
    };
    let remaining: u128 = match total.checked_sub(distributed) {
        Some(v) => v,
        None => { return Err(ContractError::Underflow); },
    };
    if version == u64::MAX {
        return Err(ContractError::Overflow);
    }
    state.halted = true;
    let outcome = MigrateOutcome { version, state, schedule, distributed, remaining };
    proof {
        assert(spec_scheduled(config.distribution_schedule@) == total);
    }
    Ok(outcome)
}

/// What [`migrate_staking`] guarantees of its outcome `r` and of the pool `after`
/// it, which was `before`.
pub open spec fn migrate_staking_ensures(
    before: Storage,
    after: Storage,
    height: u64,
    sender: String,
    new_staking_token: String,
    r: Result<Response, ContractError>,
) -> bool {
    &&& before.config.governance@ != sender@ ==> r == Err::<Response, ContractError>(ContractError::Unauthorized)
    &&& before.config.governance@ == sender@ ==> match spec_migrate_staking(
        before.config,
        before.states@,
        height,
    ) {
        Err(e) => r == Err::<Response, ContractError>(e),
        Ok((version, state, schedule, distributed, remaining)) => {
            &&& r is Ok
            &&& r->Ok_0.messages@.len() == 0
            &&& r->Ok_0.attributes@.len() == 3
            &&& is_text(r->Ok_0.attributes@[0], "action"@, "migrate_staking"@)
            &&& is_number(r->Ok_0.attributes@[1], "distributed_amount"@, distributed)
            &&& is_number(r->Ok_0.attributes@[2], "remaining_amount"@, remaining)
            &&& after.config.governance == before.config.governance
            &&& after.config.pylon_token == before.config.pylon_token
            &&& after.config.staking_token@ == before.config.staking_token@.push(new_staking_token)
            &&& after.config.distribution_schedule@ == schedule
            &&& after.states@.len() == (if before.states@.len() == version + 1 {
                version + 2
            } else {
                before.states@.len() as int
            })
            &&& after.states@[version as int] == state
            &&& after.states@[version + 1] == spec_fresh_state(height)
            &&& forall|v: int|
                0 <= v < before.states@.len() && v != version && v != version + 1 ==> #[trigger] after.states@[v]
                    == before.states@[v]
            &&& after.stakers == before.stakers
        },
    }
    &&& r is Err ==> after == before
}

/// Replaces the staking token by `new_staking_token`, at `height`. Only
/// governance may do this. The rewards up to `height` are distributed to
/// the current version, which is then halted; the schedule ends at `height`,
/// and the slots that have not started are dropped; the new token becomes
/// the next version, which starts at `height` with nothing bonded. Stakers
/// of the old version are moved out of it when they next bond. On failure
/// nothing changes.
pub fn migrate_staking(storage: &mut Storage, height: u64, sender: &String, new_staking_token: String) -> (r: Result<
    Response,
    ContractError,
>)
    ensures
        migrate_staking_ensures(*old(storage), *final(storage), height, *sender, new_staking_token, r),
{
    if storage.config.governance != *sender {
        return Err(ContractError::Unauthorized);
    }
    let outcome: MigrateOutcome = match migrate_outcome(&storage.config, &storage.states, height) {
        Ok(v) => v,
        Err(e) => { return Err(e); },
    };
    storage.config.staking_token.push(new_staking_token);
    storage.config.distribution_schedule = outcome.schedule;
    let _ = store_state(storage, outcome.version, &outcome.state);
    let fresh: StateV2 = fresh_state(height);
    let _ = store_state(storage, outcome.version + 1, &fresh);
    let mut response = Response::new();
    response.attributes.push(attr("action", "migrate_staking"));
    response.attributes.push(attr_number("distributed_amount", outcome.distributed));
    response.attributes.push(attr_number("remaining_amount", outcome.remaining));
    Ok(response)
}

/// Runs a command at `height` for `sender`.
pub fn execute(
    storage: &mut Storage,
    height: u64,
    sender: String,
    msg: ExecuteMsg,
) -> (r: Result<Response, ContractError>)
    ensures
        r is Err ==> *final(storage) == *old(storage),
        match msg {
            ExecuteMsg::Receive(msg) => receive_cw20_ensures(*old(storage), *final(storage), height, sender, msg, r),
            ExecuteMsg::Unbond { amount } => unbond_ensures(*old(storage), *final(storage), height, sender, amount, r),
            ExecuteMsg::Withdraw => withdraw_ensures(*old(storage), *final(storage), height, sender, r),
            ExecuteMsg::MigrateStaking { new_staking_contract } => migrate_staking_ensures(
                *old(storage),
                *final(storage),
                height,
                sender,
                new_staking_contract,
                r,
            ),
        },
{
    match msg {
        ExecuteMsg::Receive(msg) => receive_cw20(storage, height, &sender, msg),
        ExecuteMsg::Unbond { amount } => unbond(storage, height, sender, amount),
        ExecuteMsg::Withdraw => withdraw(storage, height, sender),
        ExecuteMsg::MigrateStaking { new_staking_contract } => migrate_staking(
            storage,
            height,
            &sender,
            new_staking_contract,
        ),
    }
}

/// What [`query_config`] guarantees of its outcome `r`.
pub open spec fn query_config_ensures(
    storage: Storage,
    r: ConfigResponse,
) -> bool {
    &&& r.pylon_token == storage.config.pylon_token
    &&& r.staking_token@ == storage.config.staking_token@
    &&& r.distribution_schedule@ == storage.config.distribution_schedule@
}

/// The configuration.
pub fn query_config(storage: &Storage) -> (r: ConfigResponse)
    ensures
        query_config_ensures(*storage, r),
{
    let mut staking_token: Vec<String> = Vec::new();
    let mut i: usize = 0;
    while i < storage.config.staking_token.len()
        invariant
            i <= storage.config.staking_token.len(),
            staking_token@ == storage.config.staking_token@.take(i as int),
        decreases storage.config.staking_token.len() - i,
    {
        staking_token.push(storage.config.staking_token[i].clone());
        proof {
            assert(staking_token@ =~= storage.config.staking_token@.take(i + 1));
        }
        i += 1;
    }
    proof {
        assert(storage.config.staking_token@.take(i as int) =~= storage.config.staking_token@);
    }
    let mut schedule: Vec<(u64, u64, u128)> = Vec::new();
    let mut k: usize = 0;
    while k < storage.config.distribution_schedule.len()
        invariant
            k <= storage.config.distribution_schedule.len(),
            schedule@ == storage.config.distribution_schedule@.take(k as int),
        decreases storage.config.distribution_schedule.len() - k,
    {
        schedule.push(storage.config.distribution_schedule[k]);
        proof {
            assert(schedule@ =~= storage.config.distribution_schedule@.take(k + 1));
        }
        k += 1;
    }
    proof {
        assert(storage.config.distribution_schedule@.take(k as int) =~= storage.config.distribution_schedule@);
    }
    ConfigResponse { pylon_token: storage.config.pylon_token.clone(), staking_token, distribution_schedule: schedule }
}

/// The totals of a version, which is the current one where none is named;
/// with `block_height`, as they will be once the rewards up to that height
/// are distributed.
pub open spec fn spec_query_state(storage: Storage, token_version: Option<u64>, block_height: Option<u64>) -> Result<
    StateV2,
    ContractError,
> {
    match spec_current_version(storage.config) {
        Err(e) => Err(e),
        Ok(current) => match spec_read_state(
            storage.states@,
            match token_version {
                Some(v) => v,
                None => current,
            },
        ) {
            Err(e) => Err(e),
            Ok(state) => match block_height {
                None => Ok(state),
                Some(height) => spec_compute_reward(storage.config, state, height),
            },
        },
    }
}

/// What [`query_state`] guarantees of its outcome `r`.
pub open spec fn query_state_ensures(
    storage: Storage,
    token_version: Option<u64>,
    block_height: Option<u64>,
    r: Result<StateResponse, ContractError>,
) -> bool {
    &&& match spec_query_state(storage, token_version, block_height) {
        Err(e) => r == Err::<StateResponse, ContractError>(e),
        Ok(state) => r == Ok::<StateResponse, ContractError>(
            StateResponse {
                halted: state.halted,
                started_at: state.started_at,
                last_distributed: state.last_distributed,
                total_bond_amount: state.total_bond_amount,
                global_reward_index: state.global_reward_index,
            },
        ),
    }
}

/// The totals of a version.
pub fn query_state(storage: &Storage, token_version: Option<u64>, block_height: Option<u64>) -> (r: Result<
    StateResponse,
    ContractError,
>)
    ensures
        query_state_ensures(*storage, token_version, block_height, r),
{
    let current: u64 = match current_version(&storage.config) {
        Ok(v) => v,
        Err(e) => { return Err(e); },
    };
    let version: u64 = match token_version {
        Some(v) => v,
        None => current,
    };
    let mut state: StateV2 = match read_state(storage, version) {
        Ok(v) => v,
        Err(e) => { return Err(e); },
    };
    match block_height {
        Some(height) => match compute_reward(&storage.config, &mut state, height) {
            Ok(_) => {},
            Err(e) => { return Err(e); },
        },
        None => {},
    }
    Ok(
        StateResponse {
            halted: state.halted,
            started_at: state.started_at,
            last_distributed: state.last_distributed,
            total_bond_amount: state.total_bond_amount,
            global_reward_index: state.global_reward_index,
        },
    )
}

/// The record of a staker; with `block_height`, as it will be once the
/// rewards of the staker's version up to that height are credited.
pub open spec fn spec_query_staker_info(storage: Storage, staker: Seq<char>, block_height: Option<u64>) -> Result<
    StakerInfoV2,
    ContractError,
> {
    match spec_current_version(storage.config) {
        Err(e) => Err(e),
        Ok(current) => {
            let staker_info = spec_read_staker_info(storage.stakers@, staker, current);
            match block_height {
                None => Ok(staker_info),
                Some(height) => match spec_read_state(storage.states@, staker_info.staking_token_version) {
                    Err(e) => Err(e),
                    Ok(state) => match spec_compute_reward(storage.config, state, height) {
                        Err(e) => Err(e),
                        Ok(distributed) => spec_compute_staker_reward(distributed, staker_info),
                    },
                },
            }
        },
    }
}

/// What [`query_staker_info`] guarantees of its outcome `r`.
pub open spec fn query_staker_info_ensures(
    storage: Storage,
    staker: String,
    block_height: Option<u64>,
    r: Result<StakerInfoResponse, ContractError>,
) -> bool {
    &&& match spec_query_staker_info(storage, staker@, block_height) {
        Err(e) => r == Err::<StakerInfoResponse, ContractError>(e),
        Ok(staker_info) => {
            &&& r is Ok
            &&& r->Ok_0.staker == staker
            &&& r->Ok_0.staking_token_version == staker_info.staking_token_version
            &&& r->Ok_0.reward_index == staker_info.reward_index
            &&& r->Ok_0.bond_amount == staker_info.bond_amount
            &&& r->Ok_0.pending_reward == staker_info.pending_reward
        },
    }
}

/// The record of a staker.
pub fn query_staker_info(storage: &Storage, staker: String, block_height: Option<u64>) -> (r: Result<
    StakerInfoResponse,
    ContractError,
>)
    ensures
        query_staker_info_ensures(*storage, staker, block_height, r),
{
    let mut staker_info: StakerInfoV2 = match read_staker_info(storage, &staker) {
        Ok(v) => v,
        Err(e) => { return Err(e); },
    };
    match block_height {
        Some(height) => {
            let mut state: StateV2 = match read_state(storage, staker_info.staking_token_version) {
                Ok(v) => v,
                Err(e) => { return Err(e); },
            };
            match compute_reward(&storage.config, &mut state, height) {
                Ok(_) => {},
                Err(e) => { return Err(e); },
            }
            match compute_staker_reward(&state, &mut staker_info) {
                Ok(_) => {},
                Err(e) => { return Err(e); },
            }
        },
        None => {},
    }
    Ok(
        StakerInfoResponse {
            staker,
            staking_token_version: staker_info.staking_token_version,
            reward_index: staker_info.reward_index,
            bond_amount: staker_info.bond_amount,
            pending_reward: staker_info.pending_reward,
        },
    )
}

/// What a query gives back.
#[derive(Clone, Debug, PartialEq)]
pub enum QueryResponse {
    Config(ConfigResponse),
    State(StateResponse),
    StakerInfo(StakerInfoResponse),
}

/// Answers a query.
pub fn query(storage: &Storage, msg: QueryMsg) -> (r: Result<QueryResponse, ContractError>)
    ensures
        match msg {
            QueryMsg::Config => r is Ok && r->Ok_0 is Config && query_config_ensures(*storage, r->Ok_0->Config_0),
            QueryMsg::State { token_version, block_height } => exists|inner: Result<StateResponse, ContractError>|
                query_state_ensures(*storage, token_version, block_height, inner) && r == (match inner {
                    Ok(v) => Ok::<QueryResponse, ContractError>(QueryResponse::State(v)),
                    Err(e) => Err::<QueryResponse, ContractError>(e),
                }),
            QueryMsg::StakerInfo { staker, block_height } => exists|inner: Result<StakerInfoResponse, ContractError>|
                query_staker_info_ensures(*storage, staker, block_height, inner) && r == (match inner {
                    Ok(v) => Ok::<QueryResponse, ContractError>(QueryResponse::StakerInfo(v)),
                    Err(e) => Err::<QueryResponse, ContractError>(e),
                }),
        },
{
    match msg {
        QueryMsg::Config => Ok(QueryResponse::Config(query_config(storage))),
        QueryMsg::State { token_version, block_height } => {
            let inner = query_state(storage, token_version, block_height);
            let ghost witness = inner;
            let out = match inner {
                Ok(v) => Ok(QueryResponse::State(v)),
                Err(e) => Err(e),
            };
            proof {
                assert(query_state_ensures(*storage, token_version, block_height, witness));
            }
            out
        },
        QueryMsg::StakerInfo { staker, block_height } => {
            let ghost staker_seen = staker;
            let inner = query_staker_info(storage, staker, block_height);
            let ghost witness = inner;
            let out = match inner {
                Ok(v) => Ok(QueryResponse::StakerInfo(v)),
                Err(e) => Err(e),
            };
            proof {
                assert(query_staker_info_ensures(*storage, staker_seen, block_height, witness));
            }
            out
        },
    }
}

/// Upgrades a pool from its first record shapes: the one staking token
/// becomes version zero, which started where the schedule starts, and
/// `governance` is set. A pool without a schedule cannot be upgraded.
pub fn migrate(
    legacy_config: ConfigV1,
    legacy_state: StateV1,
    stakers: Vec<(String, StakerInfoV1)>,
    governance: String,
) -> (r: Result<Storage, ContractError>)
    ensures
        legacy_config.distribution_schedule@.len() == 0 ==> r == Err::<Storage, ContractError>(ContractError::NotFound),
        legacy_config.distribution_schedule@.len() > 0 ==> {
            &&& r is Ok
            &&& r->Ok_0.config.governance == governance
            &&& r->Ok_0.config.pylon_token == legacy_config.pylon_token
            &&& r->Ok_0.config.staking_token@ == seq![legacy_config.staking_token]
            &&& r->Ok_0.config.distribution_schedule == legacy_config.distribution_schedule
            &&& r->Ok_0.states@ == seq![
                StateV2 {
                    halted: false,
                    started_at: legacy_config.distribution_schedule@[0].0,
                    last_distributed: legacy_state.last_distributed,
                    total_bond_amount: legacy_state.total_bond_amount,
                    global_reward_index: legacy_state.global_reward_index,
                },
            ]
            &&& r->Ok_0.stakers == stakers
        },
{
    if legacy_config.distribution_schedule.len() == 0 {
        return Err(ContractError::NotFound);
    }
    let genesis: u64 = legacy_config.distribution_schedule[0].0;
    let mut states: Vec<StateV2> = Vec::new();
    states.push(upgrade_state(&legacy_state, genesis));
    Ok(Storage { config: upgrade_config(legacy_config, governance), states, stakers })
}

} // verus!
