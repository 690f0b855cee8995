//! Airdrops: reward streams that pay every share the same, second by second.
//!
//! An airdrop runs from `start` for `period` seconds and hands out
//! `reward_rate` tokens per second, divided among all shares. Its state keeps
//! the reward that one share has earned since the start; a staker's record
//! keeps how much of that has been credited to the staker already.

use crate::error::ContractError;
use crate::gov::states::Airdrop;
use crate::gov::states::AirdropConfig;
use crate::gov::states::AirdropState;
use crate::gov::states::Reward;
use crate::gov::states::State;
use crate::math::DECIMAL_FRACTIONAL;
use crate::math::Decimal;
use crate::math::RatioError;
use crate::math::scale;
use crate::math::spec_scale;

use vstd::prelude::*;

verus! {

impl Airdrop {
    /// The second at which the airdrop stops paying.
    pub open spec fn spec_finish(&self) -> int {
        self.config.start + self.config.period
    }

    /// The time up to which the airdrop has paid at `now`: `now`, but not
    /// past the finish.
    pub open spec fn spec_applicable_time(&self, now: u64) -> u64 {
        if now <= self.spec_finish() {
            now
        } else {
            self.spec_finish() as u64
        }
    }

    /// The second at which the airdrop stops paying, or the largest second
    /// there is if it lies beyond.
    pub fn finish(&self) -> (r: u64)
        ensures
            r == (if self.spec_finish() <= u64::MAX { self.spec_finish() } else { u64::MAX as int }),
    {
        self.config.start.saturating_add(self.config.period)
    }

    /// The time up to which the airdrop has paid at `now`.
    pub fn applicable_time(&self, now: u64) -> (r: u64)
        ensures
            r == self.spec_applicable_time(now),
    {
        let finish: u64 = self.finish();
        if now <= finish {
            now
        } else {
            finish
        }
    }
}

/// What creating an airdrop does: the rate it pays at, or why it fails.
pub open spec fn spec_instantiate(state: State, period: u64, reward_amount: u128) -> Result<Decimal, ContractError> {
    match Decimal::spec_from_ratio(reward_amount, period as u128) {
        Err(RatioError::DivideByZero) => Err(ContractError::DivideByZero),
        Err(RatioError::Overflow) => Err(ContractError::Overflow),
        Ok(rate) => if state.total_airdrop_count == u64::MAX {
            Err(ContractError::Overflow)
        } else {
            Ok(rate)
        },
    }
}

/// Creates an airdrop that hands out `reward_amount` of `reward_token`
/// evenly over `period` seconds from `start`. It gets the next airdrop id,
/// which is also put on the list of airdrops to keep up to date. On failure
/// nothing changes.
pub fn instantiate(state: &mut State, start: u64, period: u64, reward_token: String, reward_amount: u128) -> (r: Result<
    Airdrop,
    ContractError,
>)
    ensures
        match spec_instantiate(*old(state), period, reward_amount) {
            Err(e) => r == Err::<Airdrop, ContractError>(e) && *final(state) == *old(state),
            Ok(rate) => {
                &&& r == Ok::<Airdrop, ContractError>(
                    Airdrop {
                        config: AirdropConfig { start, period, reward_token, reward_rate: rate },
                        state: AirdropState { last_update_time: start, reward_per_token_stored: Decimal { atomics: 0 } },
                    },
                )
                &&& *final(state) == (State {
                    total_airdrop_count: (old(state).total_airdrop_count + 1) as u64,
                    airdrop_update_candidates: final(state).airdrop_update_candidates,
                    ..*old(state)
                })
                &&& final(state).airdrop_update_candidates@ == old(state).airdrop_update_candidates@.push(
                    old(state).total_airdrop_count,
                )
            },
        },
{
    let rate: Decimal = match Decimal::from_ratio(reward_amount, period as u128) {
        Ok(v) => v,
        Err(RatioError::DivideByZero) => { return Err(ContractError::DivideByZero); },
        Err(RatioError::Overflow) => { return Err(ContractError::Overflow); },
    };
    let next_count: u64 = match state.total_airdrop_count.checked_add(1) {
        Some(v) => v,
        None => { return Err(ContractError::Overflow); },
    };
    let airdrop = Airdrop {
        config: AirdropConfig { start, period, reward_token, reward_rate: rate },
        state: AirdropState { last_update_time: start, reward_per_token_stored: Decimal::zero() },
    };
    state.airdrop_update_candidates.push(state.total_airdrop_count);
    state.total_airdrop_count = next_count;
    Ok(airdrop)
}

/// The reward that one share earns between `last_update_time` and
/// `timestamp`: `reward_rate * elapsed / total_share`, rounded down to 18
/// digits. Nothing is earned while there is no share, nor where `timestamp`
/// is not after `last_update_time`.
pub open spec fn spec_reward_per_token(
    timestamp: u64,
    total_share: u128,
    reward_rate: Decimal,
    last_update_time: u64,
) -> Result<
    Decimal,
    ContractError,
> {
    if total_share == 0 || timestamp <= last_update_time {
        Ok(Decimal { atomics: 0 })
    } else {
        match spec_scale(reward_rate.atomics, (timestamp - last_update_time) as u128, total_share) {
            Ok(atomics) => Ok(Decimal { atomics }),
            Err(e) => Err(e),
        }
    }
}

/// The reward that one share earns between `last_update_time` and
/// `timestamp`.
pub fn calculate_reward_per_token(timestamp: u64, total_share: u128, reward_rate: Decimal, last_update_time: u64) -> (r:
    Result<Decimal, ContractError>)
    ensures
        r == spec_reward_per_token(timestamp, total_share, reward_rate, last_update_time),
{
    if total_share == 0 || timestamp <= last_update_time {
        Ok(Decimal::zero())
    } else {
        let elapsed: u64 = timestamp - last_update_time;
        match scale(reward_rate.atomics, elapsed as u128, total_share) {
            Ok(atomics) => Ok(Decimal { atomics }),
            Err(e) => Err(e),
        }
    }
}

/// The reward that one share has earned from the airdrop at `timestamp`:
/// what is stored, and what has been earned since.
pub open spec fn spec_reward_per_token_at(airdrop: Airdrop, timestamp: u64, total_share: u128) -> Result<
    Decimal,
    ContractError,
> {
    match spec_reward_per_token(timestamp, total_share, airdrop.config.reward_rate, airdrop.state.last_update_time) {
        Err(e) => Err(e),
        Ok(earned) => if airdrop.state.reward_per_token_stored.atomics + earned.atomics > u128::MAX {
            Err(ContractError::Overflow)
        } else {
            Ok(Decimal { atomics: (airdrop.state.reward_per_token_stored.atomics + earned.atomics) as u128 })
        },
    }
}

/// The record of a staker with `share` shares once everything up to
/// `per_token` is credited: the reward grows by `share` times what one share
/// has earned since the record was last paid, rounded down.
pub open spec fn spec_credit(reward: Reward, per_token: Decimal, share: u128) -> Result<Reward, ContractError> {
    if per_token.atomics < reward.reward_per_token_paid.atomics {
        Err(ContractError::Underflow)
    } else {
        match spec_scale(share, (per_token.atomics - reward.reward_per_token_paid.atomics) as u128, DECIMAL_FRACTIONAL) {
            Err(e) => Err(e),
            Ok(earned) => if reward.reward + earned > u128::MAX {
                Err(ContractError::Overflow)
            } else {
                Ok(Reward { reward: (reward.reward + earned) as u128, reward_per_token_paid: per_token })
            },
        }
    }
}

/// The reward of a staker with `share` shares at `timestamp`: what the
/// record holds, and `share` times what one share has earned since the
/// record was last paid, rounded down.
pub open spec fn spec_rewards(
    timestamp: u64,
    total_share: u128,
    share: u128,
    airdrop: Airdrop,
    reward: Reward,
) -> Result<
    u128,
    ContractError,
> {
    match spec_reward_per_token_at(airdrop, timestamp, total_share) {
        Err(e) => Err(e),
        Ok(per_token) => match spec_credit(reward, per_token, share) {
            Err(e) => Err(e),
            Ok(credited) => Ok(credited.reward),
        },
    }
}

/// Credits to a staker's record what `share` shares have earned up to
/// `per_token`.
pub fn credit(reward: Reward, per_token: Decimal, share: u128) -> (r: Result<Reward, ContractError>)
    ensures
        r == spec_credit(reward, per_token, share),
{
    let unpaid: Decimal = match per_token.checked_sub(reward.reward_per_token_paid) {
        Some(v) => v,
        None => { return Err(ContractError::Underflow); },
    };
    let earned: u128 = match scale(share, unpaid.atomics, DECIMAL_FRACTIONAL) {
        Ok(v) => v,
        Err(e) => { return Err(e); },
    };
    match reward.reward.checked_add(earned) {
        Some(v) => Ok(Reward { reward: v, reward_per_token_paid: per_token }),
        None => Err(ContractError::Overflow),
    }
}

/// The reward that one share has earned from the airdrop at `timestamp`.
pub fn reward_per_token_at(airdrop: &Airdrop, timestamp: u64, total_share: u128) -> (r: Result<Decimal, ContractError>)
    ensures
        r == spec_reward_per_token_at(*airdrop, timestamp, total_share),
{
    let earned: Decimal = match calculate_reward_per_token(
        timestamp,
        total_share,
        airdrop.config.reward_rate,
        airdrop.state.last_update_time,
    ) {
        Ok(v) => v,
        Err(e) => { return Err(e); },
    };
    match airdrop.state.reward_per_token_stored.checked_add(earned) {
        Some(v) => Ok(v),
        None => Err(ContractError::Overflow),
    }
}

/// The reward of a staker with `share` shares at `timestamp`.
pub fn calculate_rewards(
    timestamp: u64,
    total_share: u128,
    share: u128,
    airdrop: &Airdrop,
    reward: &Reward,
) -> (r: Result<
    u128,
    ContractError,
>)
    ensures
        r == spec_rewards(timestamp, total_share, share, *airdrop, *reward),
{
    let per_token: Decimal = match reward_per_token_at(airdrop, timestamp, total_share) {
        Ok(v) => v,
        Err(e) => { return Err(e); },
    };
    match credit(*reward, per_token, share) {
        Ok(credited) => Ok(credited.reward),
        Err(e) => Err(e),
    }
}

/// The state of the airdrop after it has been brought up to `now`. Before
/// the start, and once the finish has been accounted for, it stays as it is.
pub open spec fn spec_updated(airdrop: Airdrop, total_share: u128, now: u64) -> Result<AirdropState, ContractError> {
    let time = airdrop.spec_applicable_time(now);
    if time <= airdrop.state.last_update_time {
        Ok(airdrop.state)
    } else {
        match spec_reward_per_token_at(airdrop, time, total_share) {
            Err(e) => Err(e),
            Ok(per_token) => Ok(AirdropState { last_update_time: time, reward_per_token_stored: per_token }),
        }
    }
}

/// The state of the airdrop once its accrual is brought up to `now`.
pub fn updated(airdrop: &Airdrop, total_share: u128, now: u64) -> (r: Result<AirdropState, ContractError>)
    ensures
        r == spec_updated(*airdrop, total_share, now),
        r is Ok ==> r->Ok_0.last_update_time >= airdrop.state.last_update_time,
        r is Ok ==> r->Ok_0.reward_per_token_stored.atomics >= airdrop.state.reward_per_token_stored.atomics,
{
    let time: u64 = airdrop.applicable_time(now);
    if time <= airdrop.state.last_update_time {
        return Ok(airdrop.state);
    }
    match reward_per_token_at(airdrop, time, total_share) {
        Ok(per_token) => Ok(AirdropState { last_update_time: time, reward_per_token_stored: per_token }),
        Err(e) => Err(e),
    }
}

/// Brings the accrual of the airdrop up to `now`: adds to the stored reward
/// per share what one share has earned since the last update, and moves the
/// last update to `now`, or to the finish if `now` is past it. Time in which
/// nobody holds a share pays nothing. On failure nothing changes.
pub fn update(airdrop: &mut Airdrop, total_share: u128, now: u64) -> (r: Result<(), ContractError>)
    ensures
        match spec_updated(*old(airdrop), total_share, now) {
            Err(e) => r == Err::<(), ContractError>(e) && *final(airdrop) == *old(airdrop),
            Ok(state) => r == Ok::<(), ContractError>(()) && *final(airdrop) == (Airdrop { state, ..*old(airdrop) }),
        },
        r is Ok ==> final(airdrop).state.last_update_time >= old(airdrop).state.last_update_time,
        r is Ok ==> final(airdrop).state.reward_per_token_stored.atomics >= old(
            airdrop,
        ).state.reward_per_token_stored.atomics,
{
    match updated(airdrop, total_share, now) {
        Ok(state) => {
            airdrop.state = state;
            Ok(())
        },
        Err(e) => Err(e),
    }
}

/// Credits to `reward` what `share` shares have earned from the airdrop up
/// to its last update, and marks that as paid. On failure nothing changes.
pub fn settle(reward: &mut Reward, airdrop: &Airdrop, share: u128) -> (r: Result<(), ContractError>)
    ensures
        match spec_credit(*old(reward), airdrop.state.reward_per_token_stored, share) {
            Err(e) => r == Err::<(), ContractError>(e) && *final(reward) == *old(reward),
            Ok(credited) => r == Ok::<(), ContractError>(()) && *final(reward) == credited,
        },
{
    match credit(*reward, airdrop.state.reward_per_token_stored, share) {
        Ok(credited) => {
            *reward = credited;
            Ok(())
        },
        Err(e) => Err(e),
    }
}

/// Adds `amount` to what the staker may claim.
pub fn allocate(reward: &mut Reward, amount: u128) -> (r: Result<(), ContractError>)
    ensures
        r == (if old(reward).reward + amount > u128::MAX {
            Err::<(), ContractError>(ContractError::Overflow)
        } else {
            Ok::<(), ContractError>(())
        }),
        match r {
            Ok(_) => *final(reward) == (Reward { reward: (old(reward).reward + amount) as u128, ..*old(reward) }),
            Err(_) => *final(reward) == *old(reward),
        },
{
    match reward.reward.checked_add(amount) {
        Some(v) => {
            reward.reward = v;
            Ok(())
        },
        None => Err(ContractError::Overflow),
    }
}

/// Takes `amount` from what the staker may claim.
pub fn deallocate(reward: &mut Reward, amount: u128) -> (r: Result<(), ContractError>)
    ensures
        r == (if old(reward).reward < amount {
            Err::<(), ContractError>(ContractError::Underflow)
        } else {
            Ok::<(), ContractError>(())
        }),
        match r {
            Ok(_) => *final(reward) == (Reward { reward: (old(reward).reward - amount) as u128, ..*old(reward) }),
            Err(_) => *final(reward) == *old(reward),
        },
{
    match reward.reward.checked_sub(amount) {
        Some(v) => {
            reward.reward = v;
            Ok(())
        },
        None => Err(ContractError::Underflow),
    }
}

/// Hands out what the staker may claim: the record goes to zero and the
/// amount is returned for transfer.
pub fn claim(reward: &mut Reward) -> (r: u128)
    ensures
        r == old(reward).reward,
        *final(reward) == (Reward { reward: 0, ..*old(reward) }),
{
    let amount: u128 = reward.reward;
    reward.reward = 0;
    amount
}

} // verus!
