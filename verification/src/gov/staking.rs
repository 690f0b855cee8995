//! Shares, vote locks and the queue of unbonding claims of one staker.
//!
//! A staker owns `share` out of `total_share` shares of the pool's redeemable
//! balance: the token balance of the pool less the deposits that polls hold
//! in escrow. Staking mints shares at the current ratio; a withdrawal burns
//! shares and queues a claim that matures after the unstaking period.

use crate::common::MAX_QUERY_LIMIT;
use crate::error::ContractError;
use crate::gov::msg::PollStatus;
use crate::gov::msg::VoterInfo;
use crate::gov::states::Poll;
use crate::gov::states::State;
use crate::gov::states::TokenClaim;
use crate::gov::states::TokenManager;
use crate::gov::states::sum_claims;
use crate::math::RatioError;
use crate::math::lemma_ratio_is_floor;
use crate::math::ratio;
use crate::math::scale;
use crate::math::spec_scale;

use vstd::prelude::*;

verus! {

/// The shares that a deposit of `amount` mints: `amount` itself while the
/// pool is empty, else `amount * total_share / balance_before`, where
/// `balance_before` is the redeemable balance without the deposit.
pub open spec fn spec_minted_share(
    amount: u128,
    total_share: u128,
    balance_before: u128,
) -> Result<u128, ContractError> {
    if balance_before == 0 || total_share == 0 {
        Ok(amount)
    } else {
        spec_scale(amount, total_share, balance_before)
    }
}

/// The tokens that a share is worth: `share * balance / total_share`,
/// rounded down, and nothing while there is no share at all.
pub open spec fn spec_share_balance(share: u128, total_share: u128, balance: u128) -> Result<u128, ContractError> {
    if total_share == 0 {
        Ok(0)
    } else {
        spec_scale(share, balance, total_share)
    }
}

/// The tokens that `share` shares are worth in a pool of `total_share`
/// shares over `balance` tokens.
pub fn share_balance(share: u128, total_share: u128, balance: u128) -> (r: Result<u128, ContractError>)
    ensures
        r == spec_share_balance(share, total_share, balance),
{
    if total_share == 0 {
        Ok(0)
    } else {
        scale(share, balance, total_share)
    }
}

/// What staking `amount` does, given the token balance that the pool reports
/// after the deposit has arrived: the shares it mints, or why it fails.
pub open spec fn spec_stake(
    state: State,
    share: u128,
    queried_balance: u128,
    amount: u128,
) -> Result<u128, ContractError> {
    if amount == 0 {
        Err(ContractError::InsufficientFunds)
    } else if state.total_deposit + amount > u128::MAX {
        Err(ContractError::Overflow)
    } else if queried_balance < state.total_deposit + amount {
        Err(ContractError::Underflow)
    } else {
        match spec_minted_share(
            amount,
            state.total_share,
            (queried_balance - state.total_deposit - amount) as u128,
        ) {
            Err(e) => Err(e),
            Ok(minted) => if share + minted > u128::MAX || state.total_share + minted > u128::MAX {
                Err(ContractError::Overflow)
            } else {
                Ok(minted)
            },
        }
    }
}

/// Credits a deposit of `amount` tokens to `manager`. `queried_balance` is
/// the pool's token balance with the deposit already in it. On success the
/// minted shares are added to the staker and to the total, and returned; on
/// failure nothing changes.
pub fn stake(
    state: &mut State,
    manager: &mut TokenManager,
    queried_balance: u128,
    amount: u128,
) -> (r: Result<u128, ContractError>)
    ensures
        r == spec_stake(*old(state), old(manager).share, queried_balance, amount),
        match r {
            Ok(minted) => {
                &&& *final(state) == (State { total_share: (old(state).total_share + minted) as u128, ..*old(state) })
                &&& *final(manager) == (TokenManager { share: (old(manager).share + minted) as u128, ..*old(manager) })
            },
            Err(_) => *final(state) == *old(state) && *final(manager) == *old(manager),
        },
{
    if amount == 0 {
        return Err(ContractError::InsufficientFunds);
    }
    let reserved: u128 = match state.total_deposit.checked_add(amount) {
        Some(v) => v,
        None => { return Err(ContractError::Overflow); },
    };
    let balance_before: u128 = match queried_balance.checked_sub(reserved) {
        Some(v) => v,
        None => { return Err(ContractError::Underflow); },
    };
    let minted: u128 = if balance_before == 0 || state.total_share == 0 {
        amount
    } else {
        match scale(amount, state.total_share, balance_before) {
            Ok(v) => v,
            Err(e) => { return Err(e); },
        }
    };
    let new_share: u128 = match manager.share.checked_add(minted) {
        Some(v) => v,
        None => { return Err(ContractError::Overflow); },
    };
    let new_total: u128 = match state.total_share.checked_add(minted) {
        Some(v) => v,
        None => { return Err(ContractError::Overflow); },
    };
    manager.share = new_share;
    state.total_share = new_total;
    Ok(minted)
}

/// Whether `poll_id` names a poll of `polls` that is still in progress.
/// A poll is stored at the index that is its id.
pub open spec fn in_progress(polls: Seq<Poll>, poll_id: u64) -> bool {
    poll_id < polls.len() && polls[poll_id as int].status == PollStatus::InProgress
}

/// The locks of `locks` whose poll is still in progress, in their order.
pub open spec fn live_locks(locks: Seq<(u64, VoterInfo)>, polls: Seq<Poll>) -> Seq<(u64, VoterInfo)>
    decreases locks.len(),
{
    if locks.len() == 0 {
        Seq::empty()
    } else if in_progress(polls, locks.last().0) {
        live_locks(locks.drop_last(), polls).push(locks.last())
    } else {
        live_locks(locks.drop_last(), polls)
    }
}

/// The locks of `locks` whose poll has ended, by poll id, in their order.
pub open spec fn ended_locks(locks: Seq<(u64, VoterInfo)>, polls: Seq<Poll>) -> Seq<u64>
    decreases locks.len(),
{
    if locks.len() == 0 {
        Seq::empty()
    } else if in_progress(polls, locks.last().0) {
        ended_locks(locks.drop_last(), polls)
    } else {
        ended_locks(locks.drop_last(), polls).push(locks.last().0)
    }
}

/// The largest balance among `locks`; zero where there is none.
pub open spec fn max_locked(locks: Seq<(u64, VoterInfo)>) -> u128
    decreases locks.len(),
{
    if locks.len() == 0 {
        0
    } else {
        let rest = max_locked(locks.drop_last());
        if locks.last().1.balance > rest {
            locks.last().1.balance
        } else {
            rest
        }
    }
}

/// The sum of the balances of `locks`.
pub open spec fn sum_locked(locks: Seq<(u64, VoterInfo)>) -> int
    decreases locks.len(),
{
    if locks.len() == 0 {
        0
    } else {
        sum_locked(locks.drop_last()) + locks.last().1.balance
    }
}

/// The amount that votes lock for a staker: the largest balance among the
/// locks on polls in progress.
pub open spec fn spec_locked_balance(locks: Seq<(u64, VoterInfo)>, polls: Seq<Poll>) -> u128 {
    max_locked(live_locks(locks, polls))
}

/// `max_locked` is a maximum: no lock is larger, and a lock attains it.
pub proof fn lemma_max_locked_is_maximum(locks: Seq<(u64, VoterInfo)>)
    ensures
        forall|i: int| 0 <= i < locks.len() ==> (#[trigger] locks[i]).1.balance <= max_locked(locks),
        locks.len() > 0 ==> exists|i: int| 0 <= i < locks.len() && (#[trigger] locks[i]).1.balance == max_locked(locks),
        locks.len() == 0 ==> max_locked(locks) == 0,
    decreases locks.len(),
{
    if locks.len() > 0 {
        let rest = locks.drop_last();
        lemma_max_locked_is_maximum(rest);
        assert forall|i: int| 0 <= i < locks.len() implies (#[trigger] locks[i]).1.balance <= max_locked(locks) by {
            if i < rest.len() {
                assert(locks[i] == rest[i]);
            }
        }
        if locks.last().1.balance > max_locked(rest) {
            assert(locks[locks.len() - 1].1.balance == max_locked(locks));
        } else {
            if rest.len() > 0 {
                let j = choose|j: int| 0 <= j < rest.len() && (#[trigger] rest[j]).1.balance == max_locked(rest);
                assert(locks[j] == rest[j]);
            } else {
                assert(locks[locks.len() - 1].1.balance == max_locked(locks));
            }
        }
    }
}

/// The locked amount is bounded by the sum of the locks, and is smaller than
/// the sum as soon as two locks are positive: concurrent votes are backed by
/// the same tokens and are not added up.
pub proof fn lemma_max_locked_below_sum(locks: Seq<(u64, VoterInfo)>)
    ensures
        max_locked(locks) <= sum_locked(locks),
        (exists|i: int, j: int|
            0 <= i < j < locks.len() && (#[trigger] locks[i]).1.balance > 0 && (#[trigger] locks[j]).1.balance > 0)
            ==> max_locked(locks) < sum_locked(locks),
    decreases locks.len(),
{
    if locks.len() > 0 {
        let rest = locks.drop_last();
        lemma_max_locked_below_sum(rest);
        lemma_max_locked_is_maximum(rest);
        if exists|i: int, j: int|
            0 <= i < j < locks.len() && (#[trigger] locks[i]).1.balance > 0 && (#[trigger] locks[j]).1.balance > 0 {
            let (i, j) = choose|i: int, j: int|
                0 <= i < j < locks.len() && (#[trigger] locks[i]).1.balance > 0 && (#[trigger] locks[j]).1.balance > 0;
            assert(locks[i] == rest[i]);
            if j < rest.len() {
                assert(locks[j] == rest[j]);
            } else {
                lemma_sum_locked_bounds(rest, i);
            }
        }
    }
}

/// Every lock is at most the sum of all.
pub proof fn lemma_sum_locked_bounds(locks: Seq<(u64, VoterInfo)>, i: int)
    requires
        0 <= i < locks.len(),
    ensures
        locks[i].1.balance <= sum_locked(locks),
    decreases locks.len(),
{
    let rest = locks.drop_last();
    lemma_sum_locked_not_negative(rest);
    if i < rest.len() {
        lemma_sum_locked_bounds(rest, i);
        assert(locks[i] == rest[i]);
    }
}

/// A sum of balances is not negative.
pub proof fn lemma_sum_locked_not_negative(locks: Seq<(u64, VoterInfo)>)
    ensures
        0 <= sum_locked(locks),
    decreases locks.len(),
{
    if locks.len() > 0 {
        lemma_sum_locked_not_negative(locks.drop_last());
    }
}

/// What is left of a staker's locks once the locks on ended polls are gone.
#[derive(Clone, Debug, PartialEq)]
pub struct LockScan {
    /// The largest balance among the locks that stay.
    pub locked: u128,
    /// The locks that stay: those on polls in progress.
    pub live: Vec<(u64, VoterInfo)>,
    /// The ids of the polls whose locks go.
    pub ended: Vec<u64>,
}

/// Sorts `locks` into those on polls in progress and those on ended polls,
/// and finds the amount that the former keep locked.
pub fn scan_locks(polls: &Vec<Poll>, locks: &Vec<(u64, VoterInfo)>) -> (r: LockScan)
    ensures
        r.locked == spec_locked_balance(locks@, polls@),
        r.live@ == live_locks(locks@, polls@),
        r.ended@ == ended_locks(locks@, polls@),
{
    let mut kept: Vec<(u64, VoterInfo)> = Vec::new();
    let mut ended: Vec<u64> = Vec::new();
    let mut locked: u128 = 0;
    let mut i: usize = 0;
    while i < locks.len()
        invariant
            i <= locks.len(),
            kept@ == live_locks(locks@.take(i as int), polls@),
            ended@ == ended_locks(locks@.take(i as int), polls@),
            locked == max_locked(kept@),
        decreases locks.len() - i,
    {
        let lock: (u64, VoterInfo) = locks[i];
        proof {
            let next = locks@.take(i + 1);
            assert(next.drop_last() =~= locks@.take(i as int));
            assert(next.last() == lock);
        }
        let live: bool = lock.0 < polls.len() as u64 && is_in_progress(&polls[lock.0 as usize]);
        if live {
            proof {
                assert(kept@.push(lock).drop_last() =~= kept@);
            }
            kept.push(lock);
            if lock.1.balance > locked {
                locked = lock.1.balance;
            }
        } else {
            ended.push(lock.0);
        }
        i += 1;
    }
    proof {
        assert(locks@.take(i as int) =~= locks@);
    }
    LockScan { locked, live: kept, ended }
}

/// Drops from `manager` the locks on polls that are no longer in progress.
/// Returns the amount that the remaining locks keep locked, which is the
/// largest of them and not their sum, and the ids of the polls whose locks
/// were dropped.
pub fn compute_locked_balance(polls: &Vec<Poll>, manager: &mut TokenManager) -> (r: (u128, Vec<u64>))
    ensures
        r.0 == spec_locked_balance(old(manager).locked_balance@, polls@),
        r.1@ == ended_locks(old(manager).locked_balance@, polls@),
        *final(manager) == (TokenManager {
            locked_balance: final(manager).locked_balance,
            ..*old(manager)
        }),
        final(manager).locked_balance@ == live_locks(old(manager).locked_balance@, polls@),
{
    let scan = scan_locks(polls, &manager.locked_balance);
    manager.locked_balance = scan.live;
    (scan.locked, scan.ended)
}

/// Whether the poll is still in progress.
pub fn is_in_progress(poll: &Poll) -> (r: bool)
    ensures
        r == (poll.status == PollStatus::InProgress),
{
    match poll.status {
        PollStatus::InProgress => true,
        _ => false,
    }
}

/// The shares that a withdrawal burns. A request for `amount` tokens burns
/// their worth in shares, rounded down, and one share at least; a request
/// without an amount burns every share that no vote locks.
pub open spec fn spec_withdraw_share(
    amount: Option<u128>,
    share: u128,
    locked_share: u128,
    total_share: u128,
    balance: u128,
) -> Result<u128, ContractError> {
    match amount {
        Some(v) => match spec_scale(v, total_share, balance) {
            Ok(s) => Ok(if s < 1 { 1 } else { s }),
            Err(e) => Err(e),
        },
        None => if locked_share > share {
            Err(ContractError::InvalidWithdrawAmount)
        } else {
            Ok((share - locked_share) as u128)
        },
    }
}

/// The tokens that a withdrawal claims: the requested amount, or the worth
/// of the burnt shares at the current ratio, rounded down.
pub open spec fn spec_withdraw_amount(
    amount: Option<u128>,
    withdraw_share: u128,
    total_share: u128,
    balance: u128,
) -> Result<u128, ContractError> {
    match amount {
        Some(v) => Ok(v),
        None => spec_scale(withdraw_share, balance, total_share),
    }
}

/// What a withdrawal request does: the shares it burns and the tokens it
/// claims, or why it fails. `locked` is the amount that votes lock.
pub open spec fn spec_withdraw(
    state: State,
    manager: TokenManager,
    locked: u128,
    queried_balance: u128,
    now: u64,
    unstaking_period: u64,
    amount: Option<u128>,
) -> Result<(u128, u128), ContractError> {
    if manager.share == 0 {
        Err(ContractError::NothingStaked)
    } else if queried_balance < state.total_deposit {
        Err(ContractError::Underflow)
    } else {
        let balance = (queried_balance - state.total_deposit) as u128;
        match spec_scale(locked, state.total_share, balance) {
            Err(e) => Err(e),
            Ok(locked_share) => match spec_withdraw_share(amount, manager.share, locked_share, state.total_share, balance) {
                Err(e) => Err(e),
                Ok(withdraw_share) => match spec_withdraw_amount(amount, withdraw_share, state.total_share, balance) {
                    Err(e) => Err(e),
                    Ok(withdraw_amount) => if locked_share + withdraw_share > manager.share {
                        Err(ContractError::InvalidWithdrawAmount)
                    } else if state.total_share < withdraw_share {
                        Err(ContractError::Underflow)
                    } else if manager.latest_claim_id == u64::MAX || now + unstaking_period > u64::MAX
                        || state.total_unbondings + withdraw_amount > u128::MAX {
                        Err(ContractError::Overflow)
                    } else {
                        Ok((withdraw_share, withdraw_amount))
                    },
                },
            },
        }
    }
}

/// Requests a withdrawal for `manager`, at time `now`. The shares that the
/// staker's votes on polls in progress lock stay: the request fails with
/// `InvalidWithdrawAmount` where it would burn more than
/// `share - locked_share`, with `locked_share` the largest lock turned into
/// shares. On success the shares are burnt, the staker's locks on ended polls
/// are dropped, and the claim to queue is returned with its id: it matures
/// at `now + unstaking_period`, and no token moves yet. On failure nothing
/// changes.
pub fn withdraw(
    state: &mut State,
    manager: &mut TokenManager,
    polls: &Vec<Poll>,
    queried_balance: u128,
    now: u64,
    unstaking_period: u64,
    amount: Option<u128>,
) -> (r: Result<(u64, TokenClaim), ContractError>)
    ensures
        match spec_withdraw(
            *old(state),
            *old(manager),
            spec_locked_balance(old(manager).locked_balance@, polls@),
            queried_balance,
            now,
            unstaking_period,
            amount,
        ) {
            Err(e) => r == Err::<(u64, TokenClaim), ContractError>(e) && *final(state) == *old(state) && *final(manager)
                == *old(manager),
            Ok((withdraw_share, withdraw_amount)) => {
                &&& r == Ok::<(u64, TokenClaim), ContractError>(
                    (
                        old(manager).latest_claim_id,
                        TokenClaim { time: (now + unstaking_period) as u64, amount: withdraw_amount },
                    ),
                )
                &&& *final(state) == (State {
                    total_share: (old(state).total_share - withdraw_share) as u128,
                    total_unbondings: (old(state).total_unbondings + withdraw_amount) as u128,
                    ..*old(state)
                })
                &&& final(manager).share == old(manager).share - withdraw_share
                &&& final(manager).latest_claim_id == old(manager).latest_claim_id + 1
                &&& final(manager).last_unlocked_claim_id == old(manager).last_unlocked_claim_id
                &&& final(manager).locked_balance@ == live_locks(old(manager).locked_balance@, polls@)
            },
        },
{
    if manager.share == 0 {
        return Err(ContractError::NothingStaked);
    }
    let balance: u128 = match queried_balance.checked_sub(state.total_deposit) {
        Some(v) => v,
        None => { return Err(ContractError::Underflow); },
    };
    let scan = scan_locks(polls, &manager.locked_balance);
    let locked_share: u128 = match scale(scan.locked, state.total_share, balance) {
        Ok(v) => v,
        Err(e) => { return Err(e); },
    };
    let withdraw_share: u128 = match amount {
        Some(v) => match scale(v, state.total_share, balance) {
            Ok(s) => if s < 1 { 1 } else { s },
            Err(e) => { return Err(e); },
        },
        None => match manager.share.checked_sub(locked_share) {
            Some(s) => s,
            None => { return Err(ContractError::InvalidWithdrawAmount); },
        },
    };
    let withdraw_amount: u128 = match amount {
        Some(v) => v,
        None => match scale(withdraw_share, balance, state.total_share) {
            Ok(a) => a,
            Err(e) => { return Err(e); },
        },
    };
    match locked_share.checked_add(withdraw_share) {
        Some(needed) => if needed > manager.share {
            return Err(ContractError::InvalidWithdrawAmount);
        },
        None => { return Err(ContractError::InvalidWithdrawAmount); },
    }
    let new_total: u128 = match state.total_share.checked_sub(withdraw_share) {
        Some(v) => v,
        None => { return Err(ContractError::Underflow); },
    };
    let next_claim_id: u64 = match manager.latest_claim_id.checked_add(1) {
        Some(v) => v,
        None => { return Err(ContractError::Overflow); },
    };
    let maturity: u64 = match now.checked_add(unstaking_period) {
        Some(v) => v,
        None => { return Err(ContractError::Overflow); },
    };
    let new_unbondings: u128 = match state.total_unbondings.checked_add(withdraw_amount) {
        Some(v) => v,
        None => { return Err(ContractError::Overflow); },
    };
    let claim_id: u64 = manager.latest_claim_id;
    manager.share = manager.share - withdraw_share;
    manager.latest_claim_id = next_claim_id;
    manager.locked_balance = scan.live;
    state.total_share = new_total;
    state.total_unbondings = new_unbondings;
    Ok((claim_id, TokenClaim { time: maturity, amount: withdraw_amount }))
}

/// The number of claims at the front of `claims` that can be unlocked at
/// `now`, `limit` at most: the length of the run of matured claims that the
/// queue starts with.
pub open spec fn matured_run(claims: Seq<(u64, TokenClaim)>, now: u64, limit: nat) -> nat
    decreases limit,
{
    if limit == 0 || claims.len() == 0 || claims[0].1.time > now {
        0
    } else {
        1 + matured_run(claims.skip(1), now, (limit - 1) as nat)
    }
}

/// Unlocking is first in, first out. The run that `matured_run` counts holds
/// matured claims only, and it ends at the limit, at the end of the queue, or
/// in front of a claim that has not matured: no later claim is reached past
/// that one, whether it has matured or not.
pub proof fn lemma_matured_run_is_fifo(claims: Seq<(u64, TokenClaim)>, now: u64, limit: nat)
    ensures
        matured_run(claims, now, limit) <= limit,
        matured_run(claims, now, limit) <= claims.len(),
        forall|i: int| 0 <= i < matured_run(claims, now, limit) ==> (#[trigger] claims[i]).1.time <= now,
        matured_run(claims, now, limit) == limit || matured_run(claims, now, limit) == claims.len()
            || claims[matured_run(claims, now, limit) as int].1.time > now,
    decreases limit,
{
    if limit == 0 || claims.len() == 0 || claims[0].1.time > now {
    } else {
        let rest = claims.skip(1);
        lemma_matured_run_is_fifo(rest, now, (limit - 1) as nat);
        let n = matured_run(rest, now, (limit - 1) as nat);
        assert forall|i: int| 0 <= i < n + 1 implies (#[trigger] claims[i]).1.time <= now by {
            if i > 0 {
                assert(claims[i] == rest[i - 1]);
            }
        }
        if n < limit - 1 && n < rest.len() {
            assert(claims[n as int + 1] == rest[n as int]);
        }
    }
}

/// A run of `done` matured claims, followed by the run of what comes after
/// them, is the run of the whole queue.
proof fn lemma_matured_run_step(claims: Seq<(u64, TokenClaim)>, now: u64, limit: nat, done: nat)
    requires
        done <= limit,
        done <= claims.len(),
        forall|i: int| 0 <= i < done ==> (#[trigger] claims[i]).1.time <= now,
    ensures
        matured_run(claims, now, limit) == done + matured_run(claims.skip(done as int), now, (limit - done) as nat),
    decreases done,
{
    if done == 0 {
        assert(claims.skip(0) =~= claims);
    } else {
        let rest = claims.skip(1);
        assert forall|i: int| 0 <= i < done - 1 implies (#[trigger] rest[i]).1.time <= now by {
            assert(rest[i] == claims[i + 1]);
        }
        lemma_matured_run_step(rest, now, (limit - 1) as nat, (done - 1) as nat);
        assert(rest.skip(done - 1) =~= claims.skip(done as int));
        assert(claims[0].1.time <= now);
    }
}

/// What unlocking the matured claims of a queue does: the amount it
/// releases, or why it fails.
pub open spec fn spec_unlock(state: State, manager: TokenManager, claims: Seq<(u64, TokenClaim)>, now: u64) -> Result<
    u128,
    ContractError,
> {
    let count = matured_run(claims, now, MAX_QUERY_LIMIT as nat);
    let amount = sum_claims(claims.take(count as int));
    if manager.latest_claim_id == manager.last_unlocked_claim_id {
        Err(ContractError::Unauthorized)
    } else if amount > u128::MAX {
        Err(ContractError::Overflow)
    } else if state.total_unbondings < amount {
        Err(ContractError::Underflow)
    } else {
        Ok(amount as u128)
    }
}

/// Unlocks the claims of `claims` that have matured at `now`, in the order
/// of the queue, up to the first claim that has not matured and up to
/// `MAX_QUERY_LIMIT` claims. The unlocked claims leave the queue, their sum
/// is returned for transfer, and `last_unlocked_claim_id` moves to the last
/// of them. Where no claim has matured, nothing changes and the amount is
/// zero. A staker who never asked for a withdrawal is refused.
pub fn unlock(
    state: &mut State,
    manager: &mut TokenManager,
    claims: &mut Vec<(u64, TokenClaim)>,
    now: u64,
) -> (r: Result<u128, ContractError>)
    ensures
        r == spec_unlock(*old(state), *old(manager), old(claims)@, now),
        match r {
            Ok(amount) => {
                let count = matured_run(old(claims)@, now, MAX_QUERY_LIMIT as nat) as int;
                &&& amount == sum_claims(old(claims)@.take(count))
                &&& final(claims)@ == old(claims)@.skip(count)
                &&& *final(state) == (State {
                    total_unbondings: (old(state).total_unbondings - amount) as u128,
                    ..*old(state)
                })
                &&& *final(manager) == (TokenManager {
                    last_unlocked_claim_id: if count > 0 {
                        old(claims)@[count - 1].0
                    } else {
                        old(manager).last_unlocked_claim_id
                    },
                    ..*old(manager)
                })
                &&& count == 0 ==> amount == 0 && *final(claims) == *old(claims) && *final(state) == *old(state)
                    && *final(manager) == *old(manager)
            },
            Err(_) => *final(claims) == *old(claims) && *final(state) == *old(state) && *final(manager) == *old(
                manager,
            ),
        },
{
    if manager.latest_claim_id == manager.last_unlocked_claim_id {
        return Err(ContractError::Unauthorized);
    }
    let ghost all = claims@;
    let ghost limit = MAX_QUERY_LIMIT as nat;
    let mut count: usize = 0;
    let mut amount: u128 = 0;
    let mut overflow: bool = false;
    let mut last_id: u64 = manager.last_unlocked_claim_id;
    while count < claims.len() && count < MAX_QUERY_LIMIT as usize && claims[count].1.time <= now
        invariant
            claims@ == all,
            count <= all.len(),
            count <= limit,
            limit == MAX_QUERY_LIMIT,
            forall|i: int| 0 <= i < count ==> (#[trigger] all[i]).1.time <= now,
            overflow ==> sum_claims(all.take(count as int)) > u128::MAX,
            !overflow ==> amount == sum_claims(all.take(count as int)),
            last_id == (if count > 0 { all[count - 1].0 } else { manager.last_unlocked_claim_id }),
            0 <= sum_claims(all.take(count as int)),
        decreases all.len() - count,
    {
        proof {
            assert(all.take(count + 1).drop_last() =~= all.take(count as int));
        }
        if !overflow {
            match amount.checked_add(claims[count].1.amount) {
                Some(v) => { amount = v; },
                None => { overflow = true; },
            }
        }
        last_id = claims[count].0;
        count += 1;
    }
    proof {
        lemma_matured_run_step(all, now, limit, count as nat);
        assert(all.skip(count as int).len() == all.len() - count);
        if count < all.len() && count < limit {
            assert(all.skip(count as int)[0] == all[count as int]);
        }
        assert(matured_run(all.skip(count as int), now, (limit - count) as nat) == 0);
        if count == 0 {
            assert(all.skip(0) =~= all);
        }
    }
    if overflow {
        return Err(ContractError::Overflow);
    }
    let new_unbondings: u128 = match state.total_unbondings.checked_sub(amount) {
        Some(v) => v,
        None => { return Err(ContractError::Underflow); },
    };
    if count == 0 {
        return Ok(0);
    }
    let mut rest: Vec<(u64, TokenClaim)> = Vec::new();
    let mut i: usize = count;
    while i < claims.len()
        invariant
            claims@ == all,
            count <= i <= all.len(),
            rest@ == all.subrange(count as int, i as int),
        decreases all.len() - i,
    {
        rest.push(claims[i]);
        proof {
            assert(all.subrange(count as int, i as int).push(all[i as int]) =~= all.subrange(count as int, i + 1));
        }
        i += 1;
    }
    proof {
        assert(all.subrange(count as int, all.len() as int) =~= all.skip(count as int));
    }
    *claims = rest;
    manager.last_unlocked_claim_id = last_id;
    state.total_unbondings = new_unbondings;
    Ok(amount)
}

/// Staking and withdrawing at once gives the deposit back, but for rounding.
/// A deposit of `amount` into a pool of `total_share` shares over a balance
/// of `balance_before`, both positive or both zero, mints shares whose worth
/// right after the deposit is never more than `amount`, and falls short of it
/// by less than one token plus the worth of one share. In an empty pool it
/// is `amount` exactly.
pub proof fn lemma_stake_withdraw_round_trip(amount: u128, total_share: u128, balance_before: u128)
    requires
        amount > 0,
        (total_share == 0) == (balance_before == 0),
        balance_before + amount <= u128::MAX,
        spec_minted_share(amount, total_share, balance_before) is Ok,
        total_share + spec_minted_share(amount, total_share, balance_before)->Ok_0 <= u128::MAX,
    ensures
        ({
            let minted = spec_minted_share(amount, total_share, balance_before)->Ok_0;
            let shares = (total_share + minted) as u128;
            let balance = (balance_before + amount) as u128;
            let redeemed = spec_withdraw_amount(None, minted, shares, balance);
            &&& redeemed is Ok
            &&& redeemed->Ok_0 <= amount
            &&& (amount - redeemed->Ok_0) * shares < balance_before + shares
            &&& total_share == 0 ==> redeemed->Ok_0 == amount
        }),
{
    let minted = spec_minted_share(amount, total_share, balance_before)->Ok_0;
    let shares = (total_share + minted) as u128;
    let balance = (balance_before + amount) as u128;
    let a = amount as int;
    let m = minted as int;
    let s = total_share as int;
    let b = balance_before as int;
    if total_share == 0 {
        assert(m == a);
        assert((a * a) / a == a) by (nonlinear_arith)
            requires
                a > 0,
        ;
        assert(minted * balance == a * a);
        assert((amount - amount) * shares == 0) by (nonlinear_arith);
    } else {
        lemma_ratio_is_floor(amount, total_share, balance_before);
        assert(m * b <= a * s);
        assert(a * s < (m + 1) * b);
        let p = m * (b + a);
        let d = s + m;
        assert(p <= a * d) by (nonlinear_arith)
            requires
                p == m * (b + a),
                d == s + m,
                m * b <= a * s,
        ;
        assert(0 <= p) by (nonlinear_arith)
            requires
                p == m * (b + a),
                m >= 0,
                b >= 0,
                a >= 0,
        ;
        vstd::arithmetic::div_mod::lemma_fundamental_div_mod(p, d);
        vstd::arithmetic::div_mod::lemma_mod_bound(p, d);
        let q = p / d;
        assert(q <= a) by (nonlinear_arith)
            requires
                p == d * q + p % d,
                0 <= p % d,
                p <= a * d,
                d > 0,
        ;
        assert(0 <= q) by (nonlinear_arith)
            requires
                p == d * q + p % d,
                p % d < d,
                0 <= p,
                d > 0,
        ;
        assert(minted * balance == p);
        assert(ratio(minted, balance, shares) == Ok::<u128, RatioError>(q as u128));
        assert((a - q) * d < b + d) by (nonlinear_arith)
            requires
                p == d * q + p % d,
                p % d < d,
                p == m * (b + a),
                d == s + m,
                a * s < (m + 1) * b,
        ;
    }
}

/// The shares that a staker can withdraw: the staker's shares less the
/// shares that the staker's votes lock, which are the worth in shares of the
/// largest lock on a poll in progress.
pub open spec fn spec_withdrawable_share(
    share: u128,
    locks: Seq<(u64, VoterInfo)>,
    polls: Seq<Poll>,
    total_share: u128,
    balance: u128,
) -> Result<u128, ContractError> {
    match spec_scale(spec_locked_balance(locks, polls), total_share, balance) {
        Err(e) => Err(e),
        Ok(locked_share) => if locked_share > share {
            Err(ContractError::InvalidWithdrawAmount)
        } else {
            Ok((share - locked_share) as u128)
        },
    }
}

/// A withdrawal never takes more shares than can be withdrawn, and one
/// without an amount takes exactly those; a request is refused as an
/// invalid withdrawal exactly where it asks for more. What counts as locked
/// is the largest lock on a poll in progress, whatever the sum of the locks
/// is.
pub proof fn lemma_withdraw_respects_locks(
    state: State,
    manager: TokenManager,
    polls: Seq<Poll>,
    queried_balance: u128,
    now: u64,
    unstaking_period: u64,
    amount: Option<u128>,
)
    requires
        manager.share > 0,
        queried_balance >= state.total_deposit,
    ensures
        ({
            let balance = (queried_balance - state.total_deposit) as u128;
            let locked = spec_locked_balance(manager.locked_balance@, polls);
            let withdrawable = spec_withdrawable_share(
                manager.share,
                manager.locked_balance@,
                polls,
                state.total_share,
                balance,
            );
            let outcome = spec_withdraw(state, manager, locked, queried_balance, now, unstaking_period, amount);
            &&& locked == max_locked(live_locks(manager.locked_balance@, polls))
            &&& locked <= sum_locked(live_locks(manager.locked_balance@, polls))
            &&& outcome is Ok ==> withdrawable is Ok && outcome->Ok_0.0 <= withdrawable->Ok_0
            &&& outcome is Ok && amount is None ==> outcome->Ok_0.0 == withdrawable->Ok_0
            &&& withdrawable is Ok && amount is Some && spec_scale(amount->Some_0, state.total_share, balance) is Ok ==> (
            outcome == Err::<(u128, u128), ContractError>(ContractError::InvalidWithdrawAmount) <==> spec_withdraw_share(
                amount,
                manager.share,
                (manager.share - withdrawable->Ok_0) as u128,
                state.total_share,
                balance,
            )->Ok_0 > withdrawable->Ok_0)
        }),
{
    lemma_max_locked_below_sum(live_locks(manager.locked_balance@, polls));
}

/// Once a poll has left `InProgress`, no lock on it counts any more: the
/// votes in it lock nothing.
pub proof fn lemma_ended_poll_locks_nothing(locks: Seq<(u64, VoterInfo)>, polls: Seq<Poll>, poll_id: u64)
    requires
        !in_progress(polls, poll_id),
    ensures
        forall|i: int|
            0 <= i < live_locks(locks, polls).len() ==> (#[trigger] live_locks(locks, polls)[i]).0 != poll_id,
    decreases locks.len(),
{
    if locks.len() > 0 {
        let rest = live_locks(locks.drop_last(), polls);
        lemma_ended_poll_locks_nothing(locks.drop_last(), polls, poll_id);
        assert forall|i: int| 0 <= i < live_locks(locks, polls).len() implies (#[trigger] live_locks(
            locks,
            polls,
        )[i]).0 != poll_id by {
            if i < rest.len() {
                assert(live_locks(locks, polls)[i] == rest[i]);
            }
        }
    }
}

} // verus!
