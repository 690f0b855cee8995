//! The life of a poll: creation, voting, snapshot, end, execution, failure.
//!
//! A poll moves `InProgress -> Passed | Rejected` and
//! `Passed -> Executed -> Failed`; no status is entered twice.

use crate::error::ContractError;
use crate::gov::msg::PollCategory;
use crate::gov::msg::PollExecuteMsg;
use crate::gov::msg::PollStatus;
use crate::gov::msg::VoteOption;
use crate::gov::msg::VoterInfo;
use crate::gov::staking::share_balance;
use crate::gov::staking::spec_share_balance;
use crate::gov::states::Config;
use crate::gov::states::Poll;
use crate::gov::states::State;
use crate::gov::states::TokenManager;
use crate::math::DECIMAL_FRACTIONAL;
use crate::math::Decimal;
use crate::math::checked_multiply_ratio;

use vstd::prelude::*;

verus! {

/// The steps that a poll can take.
pub open spec fn transition_allowed(from: PollStatus, to: PollStatus) -> bool {
    match (from, to) {
        (PollStatus::InProgress, PollStatus::Passed) => true,
        (PollStatus::InProgress, PollStatus::Rejected) => true,
        (PollStatus::Passed, PollStatus::Executed) => true,
        (PollStatus::Executed, PollStatus::Failed) => true,
        _ => false,
    }
}

/// How far a status is from the start of a poll's life.
pub open spec fn status_rank(status: PollStatus) -> nat {
    match status {
        PollStatus::InProgress => 0,
        PollStatus::Passed => 1,
        PollStatus::Executed => 2,
        PollStatus::Rejected => 3,
        PollStatus::Failed => 3,
        PollStatus::Expired => 3,
    }
}

/// Every step moves a poll further from its start, so that no status is
/// entered twice, and nothing follows `Rejected` or `Failed`.
pub proof fn lemma_transitions_are_one_way(from: PollStatus, to: PollStatus)
    requires
        transition_allowed(from, to),
    ensures
        status_rank(from) < status_rank(to),
        from != PollStatus::Rejected,
        from != PollStatus::Failed,
        !transition_allowed(to, from),
{
}

/// What creating a poll does: whether it succeeds, or why it fails.
pub open spec fn spec_create(state: State, config: Config, height: u64, deposit_amount: u128) -> Result<
    (),
    ContractError,
> {
    if deposit_amount < config.proposal_deposit {
        Err(ContractError::InsufficientProposalDeposit)
    } else if state.poll_count == u64::MAX || height + config.voting_period > u64::MAX || state.total_deposit
        + deposit_amount > u128::MAX {
        Err(ContractError::Overflow)
    } else {
        Ok(())
    }
}

/// Opens a poll at `height` for a deposit of `deposit_amount`, which has to
/// reach the configured proposal deposit. The poll gets the next id, is in
/// progress until `height + voting_period`, has no votes and no snapshot,
/// and holds the deposit in escrow. On failure nothing changes.
pub fn create(
    state: &mut State,
    config: &Config,
    height: u64,
    proposer: String,
    deposit_amount: u128,
    title: String,
    category: PollCategory,
    description: String,
    link: Option<String>,
    execute_msgs: Option<Vec<PollExecuteMsg>>,
) -> (r: Result<Poll, ContractError>)
    ensures
        match spec_create(*old(state), *config, height, deposit_amount) {
            Err(e) => r == Err::<Poll, ContractError>(e) && *final(state) == *old(state),
            Ok(_) => {
                &&& r == Ok::<Poll, ContractError>(
                    Poll {
                        id: old(state).poll_count,
                        creator: proposer,
                        status: PollStatus::InProgress,
                        yes_votes: 0,
                        no_votes: 0,
                        end_height: (height + config.voting_period) as u64,
                        title,
                        category,
                        description,
                        link,
                        execute_data: execute_msgs,
                        deposit_amount,
                        total_balance_at_end_poll: None,
                        staked_amount: None,
                    },
                )
                &&& *final(state) == (State {
                    poll_count: (old(state).poll_count + 1) as u64,
                    total_deposit: (old(state).total_deposit + deposit_amount) as u128,
                    ..*old(state)
                })
            },
        },
{
    if deposit_amount < config.proposal_deposit {
        return Err(ContractError::InsufficientProposalDeposit);
    }
    let next_count: u64 = match state.poll_count.checked_add(1) {
        Some(v) => v,
        None => { return Err(ContractError::Overflow); },
    };
    let end_height: u64 = match height.checked_add(config.voting_period) {
        Some(v) => v,
        None => { return Err(ContractError::Overflow); },
    };
    let new_deposit: u128 = match state.total_deposit.checked_add(deposit_amount) {
        Some(v) => v,
        None => { return Err(ContractError::Overflow); },
    };
    let poll = Poll {
        id: state.poll_count,
        creator: proposer,
        status: PollStatus::InProgress,
        yes_votes: 0,
        no_votes: 0,
        end_height,
        title,
        category,
        description,
        link,
        execute_data: execute_msgs,
        deposit_amount,
        total_balance_at_end_poll: None,
        staked_amount: None,
    };
    state.poll_count = next_count;
    state.total_deposit = new_deposit;
    Ok(poll)
}

/// Whether `locks` holds a lock on the poll.
pub open spec fn has_lock(locks: Seq<(u64, VoterInfo)>, poll_id: u64) -> bool {
    exists|i: int| 0 <= i < locks.len() && (#[trigger] locks[i]).0 == poll_id
}

/// The place of the first lock on the poll in `locks`.
pub open spec fn lock_index(locks: Seq<(u64, VoterInfo)>, poll_id: u64) -> int {
    choose|i: int|
        0 <= i < locks.len() && (#[trigger] locks[i]).0 == poll_id && forall|j: int|
            0 <= j < i ==> (#[trigger] locks[j]).0 != poll_id
}

/// Finds the first lock on the poll.
pub fn find_lock(locks: &Vec<(u64, VoterInfo)>, poll_id: u64) -> (r: Option<usize>)
    ensures
        r is Some == has_lock(locks@, poll_id),
        r is Some ==> r->Some_0 == lock_index(locks@, poll_id) && r->Some_0 < locks.len() && locks[r->Some_0 as int].0
            == poll_id,
{
    let mut i: usize = 0;
    while i < locks.len()
        invariant
            i <= locks.len(),
            forall|j: int| 0 <= j < i ==> (#[trigger] locks[j]).0 != poll_id,
        decreases locks.len() - i,
    {
        if locks[i].0 == poll_id {
            proof {
                let k = lock_index(locks@, poll_id);
                assert(locks@[i as int].0 == poll_id);
                assert(k == i) by {
                    if k < i {
                        assert(locks@[k].0 != poll_id);
                    }
                    if k > i {
                        assert(locks@[i as int].0 != poll_id);
                    }
                }
            }
            return Some(i);
        }
        i += 1;
    }
    None
}

/// What the voter's earlier vote `previous` has put on `side` of the tally.
pub open spec fn spec_earlier_weight(previous: Option<VoterInfo>, side: VoteOption) -> u128 {
    match previous {
        Some(p) => if p.vote == side { p.balance } else { 0 },
        None => 0,
    }
}

/// The tally of one side after a vote of `amount` for `vote` has replaced
/// the voter's earlier vote `previous` in the poll.
pub open spec fn spec_tally(
    tally: u128,
    side: VoteOption,
    previous: Option<VoterInfo>,
    vote: VoteOption,
    amount: u128,
) -> int {
    tally - spec_earlier_weight(previous, side) + (if vote == side { amount as int } else { 0 })
}

/// What a vote does: whether it succeeds, or why it fails. `previous` is the
/// voter's earlier vote in this poll, if there is one.
pub open spec fn spec_cast_vote(
    poll: Poll,
    state: State,
    share: u128,
    previous: Option<VoterInfo>,
    queried_balance: u128,
    height: u64,
    vote: VoteOption,
    amount: u128,
) -> Result<(), ContractError> {
    if poll.status != PollStatus::InProgress || height > poll.end_height {
        Err(ContractError::PollNotInProgress)
    } else if queried_balance < state.total_deposit {
        Err(ContractError::Underflow)
    } else {
        match spec_share_balance(share, state.total_share, (queried_balance - state.total_deposit) as u128) {
            Err(e) => Err(e),
            Ok(balance) => if balance < amount {
                Err(ContractError::InsufficientStaked)
            } else if previous is Some && previous->Some_0.balance >= amount {
                Err(ContractError::AlreadyVoted)
            } else if poll.yes_votes < spec_earlier_weight(previous, VoteOption::Yes) || poll.no_votes
                < spec_earlier_weight(previous, VoteOption::No) {
                Err(ContractError::Underflow)
            } else if spec_tally(poll.yes_votes, VoteOption::Yes, previous, vote, amount) > u128::MAX || spec_tally(
                poll.no_votes,
                VoteOption::No,
                previous,
                vote,
                amount,
            ) > u128::MAX {
                Err(ContractError::Overflow)
            } else {
                Ok(())
            },
        }
    }
}

/// The earlier vote of the owner of `locks` in the poll.
pub open spec fn previous_vote(locks: Seq<(u64, VoterInfo)>, poll_id: u64) -> Option<VoterInfo> {
    if has_lock(locks, poll_id) {
        Some(locks[lock_index(locks, poll_id)].1)
    } else {
        None
    }
}

/// The locks after a vote of `amount` for `vote` in the poll: the earlier
/// lock on the poll is overwritten, or a new lock is added at the end.
pub open spec fn spec_locks_after_vote(
    locks: Seq<(u64, VoterInfo)>,
    poll_id: u64,
    vote: VoteOption,
    amount: u128,
) -> Seq<
    (u64, VoterInfo),
> {
    if has_lock(locks, poll_id) {
        locks.update(lock_index(locks, poll_id), (poll_id, VoterInfo { vote, balance: amount }))
    } else {
        locks.push((poll_id, VoterInfo { vote, balance: amount }))
    }
}

/// Casts `amount` for `vote` in `poll`, at `height`, for the staker
/// `manager`. The poll has to be in progress and `height` not past its end;
/// `amount` may not exceed the worth of the staker's shares. Votes in other
/// polls take nothing from that bound: the same tokens back every vote. A
/// staker who has voted in this poll may vote again only with a larger
/// amount; the new vote then replaces the old one in the tally. The lock on
/// the poll is written to the staker's locks. On failure nothing changes.
pub fn cast_vote(
    poll: &mut Poll,
    manager: &mut TokenManager,
    state: &State,
    queried_balance: u128,
    height: u64,
    vote: VoteOption,
    amount: u128,
) -> (r: Result<(), ContractError>)
    ensures
        r == spec_cast_vote(
            *old(poll),
            *state,
            old(manager).share,
            previous_vote(old(manager).locked_balance@, old(poll).id),
            queried_balance,
            height,
            vote,
            amount,
        ),
        match r {
            Ok(_) => {
                let previous = previous_vote(old(manager).locked_balance@, old(poll).id);
                &&& *final(poll) == (Poll {
                    yes_votes: spec_tally(old(poll).yes_votes, VoteOption::Yes, previous, vote, amount) as u128,
                    no_votes: spec_tally(old(poll).no_votes, VoteOption::No, previous, vote, amount) as u128,
                    ..*old(poll)
                })
                &&& *final(manager) == (TokenManager {
                    locked_balance: final(manager).locked_balance,
                    ..*old(manager)
                })
                &&& final(manager).locked_balance@ == spec_locks_after_vote(
                    old(manager).locked_balance@,
                    old(poll).id,
                    vote,
                    amount,
                )
            },
            Err(_) => *final(poll) == *old(poll) && *final(manager) == *old(manager),
        },
{
    let in_progress: bool = match poll.status {
        PollStatus::InProgress => true,
        _ => false,
    };
    if !in_progress || height > poll.end_height {
        return Err(ContractError::PollNotInProgress);
    }
    let pool_balance: u128 = match queried_balance.checked_sub(state.total_deposit) {
        Some(v) => v,
        None => { return Err(ContractError::Underflow); },
    };
    let balance: u128 = match share_balance(manager.share, state.total_share, pool_balance) {
        Ok(v) => v,
        Err(e) => { return Err(e); },
    };
    if balance < amount {
        return Err(ContractError::InsufficientStaked);
    }
    let found: Option<usize> = find_lock(&manager.locked_balance, poll.id);
    let (prev_yes, prev_no): (u128, u128) = match found {
        Some(i) => {
            let p: VoterInfo = manager.locked_balance[i].1;
            if p.balance >= amount {
                return Err(ContractError::AlreadyVoted);
            }
            match p.vote {
                VoteOption::Yes => (p.balance, 0),
                VoteOption::No => (0, p.balance),
            }
        },
        None => (0, 0),
    };
    let (add_yes, add_no): (u128, u128) = match vote {
        VoteOption::Yes => (amount, 0),
        VoteOption::No => (0, amount),
    };
    let yes_base: u128 = match poll.yes_votes.checked_sub(prev_yes) {
        Some(v) => v,
        None => { return Err(ContractError::Underflow); },
    };
    let no_base: u128 = match poll.no_votes.checked_sub(prev_no) {
        Some(v) => v,
        None => { return Err(ContractError::Underflow); },
    };
    let yes_votes: u128 = match yes_base.checked_add(add_yes) {
        Some(v) => v,
        None => { return Err(ContractError::Overflow); },
    };
    let no_votes: u128 = match no_base.checked_add(add_no) {
        Some(v) => v,
        None => { return Err(ContractError::Overflow); },
    };
    poll.yes_votes = yes_votes;
    poll.no_votes = no_votes;
    let lock: (u64, VoterInfo) = (poll.id, VoterInfo { vote, balance: amount });
    match found {
        Some(i) => { manager.locked_balance[i] = lock; },
        None => { manager.locked_balance.push(lock); },
    }
    Ok(())
}

/// What a snapshot of the poll does: whether it succeeds, or why it fails.
pub open spec fn spec_snapshot(poll: Poll, config: Config, state: State, queried_balance: u128, height: u64) -> Result<
    (),
    ContractError,
> {
    if poll.status != PollStatus::InProgress {
        Err(ContractError::PollNotInProgress)
    } else if height > poll.end_height || poll.end_height - height > config.snapshot_period {
        Err(ContractError::SnapshotHeight)
    } else if poll.staked_amount is Some {
        Err(ContractError::SnapshotAlreadyOccurred)
    } else if queried_balance < state.total_deposit {
        Err(ContractError::Underflow)
    } else {
        Ok(())
    }
}

/// Records, once and within `snapshot_period` blocks before the end of a
/// poll in progress, the total share and the redeemable balance that the
/// quorum will be measured against. On failure nothing changes.
pub fn snapshot(poll: &mut Poll, config: &Config, state: &State, queried_balance: u128, height: u64) -> (r: Result<
    (),
    ContractError,
>)
    ensures
        r == spec_snapshot(*old(poll), *config, *state, queried_balance, height),
        match r {
            Ok(_) => *final(poll) == (Poll {
                staked_amount: Some(state.total_share),
                total_balance_at_end_poll: Some((queried_balance - state.total_deposit) as u128),
                ..*old(poll)
            }),
            Err(_) => *final(poll) == *old(poll),
        },
{
    let in_progress: bool = match poll.status {
        PollStatus::InProgress => true,
        _ => false,
    };
    if !in_progress {
        return Err(ContractError::PollNotInProgress);
    }
    if height > poll.end_height || poll.end_height - height > config.snapshot_period {
        return Err(ContractError::SnapshotHeight);
    }
    if poll.staked_amount.is_some() {
        return Err(ContractError::SnapshotAlreadyOccurred);
    }
    let balance: u128 = match queried_balance.checked_sub(state.total_deposit) {
        Some(v) => v,
        None => { return Err(ContractError::Underflow); },
    };
    poll.staked_amount = Some(state.total_share);
    poll.total_balance_at_end_poll = Some(balance);
    Ok(())
}

/// Whether the turnout reaches the quorum: votes were cast, and
/// `tallied / staked`, as a decimal rounded down, is `quorum` at least. With
/// nothing staked the turnout counts as zero.
pub open spec fn spec_quorum_met(tallied: int, staked: u128, quorum: Decimal) -> bool {
    tallied > 0 && (if staked == 0 {
        quorum.atomics == 0
    } else {
        (tallied * DECIMAL_FRACTIONAL) / (staked as int) >= quorum.atomics
    })
}

/// Whether the yes votes reach the threshold: `yes / tallied`, as a decimal
/// rounded down, is `threshold` at least.
pub open spec fn spec_threshold_met(yes: u128, tallied: int, threshold: Decimal) -> bool {
    tallied > 0 && (yes * DECIMAL_FRACTIONAL) / tallied >= threshold.atomics
}

/// A quotient rounded down reaches a whole number exactly where the
/// numerator reaches that number times the denominator.
pub proof fn lemma_floor_reaches(numerator: int, denominator: int, bound: int)
    requires
        numerator >= 0,
        denominator > 0,
    ensures
        numerator / denominator >= bound <==> numerator >= bound * denominator,
{
    vstd::arithmetic::div_mod::lemma_fundamental_div_mod(numerator, denominator);
    vstd::arithmetic::div_mod::lemma_mod_bound(numerator, denominator);
    let q = numerator / denominator;
    let m = numerator % denominator;
    if q >= bound {
        assert(denominator * q >= bound * denominator) by (nonlinear_arith)
            requires
                q >= bound,
                denominator > 0,
        ;
    } else {
        assert(denominator * q + denominator <= bound * denominator) by (nonlinear_arith)
            requires
                q + 1 <= bound,
                denominator > 0,
        ;
    }
}

/// Rounding loses nothing in the measuring of a poll: the turnout reaches
/// the quorum exactly where `tallied / staked` is the quorum at least as a
/// fraction, and the yes votes reach the threshold exactly where
/// `yes / tallied` is the threshold at least.
pub proof fn lemma_outcome_is_exact(yes: u128, tallied: int, staked: u128, quorum: Decimal, threshold: Decimal)
    requires
        tallied > 0,
        staked > 0,
    ensures
        spec_quorum_met(tallied, staked, quorum) <==> tallied * DECIMAL_FRACTIONAL >= quorum.atomics * staked,
        spec_threshold_met(yes, tallied, threshold) <==> yes * DECIMAL_FRACTIONAL >= threshold.atomics * tallied,
{
    assert(tallied * DECIMAL_FRACTIONAL >= 0) by (nonlinear_arith)
        requires
            tallied > 0,
    ;
    assert(yes * DECIMAL_FRACTIONAL >= 0) by (nonlinear_arith);
    lemma_floor_reaches(tallied * DECIMAL_FRACTIONAL, staked as int, quorum.atomics as int);
    lemma_floor_reaches(yes * DECIMAL_FRACTIONAL, tallied, threshold.atomics as int);
}

/// The share count that the quorum of a poll is measured against: the one
/// that the snapshot recorded, or else the current total.
pub open spec fn spec_staked_weight(poll: Poll, state: State) -> u128 {
    match poll.staked_amount {
        Some(s) => s,
        None => state.total_share,
    }
}

/// How a poll ends.
#[derive(Clone, Copy, Debug, PartialEq, Eq, Structural)]
pub struct PollEnd {
    /// `Passed` or `Rejected`.
    pub status: PollStatus,
    /// Whether the turnout reached the quorum. Where it did not, the deposit
    /// is forfeited; where it did, `refund` goes back to the creator.
    pub quorum_met: bool,
    /// The part of the deposit that goes back to the creator.
    pub refund: u128,
}

/// What ending a poll does: its outcome, or why it fails.
pub open spec fn spec_end(poll: Poll, config: Config, state: State, queried_balance: u128, height: u64) -> Result<
    PollEnd,
    ContractError,
> {
    let tallied = poll.yes_votes + poll.no_votes;
    let quorum_met = spec_quorum_met(tallied, spec_staked_weight(poll, state), config.quorum);
    if poll.status != PollStatus::InProgress {
        Err(ContractError::PollNotInProgress)
    } else if height <= poll.end_height {
        Err(ContractError::PollVotingPeriod)
    } else if tallied > u128::MAX {
        Err(ContractError::Overflow)
    } else if queried_balance < state.total_deposit || state.total_deposit < poll.deposit_amount {
        Err(ContractError::Underflow)
    } else {
        Ok(
            PollEnd {
                status: if quorum_met && spec_threshold_met(poll.yes_votes, tallied, config.threshold) {
                    PollStatus::Passed
                } else {
                    PollStatus::Rejected
                },
                quorum_met,
                refund: if quorum_met { poll.deposit_amount } else { 0 },
            },
        )
    }
}

/// A poll without a vote is rejected, whatever the quorum, the threshold and
/// the total share are, zero included: ending it past its end height, with
/// a balance that covers the deposits in escrow, succeeds, rejects it, and
/// returns nothing of the deposit.
pub proof fn lemma_poll_without_votes_is_rejected(
    poll: Poll,
    config: Config,
    state: State,
    queried_balance: u128,
    height: u64,
)
    requires
        poll.status == PollStatus::InProgress,
        poll.yes_votes + poll.no_votes == 0,
        height > poll.end_height,
        poll.deposit_amount <= state.total_deposit <= queried_balance,
    ensures
        spec_end(poll, config, state, queried_balance, height) == Ok::<PollEnd, ContractError>(
            PollEnd { status: PollStatus::Rejected, quorum_met: false, refund: 0 },
        ),
{
}

/// Ends the voting of `poll`, which has to be in progress and past its end
/// height. The poll passes where the turnout reaches the quorum and the yes
/// votes reach the threshold, and is rejected otherwise; a poll without any
/// vote is rejected. The deposit leaves escrow, and the figures that the
/// outcome was measured against are recorded in the poll unless a snapshot
/// has done so. On failure nothing changes.
pub fn end(poll: &mut Poll, state: &mut State, config: &Config, queried_balance: u128, height: u64) -> (r: Result<
    PollEnd,
    ContractError,
>)
    ensures
        r == spec_end(*old(poll), *config, *old(state), queried_balance, height),
        match r {
            Ok(outcome) => {
                &&& transition_allowed(old(poll).status, final(poll).status)
                &&& *final(poll) == (Poll {
                    status: outcome.status,
                    staked_amount: Some(spec_staked_weight(*old(poll), *old(state))),
                    total_balance_at_end_poll: Some(
                        match old(poll).total_balance_at_end_poll {
                            Some(b) => b,
                            None => (queried_balance - old(state).total_deposit) as u128,
                        },
                    ),
                    ..*old(poll)
                })
                &&& *final(state) == (State {
                    total_deposit: (old(state).total_deposit - old(poll).deposit_amount) as u128,
                    ..*old(state)
                })
                &&& old(poll).yes_votes + old(poll).no_votes == 0 ==> outcome.status == PollStatus::Rejected
            },
            Err(_) => *final(poll) == *old(poll) && *final(state) == *old(state),
        },
{
    let in_progress: bool = match poll.status {
        PollStatus::InProgress => true,
        _ => false,
    };
    if !in_progress {
        return Err(ContractError::PollNotInProgress);
    }
    if height <= poll.end_height {
        return Err(ContractError::PollVotingPeriod);
    }
    let tallied: u128 = match poll.yes_votes.checked_add(poll.no_votes) {
        Some(v) => v,
        None => { return Err(ContractError::Overflow); },
    };
    let balance: u128 = match queried_balance.checked_sub(state.total_deposit) {
        Some(v) => v,
        None => { return Err(ContractError::Underflow); },
    };
    let new_deposit: u128 = match state.total_deposit.checked_sub(poll.deposit_amount) {
        Some(v) => v,
        None => { return Err(ContractError::Underflow); },
    };
    let staked: u128 = match poll.staked_amount {
        Some(s) => s,
        None => state.total_share,
    };
    let quorum_met: bool = if tallied == 0 {
        false
    } else if staked == 0 {
        config.quorum.atomics == 0
    } else {
        match checked_multiply_ratio(tallied, DECIMAL_FRACTIONAL, staked) {
            Ok(turnout) => turnout >= config.quorum.atomics,
            Err(_) => true,
        }
    };
    let threshold_met: bool = if tallied == 0 {
        false
    } else {
        match checked_multiply_ratio(poll.yes_votes, DECIMAL_FRACTIONAL, tallied) {
            Ok(support) => support >= config.threshold.atomics,
            Err(_) => true,
        }
    };
    let status: PollStatus = if quorum_met && threshold_met {
        PollStatus::Passed
    } else {
        PollStatus::Rejected
    };
    let recorded_balance: u128 = match poll.total_balance_at_end_poll {
        Some(b) => b,
        None => balance,
    };
    poll.status = status;
    poll.staked_amount = Some(staked);
    poll.total_balance_at_end_poll = Some(recorded_balance);
    state.total_deposit = new_deposit;
    Ok(PollEnd { status, quorum_met, refund: if quorum_met { poll.deposit_amount } else { 0 } })
}

/// What executing a poll does: whether it succeeds, or why it fails.
pub open spec fn spec_execute(poll: Poll, config: Config, height: u64) -> Result<(), ContractError> {
    if poll.status != PollStatus::Passed {
        Err(ContractError::PollNotPassed)
    } else if height < poll.end_height + config.timelock_period {
        Err(ContractError::TimelockNotExpired)
    } else {
        Ok(())
    }
}

/// Marks a passed poll as executed, once `timelock_period` blocks have gone
/// by since its end height. The caller dispatches the poll's operations; if
/// they fail, [`fail`] corrects the status. On failure nothing changes.
pub fn execute(poll: &mut Poll, config: &Config, height: u64) -> (r: Result<(), ContractError>)
    ensures
        r == spec_execute(*old(poll), *config, height),
        match r {
            Ok(_) => *final(poll) == (Poll { status: PollStatus::Executed, ..*old(poll) }) && transition_allowed(
                old(poll).status,
                final(poll).status,
            ),
            Err(_) => *final(poll) == *old(poll),
        },
{
    let passed: bool = match poll.status {
        PollStatus::Passed => true,
        _ => false,
    };
    if !passed {
        return Err(ContractError::PollNotPassed);
    }
    let ready: bool = match poll.end_height.checked_add(config.timelock_period) {
        Some(from) => height >= from,
        None => false,
    };
    if !ready {
        return Err(ContractError::TimelockNotExpired);
    }
    poll.status = PollStatus::Executed;
    Ok(())
}

/// Corrects an executed poll to `Failed`, after its operations were reported
/// to have failed. A poll in any other status is left as it is.
pub fn fail(poll: &mut Poll) -> (r: Result<(), ContractError>)
    ensures
        r == (if old(poll).status == PollStatus::Executed {
            Ok::<(), ContractError>(())
        } else {
            Err::<(), ContractError>(ContractError::PollNotExecuted)
        }),
        match r {
            Ok(_) => *final(poll) == (Poll { status: PollStatus::Failed, ..*old(poll) }) && transition_allowed(
                old(poll).status,
                final(poll).status,
            ),
            Err(_) => *final(poll) == *old(poll),
        },
{
    let executed: bool = match poll.status {
        PollStatus::Executed => true,
        _ => false,
    };
    if !executed {
        return Err(ContractError::PollNotExecuted);
    }
    poll.status = PollStatus::Failed;
    Ok(())
}

/// Whether the operation at `a` of `data` runs before the one at `b`: it
/// has the smaller order, or the same order and the earlier place.
pub open spec fn runs_before(data: Seq<PollExecuteMsg>, a: int, b: int) -> bool {
    data[a].order < data[b].order || (data[a].order == data[b].order && a < b)
}

/// Whether `sequence` lists the places of all operations of `data` in the
/// order in which they run: by their order, and by their place where the
/// order is the same. Each place then occurs once.
pub open spec fn is_execution_order(data: Seq<PollExecuteMsg>, sequence: Seq<usize>) -> bool {
    &&& sequence.len() == data.len()
    &&& forall|k: int| 0 <= k < sequence.len() ==> (#[trigger] sequence[k]) < data.len()
    &&& forall|a: int, b: int|
        0 <= a < b < sequence.len() ==> runs_before(data, #[trigger] sequence[a] as int, #[trigger] sequence[b] as int)
}

/// The places of the operations of `data` in the order in which they run.
pub fn execution_order(data: &Vec<PollExecuteMsg>) -> (r: Vec<usize>)
    ensures
        is_execution_order(data@, r@),
{
    let mut sequence: Vec<usize> = Vec::new();
    let mut i: usize = 0;
    while i < data.len()
        invariant
            i <= data.len(),
            sequence.len() == i,
            forall|k: int| 0 <= k < sequence.len() ==> (#[trigger] sequence[k]) < i,
            forall|a: int, b: int|
                0 <= a < b < sequence.len() ==> runs_before(
                    data@,
                    #[trigger] sequence[a] as int,
                    #[trigger] sequence[b] as int,
                ),
        decreases data.len() - i,
    {
        let mut p: usize = 0;
        while p < sequence.len() && data[sequence[p]].order <= data[i].order
            invariant
                p <= sequence.len(),
                i < data.len(),
                forall|k: int| 0 <= k < sequence.len() ==> (#[trigger] sequence[k]) < i,
                forall|k: int| 0 <= k < p ==> data[(#[trigger] sequence[k]) as int].order <= data[i as int].order,
            decreases sequence.len() - p,
        {
            p += 1;
        }
        let ghost before = sequence@;
        sequence.insert(p, i);
        proof {
            assert forall|a: int, b: int| 0 <= a < b < sequence.len() implies runs_before(
                data@,
                #[trigger] sequence[a] as int,
                #[trigger] sequence[b] as int,
            ) by {
                if b < p {
                    assert(sequence[a] == before[a] && sequence[b] == before[b]);
                } else if b == p {
                    assert(sequence[a] == before[a]);
                } else if a < p {
                    assert(sequence[a] == before[a] && sequence[b] == before[b - 1]);
                } else if a == p {
                    assert(sequence[b] == before[b - 1]);
                    if p < before.len() && b - 1 > p {
                        assert(runs_before(data@, before[p as int] as int, before[b - 1] as int));
                    }
                } else {
                    assert(sequence[a] == before[a - 1] && sequence[b] == before[b - 1]);
                }
            }
            assert forall|k: int| 0 <= k < sequence.len() implies (#[trigger] sequence[k]) < i + 1 by {
                if k < p {
                    assert(sequence[k] == before[k]);
                } else if k > p {
                    assert(sequence[k] == before[k - 1]);
                }
            }
        }
        i += 1;
    }
    sequence
}

} // verus!
