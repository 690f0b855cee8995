//! The failures that an operation of the library can report.

use vstd::prelude::*;

verus! {

/// Why an operation was refused. A refused operation changes nothing.
#[derive(Clone, Copy, Debug, PartialEq, Eq, Structural)]
pub enum ContractError {
    /// The caller lacks the role that the operation asks for.
    Unauthorized,
    /// A positive amount was required and zero was given.
    InsufficientFunds,
    /// The staker holds no share.
    NothingStaked,
    /// The withdrawal would take shares that are still locked by votes.
    InvalidWithdrawAmount,
    /// A hook arrived without the payload it needs.
    DataShouldBeGiven,
    /// An asynchronous reply carried an identifier that nobody waits for.
    InvalidReplyId,
    /// A sum or a product, or a ratio's result, does not fit in 128 bits.
    Overflow,
    /// A subtraction would go below zero.
    Underflow,
    /// A ratio was asked for with denominator zero.
    DivideByZero,
    /// The quorum is larger than one.
    InvalidQuorum,
    /// The threshold is larger than one.
    InvalidThreshold,
    /// No poll has the given id.
    PollNotFound,
    /// The poll has left `InProgress`, or its voting period is over.
    PollNotInProgress,
    /// The voting period of the poll has not passed yet.
    PollVotingPeriod,
    /// The poll is not in status `Passed`.
    PollNotPassed,
    /// The poll is not in status `Executed`.
    PollNotExecuted,
    /// The timelock after the end of the poll has not elapsed.
    TimelockNotExpired,
    /// The voter already has a vote of at least this weight in the poll.
    AlreadyVoted,
    /// The voter's balance is smaller than the weight of the vote.
    InsufficientStaked,
    /// The deposit is smaller than the configured proposal deposit.
    InsufficientProposalDeposit,
    /// The poll has been snapshotted before.
    SnapshotAlreadyOccurred,
    /// The height is outside the snapshot window of the poll.
    SnapshotHeight,
    /// No airdrop has the given id.
    AirdropNotFound,
    /// No token version, state or staker record of that number exists.
    NotFound,
    /// More than the bonded amount was asked back.
    InvalidUnbondAmount,
}

impl ContractError {
    /// The message shown to the caller: what [`Self::spec_message`] gives.
    pub fn message(&self) -> (s: &'static str)
        ensures
            s@ == self.spec_message(),
    {
        match self {
            ContractError::Unauthorized => "Unauthorized",
            ContractError::InsufficientFunds => "Insufficient funds sent",
            ContractError::NothingStaked => "Nothing staked",
            ContractError::InvalidWithdrawAmount => "Invalid withdraw amount",
            ContractError::DataShouldBeGiven => "Data should be given",
            ContractError::InvalidReplyId => "Invalid reply ID",
            ContractError::Overflow => "Arithmetic overflow",
            ContractError::Underflow => "Arithmetic underflow",
            ContractError::DivideByZero => "Denominator must not be zero",
            ContractError::InvalidQuorum => "quorum must be 0 to 1",
            ContractError::InvalidThreshold => "threshold must be 0 to 1",
            ContractError::PollNotFound => "Poll does not exist",
            ContractError::PollNotInProgress => "Poll is not in progress",
            ContractError::PollVotingPeriod => "Voting period has not expired",
            ContractError::PollNotPassed => "Poll is not in passed status",
            ContractError::PollNotExecuted => "Poll is not in executed status",
            ContractError::TimelockNotExpired => "Timelock period has not expired",
            ContractError::AlreadyVoted => "User has already voted",
            ContractError::InsufficientStaked => "User does not have enough staked tokens",
            ContractError::InsufficientProposalDeposit => "Must deposit more than the proposal deposit",
            ContractError::SnapshotAlreadyOccurred => "Snapshot has already occurred",
            ContractError::SnapshotHeight => "Cannot snapshot at this height",
            ContractError::AirdropNotFound => "Airdrop does not exist",
            ContractError::NotFound => "Not found",
            ContractError::InvalidUnbondAmount => "Cannot unbond more than bond amount",
        }
    }

    /// The text that tells the caller of each failure.
    pub open spec fn spec_message(&self) -> Seq<char> {
        match self {
            ContractError::Unauthorized => "Unauthorized"@,
            ContractError::InsufficientFunds => "Insufficient funds sent"@,
            ContractError::NothingStaked => "Nothing staked"@,
            ContractError::InvalidWithdrawAmount => "Invalid withdraw amount"@,
            ContractError::DataShouldBeGiven => "Data should be given"@,
            ContractError::InvalidReplyId => "Invalid reply ID"@,
            ContractError::Overflow => "Arithmetic overflow"@,
            ContractError::Underflow => "Arithmetic underflow"@,
            ContractError::DivideByZero => "Denominator must not be zero"@,
            ContractError::InvalidQuorum => "quorum must be 0 to 1"@,
            ContractError::InvalidThreshold => "threshold must be 0 to 1"@,
            ContractError::PollNotFound => "Poll does not exist"@,
            ContractError::PollNotInProgress => "Poll is not in progress"@,
            ContractError::PollVotingPeriod => "Voting period has not expired"@,
            ContractError::PollNotPassed => "Poll is not in passed status"@,
            ContractError::PollNotExecuted => "Poll is not in executed status"@,
            ContractError::TimelockNotExpired => "Timelock period has not expired"@,
            ContractError::AlreadyVoted => "User has already voted"@,
            ContractError::InsufficientStaked => "User does not have enough staked tokens"@,
            ContractError::InsufficientProposalDeposit => "Must deposit more than the proposal deposit"@,
            ContractError::SnapshotAlreadyOccurred => "Snapshot has already occurred"@,
            ContractError::SnapshotHeight => "Cannot snapshot at this height"@,
            ContractError::AirdropNotFound => "Airdrop does not exist"@,
            ContractError::NotFound => "Not found"@,
            ContractError::InvalidUnbondAmount => "Cannot unbond more than bond amount"@,
        }
    }
}

} // verus!
