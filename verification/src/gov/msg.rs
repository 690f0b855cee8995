//! The commands and queries that the governance ledger understands.

use crate::common::Attribute;
use crate::common::OrderBy;
use crate::math::Decimal;

use vstd::prelude::*;

verus! {

/// Where a poll stands. A poll starts `InProgress`, ends as `Passed` or
/// `Rejected`, and a passed poll becomes `Executed` or `Failed`.
#[derive(Clone, Copy, Debug, PartialEq, Eq, Structural)]
pub enum PollStatus {
    InProgress,
    Passed,
    Rejected,
    Executed,
    /// No longer given to any poll; kept so that old records still read.
    Expired,
    Failed,
}

impl PollStatus {
    /// The name of the status, as it is shown.
    pub fn to_string(&self) -> (s: String)
        ensures
            s@ == self.spec_name(),
    {
        match self {
            PollStatus::InProgress => "InProgress".to_string(),
            PollStatus::Passed => "Passed".to_string(),
            PollStatus::Rejected => "Rejected".to_string(),
            PollStatus::Executed => "Executed".to_string(),
            PollStatus::Expired => "Expired".to_string(),
            PollStatus::Failed => "Failed".to_string(),
        }
    }

    pub open spec fn spec_name(&self) -> Seq<char> {
        match self {
            PollStatus::InProgress => "InProgress"@,
            PollStatus::Passed => "Passed"@,
            PollStatus::Rejected => "Rejected"@,
            PollStatus::Executed => "Executed"@,
            PollStatus::Expired => "Expired"@,
            PollStatus::Failed => "Failed"@,
        }
    }
}

/// The subject area of a poll.
#[derive(Clone, Copy, Debug, PartialEq, Eq, Structural)]
pub enum PollCategory {
    Core,
    Gateway,
    /// A poll that belongs to no category.
    Uncategorized,
}

impl PollCategory {
    /// The name of the category, as it is shown.
    pub fn to_string(&self) -> (s: String)
        ensures
            s@ == self.spec_name(),
    {
        match self {
            PollCategory::Core => "Core".to_string(),
            PollCategory::Gateway => "Gateway".to_string(),
            PollCategory::Uncategorized => "None".to_string(),
        }
    }

    pub open spec fn spec_name(&self) -> Seq<char> {
        match self {
            PollCategory::Core => "Core"@,
            PollCategory::Gateway => "Gateway"@,
            PollCategory::Uncategorized => "None"@,
        }
    }
}

/// The side that a vote takes.
#[derive(Clone, Copy, Debug, PartialEq, Eq, Structural)]
pub enum VoteOption {
    Yes,
    No,
}

impl VoteOption {
    /// `"yes"` or `"no"`.
    pub fn to_string(&self) -> (s: String)
        ensures
            s@ == (if *self == VoteOption::Yes { "yes"@ } else { "no"@ }),
    {
        if *self == VoteOption::Yes {
            "yes".to_string()
        } else {
            "no".to_string()
        }
    }
}

/// What the ledger is created with.
#[derive(Clone, Debug, PartialEq)]
pub struct InstantiateMsg {
    pub voting_token: String,
    pub quorum: Decimal,
    pub threshold: Decimal,
    pub voting_period: u64,
    pub timelock_period: u64,
    pub proposal_deposit: u128,
    pub snapshot_period: u64,
    pub unstaking_period: u64,
}

/// The commands on polls.
#[derive(Clone, Debug, PartialEq)]
pub enum PollMsg {
    CastVote { poll_id: u64, vote: VoteOption, amount: u128 },
    /// Mark a passed poll as executed and schedule its operations.
    Execute { poll_id: u64 },
    /// Run the operations of an executed poll. Only the ledger sends this.
    ExecuteMsgs { poll_id: u64 },
    Snapshot { poll_id: u64 },
    End { poll_id: u64 },
}

/// The commands on stakes.
#[derive(Clone, Debug, PartialEq)]
pub enum StakingMsg {
    /// Credit a deposit. Only the ledger sends this.
    StakeInternal { sender: String, amount: u128 },
    Unstake { amount: Option<u128> },
    /// Queue a withdrawal. Only the ledger sends this.
    UnstakeInternal { sender: String, amount: Option<u128> },
    Unlock { target: Option<String> },
}

/// The commands on airdrops.
#[derive(Clone, Debug, PartialEq)]
pub enum AirdropMsg {
    Instantiate { start: u64, period: u64, reward_token: String, reward_amount: u128 },
    Allocate { airdrop_id: u64, recipient: String, allocate_amount: u128 },
    Deallocate { airdrop_id: u64, recipient: String, deallocate_amount: u128 },
    Update { target: Option<String> },
    Claim { target: Option<String> },
    /// Pay out one airdrop to one staker. Only the ledger sends this.
    ClaimInternal { sender: String, airdrop_id: u64 },
}

/// One operation that a poll asks to run if it passes.
#[derive(Clone, Debug, PartialEq)]
pub struct PollExecuteMsg {
    pub order: u64,
    pub contract: String,
    pub msg: Vec<u8>,
}

/// What arrives together with a transfer of the governance token.
#[derive(Clone, Debug, PartialEq)]
pub enum Cw20HookMsg {
    /// Stake the transferred tokens.
    Stake,
    /// Open a poll with the transferred tokens as its deposit.
    CreatePoll {
        title: String,
        category: PollCategory,
        description: String,
        link: Option<String>,
        execute_msgs: Option<Vec<PollExecuteMsg>>,
    },
}

/// A transfer of tokens to the ledger, as the token reports it.
#[derive(Clone, Debug, PartialEq)]
pub struct Cw20ReceiveMsg {
    /// Who sent the tokens.
    pub sender: String,
    pub amount: u128,
    /// The request that came with the tokens, if one could be read.
    pub msg: Option<Cw20HookMsg>,
}

/// The commands.
#[derive(Clone, Debug, PartialEq)]
pub enum ExecuteMsg {
    Receive(Cw20ReceiveMsg),
    UpdateConfig {
        owner: Option<String>,
        quorum: Option<Decimal>,
        threshold: Option<Decimal>,
        voting_period: Option<u64>,
        timelock_period: Option<u64>,
        proposal_deposit: Option<u128>,
        snapshot_period: Option<u64>,
    },
    Poll(PollMsg),
    Staking(StakingMsg),
    Airdrop(AirdropMsg),
}

/// The queries. None of them changes the ledger.
#[derive(Clone, Debug, PartialEq)]
pub enum QueryMsg {
    Config,
    State,
    /// One claim of a staker.
    Claim { address: String, claim_id: u64 },
    /// The claims of a staker, by id, a page at a time.
    Claims { address: String, start_after: Option<u64>, limit: Option<u32>, order: Option<OrderBy> },
    Staker { address: String },
    Stakers { start_after: Option<String>, limit: Option<u32>, order: Option<OrderBy> },
    Airdrop { airdrop_id: u64 },
    Airdrops { start_after: Option<u64>, limit: Option<u32>, order_by: Option<OrderBy> },
    Poll { poll_id: u64 },
    /// The polls, by id, a page at a time; with a status filter only polls
    /// of that status, else with a category filter only polls of that
    /// category.
    Polls {
        status_filter: Option<PollStatus>,
        category_filter: Option<PollCategory>,
        start_after: Option<u64>,
        limit: Option<u32>,
        order_by: Option<OrderBy>,
    },
    Voters { poll_id: u64, start_after: Option<String>, limit: Option<u32>, order_by: Option<OrderBy> },
}

/// The upgrades of a ledger from earlier record shapes.
#[derive(Clone, Debug, PartialEq)]
pub enum MigrateMsg {
    /// Add the total of the unbonding claims to the totals.
    State { total_unbondings: u128 },
    General,
}

/// What a staker can claim from one airdrop.
#[derive(Clone, Debug, PartialEq)]
pub struct ClaimableAirdrop {
    pub token: String,
    pub amount: u128,
}

/// The weight a voter has committed to one side of a poll.
#[derive(Clone, Copy, Debug, PartialEq, Eq, Structural)]
pub struct VoterInfo {
    pub vote: VoteOption,
    pub balance: u128,
}

#[derive(Clone, Debug, PartialEq)]
pub struct ConfigResponse {
    pub owner: String,
    pub pylon_token: String,
    pub quorum: Decimal,
    pub threshold: Decimal,
    pub voting_period: u64,
    pub timelock_period: u64,
    pub proposal_deposit: u128,
    pub snapshot_period: u64,
    pub unstaking_period: u64,
}

#[derive(Clone, Debug, PartialEq)]
pub struct StateResponse {
    pub poll_count: u64,
    pub total_share: u128,
    pub total_deposit: u128,
    pub total_airdrop_count: u64,
    pub airdrop_update_candidates: Vec<u64>,
}

#[derive(Clone, Copy, Debug, PartialEq, Eq, Structural)]
pub struct ClaimResponse {
    pub time: u64,
    pub amount: u128,
}

#[derive(Clone, Debug, PartialEq)]
pub struct ClaimsResponse {
    pub claims: Vec<(u64, ClaimResponse)>,
}

#[derive(Clone, Debug, PartialEq)]
pub struct StakerResponse {
    /// The tokens that the staker's shares are worth.
    pub balance: u128,
    pub share: u128,
    pub latest_claim_id: u64,
    pub last_unlocked_claim_id: u64,
    /// What the staker can claim from each airdrop, where it is not zero.
    pub claimable_airdrop: Vec<(u64, ClaimableAirdrop)>,
    /// The staker's locks on polls in progress.
    pub locked_balance: Vec<(u64, VoterInfo)>,
}

#[derive(Clone, Debug, PartialEq)]
pub struct StakersResponse {
    pub stakers: Vec<(String, StakerResponse)>,
}

#[derive(Clone, Debug, PartialEq)]
pub struct AirdropResponse {
    pub start: u64,
    pub period: u64,
    pub reward_token: String,
    pub reward_rate: Decimal,
}

#[derive(Clone, Debug, PartialEq)]
pub struct AirdropsResponse {
    pub airdrops: Vec<(u64, AirdropResponse)>,
}

#[derive(Clone, Debug, PartialEq)]
pub struct PollResponse {
    pub id: u64,
    pub creator: String,
    pub status: PollStatus,
    pub end_height: u64,
    pub title: String,
    pub category: PollCategory,
    pub description: String,
    pub link: Option<String>,
    pub deposit_amount: u128,
    pub execute_data: Option<Vec<PollExecuteMsg>>,
    pub yes_votes: u128,
    pub no_votes: u128,
    pub staked_amount: Option<u128>,
    pub total_balance_at_end_poll: Option<u128>,
}

#[derive(Clone, Debug, PartialEq)]
pub struct PollsResponse {
    pub polls: Vec<PollResponse>,
}

#[derive(Clone, Debug, PartialEq)]
pub struct VotersResponseItem {
    pub voter: String,
    pub vote: VoteOption,
    pub balance: u128,
}

#[derive(Clone, Debug, PartialEq)]
pub struct VotersResponse {
    pub voters: Vec<VotersResponseItem>,
}

/// Where a command runs: the block, and the address of the ledger itself.
#[derive(Clone, Debug, PartialEq)]
pub struct Env {
    pub block: crate::common::BlockInfo,
    pub contract_address: String,
}

/// Who sent a command.
#[derive(Clone, Debug, PartialEq)]
pub struct MessageInfo {
    pub sender: String,
}

/// What the host has to do after a command.
#[derive(Clone, Debug, PartialEq)]
pub enum Message {
    /// Send `msg` to the ledger itself, as the ledger.
    Execute { msg: ExecuteMsg },
    /// Send `msg` to the ledger itself, as the ledger, and report its failure
    /// under `reply_id` instead of failing the command.
    ExecuteWithReply { msg: ExecuteMsg, reply_id: u64 },
    /// Transfer `amount` of `token` from the ledger to `recipient`.
    Transfer { token: String, recipient: String, amount: u128 },
    /// Call `contract` with the payload `msg`.
    Call { contract: String, msg: Vec<u8> },
}

/// The outcome of a command: what the host has to do next, in this order,
/// and a description of what was done.
#[derive(Clone, Debug, PartialEq)]
pub struct Response {
    pub messages: Vec<Message>,
    pub attributes: Vec<Attribute>,
}

impl Response {
    /// The outcome of a command that asks nothing of the host.
    pub fn new() -> (r: Response)
        ensures
            r.messages@.len() == 0,
            r.attributes@.len() == 0,
    {
        Response { messages: Vec::new(), attributes: Vec::new() }
    }
}

} // verus!
