//! The records of the governance ledger.

use crate::error::ContractError;
use crate::gov::msg::PollCategory;
use crate::gov::msg::PollExecuteMsg;
use crate::gov::msg::PollStatus;
use crate::gov::msg::VoterInfo;
use crate::math::DECIMAL_FRACTIONAL;
use crate::math::Decimal;

use vstd::prelude::*;

verus! {

/// The parameters of the protocol. Only the owner changes them.
#[derive(Clone, Debug, PartialEq)]
pub struct Config {
    pub owner: String,
    pub pylon_token: String,
    pub quorum: Decimal,
    pub threshold: Decimal,
    pub voting_period: u64,
    pub timelock_period: u64,
    /// No longer used.
    pub expiration_period: u64,
    pub proposal_deposit: u128,
    pub snapshot_period: u64,
    pub unstaking_period: u64,
}

/// The totals of the ledger.
#[derive(Clone, Debug, PartialEq)]
pub struct State {
    /// The number of polls created so far, and the id of the next poll.
    pub poll_count: u64,
    /// The sum of the shares of all stakers.
    pub total_share: u128,
    /// The deposits that polls in progress hold in escrow.
    pub total_deposit: u128,
    /// The sum of the amounts of all claims that wait to be unlocked.
    pub total_unbondings: u128,
    /// The number of airdrops created so far, and the id of the next one.
    pub total_airdrop_count: u64,
    /// The airdrops whose accrual still has to be brought up to date.
    pub airdrop_update_candidates: Vec<u64>,
}

/// A withdrawal that waits for its maturity: `amount` tokens, releasable
/// from second `time` on.
#[derive(Clone, Copy, Debug, PartialEq, Eq, Structural)]
pub struct TokenClaim {
    pub time: u64,
    pub amount: u128,
}

/// The account of one staker.
#[derive(Clone, Debug, PartialEq)]
pub struct TokenManager {
    /// The staker's part of `State::total_share`.
    pub share: u128,
    /// The id that the next claim gets.
    pub latest_claim_id: u64,
    /// The id of the last claim that was unlocked.
    pub last_unlocked_claim_id: u64,
    /// For each poll that the staker has voted in, the poll's id and what
    /// was committed to it.
    pub locked_balance: Vec<(u64, VoterInfo)>,
}

/// A proposal and its tally.
#[derive(Clone, Debug, PartialEq)]
pub struct Poll {
    pub id: u64,
    pub creator: String,
    pub status: PollStatus,
    pub yes_votes: u128,
    pub no_votes: u128,
    pub end_height: u64,
    pub title: String,
    pub category: PollCategory,
    pub description: String,
    pub link: Option<String>,
    /// The operations to run if the poll passes.
    pub execute_data: Option<Vec<PollExecuteMsg>>,
    pub deposit_amount: u128,
    /// The redeemable balance of the pool when voting was snapshotted or ended.
    pub total_balance_at_end_poll: Option<u128>,
    /// The total share when voting was snapshotted or ended.
    pub staked_amount: Option<u128>,
}

/// What an airdrop was created with.
#[derive(Clone, Debug, PartialEq)]
pub struct AirdropConfig {
    pub start: u64,
    pub period: u64,
    pub reward_token: String,
    /// Reward tokens per second, shared by all stakers.
    pub reward_rate: Decimal,
}

/// How far the accrual of an airdrop has come.
#[derive(Clone, Copy, Debug, PartialEq, Eq, Structural)]
pub struct AirdropState {
    pub last_update_time: u64,
    /// Reward per share, accumulated since the start.
    pub reward_per_token_stored: Decimal,
}

/// A reward stream that runs from `start` for `period` seconds.
#[derive(Clone, Debug, PartialEq)]
pub struct Airdrop {
    pub config: AirdropConfig,
    pub state: AirdropState,
}

/// What one staker has earned from one airdrop.
#[derive(Clone, Copy, Debug, PartialEq, Eq, Structural)]
pub struct Reward {
    pub reward: u128,
    pub reward_per_token_paid: Decimal,
}

/// Everything that the ledger keeps for one staker.
#[derive(Clone, Debug, PartialEq)]
pub struct Staker {
    pub address: String,
    pub manager: TokenManager,
    /// The claims that wait to be unlocked, oldest first, each under its id.
    pub claims: Vec<(u64, TokenClaim)>,
    /// What the staker has earned from each airdrop, at the index of the
    /// airdrop's id; airdrops beyond the end have earned the staker nothing.
    pub rewards: Vec<Reward>,
}

/// Everything that the ledger keeps.
#[derive(Clone, Debug, PartialEq)]
pub struct Storage {
    pub config: Config,
    pub state: State,
    /// The stakers, one record for each address. Their order here is of no
    /// account: lists of stakers go by address.
    pub bank: Vec<Staker>,
    /// The polls; a poll stands at the index that is its id.
    pub polls: Vec<Poll>,
    /// The airdrops; an airdrop stands at the index that is its id.
    pub airdrops: Vec<Airdrop>,
    /// The poll whose operations are being run, until their outcome is known.
    pub tmp_poll_id: Option<u64>,
}

/// The sum of the shares of `bank`.
pub open spec fn sum_shares(bank: Seq<Staker>) -> int
    decreases bank.len(),
{
    if bank.len() == 0 {
        0
    } else {
        sum_shares(bank.drop_last()) + bank.last().manager.share
    }
}

/// The sum of the amounts of `claims`.
pub open spec fn sum_claims(claims: Seq<(u64, TokenClaim)>) -> int
    decreases claims.len(),
{
    if claims.len() == 0 {
        0
    } else {
        sum_claims(claims.drop_last()) + claims.last().1.amount
    }
}

/// The sum of the amounts of all claims of `bank` that wait to be unlocked.
pub open spec fn sum_unbondings(bank: Seq<Staker>) -> int
    decreases bank.len(),
{
    if bank.len() == 0 {
        0
    } else {
        sum_unbondings(bank.drop_last()) + sum_claims(bank.last().claims@)
    }
}

/// What the poll holds in escrow: its deposit while it is in progress.
pub open spec fn escrowed(poll: Poll) -> int {
    if poll.status == PollStatus::InProgress {
        poll.deposit_amount as int
    } else {
        0
    }
}

/// The sum of the deposits that the polls in progress hold in escrow.
pub open spec fn sum_deposits(polls: Seq<Poll>) -> int
    decreases polls.len(),
{
    if polls.len() == 0 {
        0
    } else {
        sum_deposits(polls.drop_last()) + escrowed(polls.last())
    }
}

/// No two stakers of `bank` have the same address.
pub open spec fn unique_addresses(bank: Seq<Staker>) -> bool {
    forall|i: int, j: int|
        0 <= i < bank.len() && 0 <= j < bank.len() && i != j ==> (#[trigger] bank[i]).address@ != (
        #[trigger] bank[j]).address@
}

/// Whether a staker of `bank` has the address.
pub open spec fn has_staker(bank: Seq<Staker>, address: Seq<char>) -> bool {
    exists|i: int| 0 <= i < bank.len() && (#[trigger] bank[i]).address@ == address
}

/// The place of the first staker of `bank` with the address.
pub open spec fn staker_index(bank: Seq<Staker>, address: Seq<char>) -> int {
    choose|i: int|
        0 <= i < bank.len() && (#[trigger] bank[i]).address@ == address && forall|j: int|
            0 <= j < i ==> (#[trigger] bank[j]).address@ != address
}

/// The claim queue of a staker is in order: its ids are consecutive and end
/// just below `latest_claim_id`, none of them lies below
/// `last_unlocked_claim_id`, and `last_unlocked_claim_id` is not beyond
/// `latest_claim_id`.
pub open spec fn claims_in_order(staker: Staker) -> bool {
    &&& staker.manager.last_unlocked_claim_id <= staker.manager.latest_claim_id
    &&& staker.claims.len() <= staker.manager.latest_claim_id - staker.manager.last_unlocked_claim_id
    &&& forall|k: int|
        0 <= k < staker.claims.len() ==> (#[trigger] staker.claims[k]).0 == staker.manager.latest_claim_id
            - staker.claims.len() + k
}

impl Storage {
    /// Whether two ledgers hold the same: the same parameters and totals,
    /// and the same stakers, polls and airdrops in the same order.
    pub open spec fn same_as(&self, other: &Storage) -> bool {
        &&& self.config == other.config
        &&& self.state == other.state
        &&& self.bank@ == other.bank@
        &&& self.polls@ == other.polls@
        &&& self.airdrops@ == other.airdrops@
        &&& self.tmp_poll_id == other.tmp_poll_id
    }

    /// Everything that makes a ledger consistent but the total of the
    /// unbondings: the total share is the sum of the stakers' shares, the
    /// total deposit is the sum of the deposits of the polls in progress,
    /// every staker has one record and an orderly claim queue, and polls and
    /// airdrops stand at their ids.
    pub open spec fn wf_but_for_unbondings(&self) -> bool {
        &&& self.state.total_share == sum_shares(self.bank@)
        &&& self.state.total_deposit == sum_deposits(self.polls@)
        &&& unique_addresses(self.bank@)
        &&& forall|i: int| 0 <= i < self.bank.len() ==> claims_in_order(#[trigger] self.bank[i])
        &&& self.polls.len() == self.state.poll_count
        &&& forall|i: int| 0 <= i < self.polls.len() ==> (#[trigger] self.polls[i]).id == i
        &&& self.airdrops.len() == self.state.total_airdrop_count
    }

    /// The ledger is consistent: its totals are the sums of what they stand
    /// for, every staker has one record and an orderly claim queue, and
    /// polls and airdrops stand at their ids.
    pub open spec fn wf(&self) -> bool {
        &&& self.wf_but_for_unbondings()
        &&& self.state.total_unbondings == sum_unbondings(self.bank@)
    }
}

/// Replacing one staker changes the sum of the shares by the change of that
/// staker's share.
pub proof fn lemma_sum_shares_update(bank: Seq<Staker>, i: int, staker: Staker)
    requires
        0 <= i < bank.len(),
    ensures
        sum_shares(bank.update(i, staker)) == sum_shares(bank) - bank[i].manager.share + staker.manager.share,
    decreases bank.len(),
{
    let after = bank.update(i, staker);
    if i == bank.len() - 1 {
        assert(after.drop_last() =~= bank.drop_last());
    } else {
        assert(after.drop_last() =~= bank.drop_last().update(i, staker));
        lemma_sum_shares_update(bank.drop_last(), i, staker);
    }
}

/// Replacing one staker changes the sum of the unbondings by the change of
/// that staker's claims.
pub proof fn lemma_sum_unbondings_update(bank: Seq<Staker>, i: int, staker: Staker)
    requires
        0 <= i < bank.len(),
    ensures
        sum_unbondings(bank.update(i, staker)) == sum_unbondings(bank) - sum_claims(bank[i].claims@) + sum_claims(
            staker.claims@,
        ),
    decreases bank.len(),
{
    let after = bank.update(i, staker);
    if i == bank.len() - 1 {
        assert(after.drop_last() =~= bank.drop_last());
    } else {
        assert(after.drop_last() =~= bank.drop_last().update(i, staker));
        lemma_sum_unbondings_update(bank.drop_last(), i, staker);
    }
}

/// A new staker adds its claims to the sum of the unbondings.
pub proof fn lemma_sum_unbondings_push(bank: Seq<Staker>, staker: Staker)
    ensures
        sum_unbondings(bank.push(staker)) == sum_unbondings(bank) + sum_claims(staker.claims@),
{
    assert(bank.push(staker).drop_last() =~= bank);
}

/// The claims of a queue add up to its first `n` claims and the rest.
pub proof fn lemma_sum_claims_split(claims: Seq<(u64, TokenClaim)>, n: int)
    requires
        0 <= n <= claims.len(),
    ensures
        sum_claims(claims) == sum_claims(claims.take(n)) + sum_claims(claims.skip(n)),
    decreases claims.len(),
{
    if n == claims.len() {
        assert(claims.take(n) =~= claims);
        assert(claims.skip(n) =~= Seq::<(u64, TokenClaim)>::empty());
    } else {
        lemma_sum_claims_split(claims.drop_last(), n);
        assert(claims.drop_last().take(n) =~= claims.take(n));
        assert(claims.drop_last().skip(n) =~= claims.skip(n).drop_last());
    }
}

/// Replacing one poll changes the sum of the deposits by the change of what
/// that poll holds in escrow.
pub proof fn lemma_sum_deposits_update(polls: Seq<Poll>, i: int, poll: Poll)
    requires
        0 <= i < polls.len(),
    ensures
        sum_deposits(polls.update(i, poll)) == sum_deposits(polls) - escrowed(polls[i]) + escrowed(poll),
    decreases polls.len(),
{
    let after = polls.update(i, poll);
    if i == polls.len() - 1 {
        assert(after.drop_last() =~= polls.drop_last());
    } else {
        assert(after.drop_last() =~= polls.drop_last().update(i, poll));
        lemma_sum_deposits_update(polls.drop_last(), i, poll);
    }
}

/// A new poll adds what it holds in escrow to the sum of the deposits.
pub proof fn lemma_sum_deposits_push(polls: Seq<Poll>, poll: Poll)
    ensures
        sum_deposits(polls.push(poll)) == sum_deposits(polls) + escrowed(poll),
{
    assert(polls.push(poll).drop_last() =~= polls);
}

/// A new staker adds its share to the sum.
pub proof fn lemma_sum_shares_push(bank: Seq<Staker>, staker: Staker)
    ensures
        sum_shares(bank.push(staker)) == sum_shares(bank) + staker.manager.share,
{
    assert(bank.push(staker).drop_last() =~= bank);
}

/// No poll holds more in escrow than the sum of the deposits.
pub proof fn lemma_escrow_within_sum(polls: Seq<Poll>, i: int)
    requires
        0 <= i < polls.len(),
    ensures
        0 <= escrowed(polls[i]) <= sum_deposits(polls),
    decreases polls.len(),
{
    lemma_sum_deposits_not_negative(polls.drop_last());
    if i < polls.len() - 1 {
        lemma_escrow_within_sum(polls.drop_last(), i);
    }
}

/// A sum of deposits is not negative.
pub proof fn lemma_sum_deposits_not_negative(polls: Seq<Poll>)
    ensures
        0 <= sum_deposits(polls),
    decreases polls.len(),
{
    if polls.len() > 0 {
        lemma_sum_deposits_not_negative(polls.drop_last());
    }
}

/// No staker holds more than the sum of the shares.
pub proof fn lemma_share_within_sum(bank: Seq<Staker>, i: int)
    requires
        0 <= i < bank.len(),
    ensures
        0 <= bank[i].manager.share <= sum_shares(bank),
    decreases bank.len(),
{
    lemma_sum_shares_not_negative(bank.drop_last());
    if i < bank.len() - 1 {
        lemma_share_within_sum(bank.drop_last(), i);
    }
}

/// A sum of shares is not negative.
pub proof fn lemma_sum_shares_not_negative(bank: Seq<Staker>)
    ensures
        0 <= sum_shares(bank),
    decreases bank.len(),
{
    if bank.len() > 0 {
        lemma_sum_shares_not_negative(bank.drop_last());
    }
}

/// A staker with the address and none with it before is the first one.
pub proof fn lemma_first_staker(bank: Seq<Staker>, address: Seq<char>, i: int)
    requires
        0 <= i < bank.len(),
        bank[i].address@ == address,
        forall|j: int| 0 <= j < i ==> (#[trigger] bank[j]).address@ != address,
    ensures
        has_staker(bank, address),
        staker_index(bank, address) == i,
{
    let k = staker_index(bank, address);
    if k < i {
        assert(bank[k].address@ != address);
    }
    if k > i {
        assert(bank[i].address@ != address);
    }
}

/// Finds the staker with the address.
pub fn find_staker(bank: &Vec<Staker>, address: &String) -> (r: Option<usize>)
    ensures
        r is Some == has_staker(bank@, address@),
        r is Some ==> r->Some_0 == staker_index(bank@, address@) && r->Some_0 < bank.len() && bank[r->Some_0 as int].address@
            == address@,
        r is Some ==> forall|j: int| 0 <= j < r->Some_0 ==> (#[trigger] bank[j]).address@ != address@,
        r is None ==> forall|j: int| 0 <= j < bank.len() ==> (#[trigger] bank[j]).address@ != address@,
{
    let mut i: usize = 0;
    while i < bank.len()
        invariant
            i <= bank.len(),
            forall|j: int| 0 <= j < i ==> (#[trigger] bank[j]).address@ != address@,
        decreases bank.len() - i,
    {
        if bank[i].address == *address {
            proof {
                let k = staker_index(bank@, address@);
                assert(bank@[i as int].address@ == address@);
                assert(k == i) by {
                    if k < i {
                        assert(bank@[k].address@ != address@);
                    }
                    if k > i {
                        assert(bank@[i as int].address@ != address@);
                    }
                }
            }
            return Some(i);
        }
        i += 1;
    }
    None
}

/// What `rewards` records for the airdrop: the record at the index of its
/// id, and nothing earned and nothing paid where the records end before.
pub open spec fn reward_of(rewards: Seq<Reward>, airdrop_id: u64) -> Reward {
    if airdrop_id < rewards.len() {
        rewards[airdrop_id as int]
    } else {
        Reward { reward: 0, reward_per_token_paid: Decimal { atomics: 0 } }
    }
}

/// What `rewards` records for the airdrop.
pub fn load_reward(rewards: &Vec<Reward>, airdrop_id: u64) -> (r: Reward)
    ensures
        r == reward_of(rewards@, airdrop_id),
{
    if airdrop_id < rewards.len() as u64 {
        rewards[airdrop_id as usize]
    } else {
        Reward::new()
    }
}

/// Records `reward` for the airdrop, in place of what was recorded for it.
/// The records for other airdrops stay.
pub fn save_reward(rewards: &mut Vec<Reward>, airdrop_id: usize, reward: Reward)
    requires
        airdrop_id < usize::MAX,
    ensures
        reward_of(final(rewards)@, airdrop_id as u64) == reward,
        forall|other: u64|
            other != airdrop_id ==> #[trigger] reward_of(final(rewards)@, other) == reward_of(old(rewards)@, other),
{
    while rewards.len() <= airdrop_id
        invariant
            forall|other: u64| #[trigger] reward_of(rewards@, other) == reward_of(old(rewards)@, other),
        decreases airdrop_id + 1 - rewards.len(),
    {
        let ghost before = rewards@;
        rewards.push(Reward::new());
        proof {
            assert forall|other: u64| #[trigger] reward_of(rewards@, other) == reward_of(before, other) by {
                if other < before.len() {
                    assert(rewards@[other as int] == before[other as int]);
                }
            }
        }
    }
    let ghost before = rewards@;
    rewards[airdrop_id] = reward;
    proof {
        assert forall|other: u64| other != airdrop_id implies #[trigger] reward_of(rewards@, other) == reward_of(
            before,
            other,
        ) by {
            if other < before.len() {
                assert(rewards@[other as int] == before[other as int]);
            }
        }
    }
}

/// Finds the record of the staker with the address, or opens one that holds
/// nothing. Returns its place.
pub fn staker_slot(storage: &mut Storage, address: &String) -> (i: usize)
    ensures
        old(storage).wf() ==> final(storage).wf(),
        final(storage).config == old(storage).config,
        final(storage).state == old(storage).state,
        final(storage).polls@ == old(storage).polls@,
        final(storage).airdrops@ == old(storage).airdrops@,
        final(storage).tmp_poll_id == old(storage).tmp_poll_id,
        i < final(storage).bank.len(),
        final(storage).bank[i as int].address@ == address@,
        forall|j: int| 0 <= j < i ==> (#[trigger] final(storage).bank[j]).address@ != address@,
        has_staker(old(storage).bank@, address@) ==> final(storage).bank@ == old(storage).bank@ && i == staker_index(
            old(storage).bank@,
            address@,
        ),
        !has_staker(old(storage).bank@, address@) ==> {
            &&& i == old(storage).bank.len()
            &&& final(storage).bank@.len() == old(storage).bank@.len() + 1
            &&& final(storage).bank@.drop_last() == old(storage).bank@
            &&& final(storage).bank[i as int].manager.share == 0
            &&& final(storage).bank[i as int].manager.latest_claim_id == 0
            &&& final(storage).bank[i as int].manager.last_unlocked_claim_id == 0
            &&& final(storage).bank[i as int].manager.locked_balance@.len() == 0
            &&& final(storage).bank[i as int].claims@.len() == 0
            &&& final(storage).bank[i as int].rewards@.len() == 0
        },
{
    match find_staker(&storage.bank, address) {
        Some(i) => i,
        None => {
            let staker = Staker {
                address: address.clone(),
                manager: TokenManager::new(),
                claims: Vec::new(),
                rewards: Vec::new(),
            };
            proof {
                lemma_sum_shares_push(storage.bank@, staker);
                lemma_sum_unbondings_push(storage.bank@, staker);
                assert(staker.claims@ =~= Seq::<(u64, TokenClaim)>::empty());
            }
            storage.bank.push(staker);
            proof {
                assert(storage.bank@.drop_last() =~= old(storage).bank@);
                assert forall|j: int| 0 <= j < storage.bank.len() - 1 implies (#[trigger] storage.bank[j]).address@
                    != address@ by {
                    assert(storage.bank@[j] == old(storage).bank@[j]);
                }
                if old(storage).wf() {
                    assert forall|j: int| 0 <= j < storage.bank@.len() implies claims_in_order(
                        #[trigger] storage.bank@[j],
                    ) by {
                        if j < old(storage).bank@.len() {
                            assert(storage.bank@[j] == old(storage).bank@[j]);
                            assert(claims_in_order(old(storage).bank@[j]));
                        }
                    }
                    assert forall|j: int, k: int|
                        0 <= j < storage.bank@.len() && 0 <= k < storage.bank@.len() && j != k implies (
                    #[trigger] storage.bank@[j]).address@ != (#[trigger] storage.bank@[k]).address@ by {
                        if j < old(storage).bank@.len() {
                            assert(storage.bank@[j] == old(storage).bank@[j]);
                        }
                        if k < old(storage).bank@.len() {
                            assert(storage.bank@[k] == old(storage).bank@[k]);
                        }
                    }
                }
            }
            storage.bank.len() - 1
        },
    }
}

impl Config {
    /// Whether the quorum and the threshold are ratios: neither is more
    /// than one.
    pub open spec fn spec_validate(&self) -> Result<(), ContractError> {
        if self.quorum.atomics > DECIMAL_FRACTIONAL {
            Err(ContractError::InvalidQuorum)
        } else if self.threshold.atomics > DECIMAL_FRACTIONAL {
            Err(ContractError::InvalidThreshold)
        } else {
            Ok(())
        }
    }

    /// Checks that the quorum and the threshold are ratios.
    pub fn validate(&self) -> (r: Result<(), ContractError>)
        ensures
            r == self.spec_validate(),
    {
        if self.quorum.atomics > DECIMAL_FRACTIONAL {
            Err(ContractError::InvalidQuorum)
        } else if self.threshold.atomics > DECIMAL_FRACTIONAL {
            Err(ContractError::InvalidThreshold)
        } else {
            Ok(())
        }
    }
}

impl TokenManager {
    /// The account of a staker who has not staked yet.
    pub fn new() -> (r: TokenManager)
        ensures
            r.share == 0,
            r.latest_claim_id == 0,
            r.last_unlocked_claim_id == 0,
            r.locked_balance@ == Seq::<(u64, VoterInfo)>::empty(),
    {
        TokenManager {
            share: 0,
            latest_claim_id: 0,
            last_unlocked_claim_id: 0,
            locked_balance: Vec::new(),
        }
    }
}

impl Reward {
    /// Nothing earned, nothing paid.
    pub fn new() -> (r: Reward)
        ensures
            r.reward == 0,
            r.reward_per_token_paid.atomics == 0,
    {
        Reward { reward: 0, reward_per_token_paid: Decimal::zero() }
    }
}

} // verus!
