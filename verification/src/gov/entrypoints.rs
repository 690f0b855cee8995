//! The doors of the ledger: one for commands, one for the host's reports on
//! what it ran, one for queries, one for upgrades.

use crate::error::ContractError;
use crate::gov::executions::poll::POLL_EXECUTE_REPLY_ID;
use crate::gov::executions;
use crate::gov::msg::AirdropMsg;
use crate::gov::msg::AirdropResponse;
use crate::gov::msg::AirdropsResponse;
use crate::gov::msg::ClaimResponse;
use crate::gov::msg::ClaimsResponse;
use crate::gov::msg::ConfigResponse;
use crate::gov::msg::Env;
use crate::gov::msg::ExecuteMsg;
use crate::gov::msg::Message;
use crate::gov::msg::MessageInfo;
use crate::gov::msg::MigrateMsg;
use crate::gov::msg::PollMsg;
use crate::gov::msg::PollResponse;
use crate::gov::msg::PollStatus;
use crate::gov::msg::PollsResponse;
use crate::gov::msg::QueryMsg;
use crate::gov::msg::Response;
use crate::gov::msg::StakerResponse;
use crate::gov::msg::StakersResponse;
use crate::gov::msg::StakingMsg;
use crate::gov::msg::StateResponse;
use crate::gov::msg::VotersResponse;
use crate::gov::queries;
use crate::gov::states::Poll;
use crate::gov::states::State;
use crate::gov::states::Storage;

use vstd::prelude::*;

verus! {

/// The two steps that unstaking takes, for the host to run in this order:
/// first an update of the airdrops that credits `sender` at the old share,
/// then the queueing of the withdrawal.
pub open spec fn spec_unstake_steps(messages: Seq<Message>, sender: String, amount: Option<u128>) -> bool {
    &&& messages.len() == 2
    &&& messages[0] == (Message::Execute { msg: ExecuteMsg::Airdrop(AirdropMsg::Update { target: Some(sender) }) })
    &&& messages[1] == (Message::Execute { msg: ExecuteMsg::Staking(StakingMsg::UnstakeInternal { sender, amount }) })
}

/// Runs a command. `queried_balance` is the token balance of the ledger at
/// this moment. Each command is handled by the function of its name in
/// [`executions`]; `Unstake` is split here into the two steps that the host
/// runs afterwards. A command either runs to its end or changes nothing, and
/// it keeps the ledger consistent.
pub fn execute(storage: &mut Storage, env: &Env, info: &MessageInfo, msg: ExecuteMsg, queried_balance: u128) -> (r:
    Result<Response, ContractError>)
    ensures
        old(storage).wf() ==> final(storage).wf(),
        r is Err ==> final(storage).same_as(old(storage)),
        match msg {
            ExecuteMsg::Receive(msg) => executions::receive_ensures(*old(storage), *final(storage), *env, *info, msg, r),
            ExecuteMsg::UpdateConfig {
                owner,
                quorum,
                threshold,
                voting_period,
                timelock_period,
                proposal_deposit,
                snapshot_period,
            } => executions::update_config_ensures(
                *old(storage),
                *final(storage),
                *info,
                owner,
                quorum,
                threshold,
                voting_period,
                timelock_period,
                proposal_deposit,
                snapshot_period,
                r,
            ),
            ExecuteMsg::Poll(PollMsg::CastVote { poll_id, vote, amount }) => executions::poll::cast_vote_ensures(
                *old(storage),
                *final(storage),
                *env,
                *info,
                poll_id,
                vote,
                amount,
                queried_balance,
                r,
            ),
            ExecuteMsg::Poll(PollMsg::Execute { poll_id }) => executions::poll::execute_ensures(
                *old(storage),
                *final(storage),
                *env,
                poll_id,
                r,
            ),
            ExecuteMsg::Poll(PollMsg::ExecuteMsgs { poll_id }) => *final(storage) == *old(storage)
                && executions::poll::execute_messages_ensures(*old(storage), *env, *info, poll_id, r),
            ExecuteMsg::Poll(PollMsg::Snapshot { poll_id }) => executions::poll::snapshot_ensures(
                *old(storage),
                *final(storage),
                *env,
                *info,
                poll_id,
                queried_balance,
                r,
            ),
            ExecuteMsg::Poll(PollMsg::End { poll_id }) => executions::poll::end_ensures(
                *old(storage),
                *final(storage),
                *env,
                poll_id,
                queried_balance,
                r,
            ),
            ExecuteMsg::Staking(StakingMsg::Unstake { amount }) => r is Ok && *final(storage) == *old(storage)
                && r->Ok_0.attributes@.len() == 0 && spec_unstake_steps(r->Ok_0.messages@, info.sender, amount),
            ExecuteMsg::Staking(
                StakingMsg::StakeInternal { sender, amount },
            ) => executions::staking::stake_voting_tokens_ensures(
                *old(storage),
                *final(storage),
                *env,
                *info,
                sender,
                amount,
                queried_balance,
                r,
            ),
            ExecuteMsg::Staking(
                StakingMsg::UnstakeInternal { sender, amount },
            ) => executions::staking::withdraw_voting_tokens_ensures(
                *old(storage),
                *final(storage),
                *env,
                *info,
                sender,
                amount,
                queried_balance,
                r,
            ),
            ExecuteMsg::Staking(StakingMsg::Unlock { target }) => executions::staking::unlock_voting_tokens_ensures(
                *old(storage),
                *final(storage),
                *env,
                *info,
                target,
                r,
            ),
            ExecuteMsg::Airdrop(
                AirdropMsg::Instantiate { start, period, reward_token, reward_amount },
            ) => executions::airdrop::instantiate_ensures(
                *old(storage),
                *final(storage),
                *env,
                *info,
                start,
                period,
                reward_token,
                reward_amount,
                r,
            ),
            ExecuteMsg::Airdrop(
                AirdropMsg::Allocate { airdrop_id, recipient, allocate_amount },
            ) => executions::airdrop::allocate_ensures(
                *old(storage),
                *final(storage),
                *env,
                *info,
                airdrop_id,
                recipient,
                allocate_amount,
                r,
            ),
            ExecuteMsg::Airdrop(
                AirdropMsg::Deallocate { airdrop_id, recipient, deallocate_amount },
            ) => executions::airdrop::deallocate_ensures(
                *old(storage),
                *final(storage),
                *env,
                *info,
                airdrop_id,
                recipient,
                deallocate_amount,
                r,
            ),
            ExecuteMsg::Airdrop(AirdropMsg::Update { target }) => executions::airdrop::update_ensures(
                *old(storage),
                *final(storage),
                *env,
                *info,
                target,
                r,
            ),
            ExecuteMsg::Airdrop(AirdropMsg::Claim { target }) => *final(storage) == *old(storage)
                && executions::airdrop::claim_ensures(*old(storage), *env, *info, target, r),
            ExecuteMsg::Airdrop(
                AirdropMsg::ClaimInternal { sender, airdrop_id },
            ) => executions::airdrop::claim_internal_ensures(
                *old(storage),
                *final(storage),
                *env,
                *info,
                sender,
                airdrop_id,
                r,
            ),
        },
{
    match msg {
        ExecuteMsg::Receive(msg) => executions::receive(storage, env, info, msg),
        ExecuteMsg::UpdateConfig {
            owner,
            quorum,
            threshold,
            voting_period,
            timelock_period,
            proposal_deposit,
            snapshot_period,
        } => executions::update_config(
            storage,
            info,
            owner,
            quorum,
            threshold,
            voting_period,
            timelock_period,
            proposal_deposit,
            snapshot_period,
        ),
        ExecuteMsg::Poll(msg) => match msg {
            PollMsg::CastVote { poll_id, vote, amount } => executions::poll::cast_vote(
                storage,
                env,
                info,
                poll_id,
                vote,
                amount,
                queried_balance,
            ),
            PollMsg::Execute { poll_id } => executions::poll::execute(storage, env, poll_id),
            PollMsg::ExecuteMsgs { poll_id } => executions::poll::execute_messages(storage, env, info, poll_id),
            PollMsg::Snapshot { poll_id } => executions::poll::snapshot(storage, env, info, poll_id, queried_balance),
            PollMsg::End { poll_id } => executions::poll::end(storage, env, poll_id, queried_balance),
        },
        ExecuteMsg::Staking(msg) => match msg {
            StakingMsg::Unstake { amount } => {
                let mut response = Response::new();
                response.messages.push(
                    Message::Execute {
                        msg: ExecuteMsg::Airdrop(AirdropMsg::Update { target: Some(info.sender.clone()) }),
                    },
                );
                response.messages.push(
                    Message::Execute {
                        msg: ExecuteMsg::Staking(
                            StakingMsg::UnstakeInternal { sender: info.sender.clone(), amount },
                        ),
                    },
                );
                Ok(response)
            },
            StakingMsg::StakeInternal { sender, amount } => executions::staking::stake_voting_tokens(
                storage,
                env,
                info,
                sender,
                amount,
                queried_balance,
            ),
            StakingMsg::UnstakeInternal { sender, amount } => executions::staking::withdraw_voting_tokens(
                storage,
                env,
                info,
                sender,
                amount,
                queried_balance,
            ),
            StakingMsg::Unlock { target } => executions::staking::unlock_voting_tokens(storage, env, info, target),
        },
        ExecuteMsg::Airdrop(msg) => match msg {
            AirdropMsg::Instantiate { start, period, reward_token, reward_amount } => executions::airdrop::instantiate(
                storage,
                env,
                info,
                start,
                period,
                reward_token,
                reward_amount,
            ),
            AirdropMsg::Allocate { airdrop_id, recipient, allocate_amount } => executions::airdrop::allocate(
                storage,
                env,
                info,
                airdrop_id,
                recipient,
                allocate_amount,
            ),
            AirdropMsg::Deallocate { airdrop_id, recipient, deallocate_amount } => executions::airdrop::deallocate(
                storage,
                env,
                info,
                airdrop_id,
                recipient,
                deallocate_amount,
            ),
            AirdropMsg::Update { target } => executions::airdrop::update(storage, env, info, target),
            AirdropMsg::Claim { target } => executions::airdrop::claim(storage, env, info, target),
            AirdropMsg::ClaimInternal { sender, airdrop_id } => executions::airdrop::claim_internal(
                storage,
                env,
                info,
                sender,
                airdrop_id,
            ),
        },
    }
}

/// Takes the host's report that what it ran under `reply_id` has failed.
/// The one report that is waited for is that on the operations of the poll
/// noted as under way: that poll, if it is marked as executed, is corrected
/// to `Failed`. Any other identifier is refused.
pub fn reply(storage: &mut Storage, reply_id: u64) -> (r: Result<Response, ContractError>)
    ensures
        old(storage).wf() ==> final(storage).wf(),
        r is Err ==> final(storage).same_as(old(storage)),
        reply_id != POLL_EXECUTE_REPLY_ID ==> r == Err::<Response, ContractError>(ContractError::InvalidReplyId),
        reply_id == POLL_EXECUTE_REPLY_ID ==> match old(storage).tmp_poll_id {
            None => r == Err::<Response, ContractError>(ContractError::PollNotFound),
            Some(poll_id) => {
                &&& poll_id >= old(storage).polls.len() ==> r == Err::<Response, ContractError>(
                    ContractError::PollNotFound,
                )
                &&& poll_id < old(storage).polls.len() && old(storage).polls[poll_id as int].status
                    != PollStatus::Executed ==> r == Err::<Response, ContractError>(ContractError::PollNotExecuted)
                &&& poll_id < old(storage).polls.len() && old(storage).polls[poll_id as int].status
                    == PollStatus::Executed ==> {
                    &&& r is Ok
                    &&& executions::poll::only_poll_changed(old(storage).polls@, final(storage).polls@, poll_id as int)
                    &&& final(storage).polls[poll_id as int] == (Poll {
                        status: PollStatus::Failed,
                        ..old(storage).polls[poll_id as int]
                    })
                    &&& final(storage).state == old(storage).state
                    &&& final(storage).bank@ == old(storage).bank@
                }
            },
        },
{
    if reply_id != POLL_EXECUTE_REPLY_ID {
        return Err(ContractError::InvalidReplyId);
    }
    match storage.tmp_poll_id {
        Some(poll_id) => executions::poll::fail(storage, poll_id),
        None => Err(ContractError::PollNotFound),
    }
}

/// What a query gives back.
#[derive(Clone, Debug, PartialEq)]
pub enum QueryResponse {
    Config(ConfigResponse),
    State(StateResponse),
    Claim(ClaimResponse),
    Claims(ClaimsResponse),
    Staker(StakerResponse),
    Stakers(StakersResponse),
    Airdrop(AirdropResponse),
    Airdrops(AirdropsResponse),
    Poll(PollResponse),
    Polls(PollsResponse),
    Voters(VotersResponse),
}

/// What [`query_config`] guarantees of its outcome `r`.
pub open spec fn query_config_ensures(
    storage: Storage,
    r: ConfigResponse,
) -> bool {
    &&& r.owner == storage.config.owner
    &&& r.pylon_token == storage.config.pylon_token
    &&& r.quorum == storage.config.quorum
    &&& r.threshold == storage.config.threshold
    &&& r.voting_period == storage.config.voting_period
    &&& r.timelock_period == storage.config.timelock_period
    &&& r.proposal_deposit == storage.config.proposal_deposit
    &&& r.snapshot_period == storage.config.snapshot_period
    &&& r.unstaking_period == storage.config.unstaking_period
}

/// The configuration.
pub fn query_config(storage: &Storage) -> (r: ConfigResponse)
    ensures
        query_config_ensures(*storage, r),
{
    ConfigResponse {
        owner: storage.config.owner.clone(),
        pylon_token: storage.config.pylon_token.clone(),
        quorum: storage.config.quorum,
        threshold: storage.config.threshold,
        voting_period: storage.config.voting_period,
        timelock_period: storage.config.timelock_period,
        proposal_deposit: storage.config.proposal_deposit,
        snapshot_period: storage.config.snapshot_period,
        unstaking_period: storage.config.unstaking_period,
    }
}

/// What [`query_state`] guarantees of its outcome `r`.
pub open spec fn query_state_ensures(
    storage: Storage,
    r: StateResponse,
) -> bool {
    &&& r.poll_count == storage.state.poll_count
    &&& r.total_share == storage.state.total_share
    &&& r.total_deposit == storage.state.total_deposit
    &&& r.total_airdrop_count == storage.state.total_airdrop_count
    &&& r.airdrop_update_candidates@ == storage.state.airdrop_update_candidates@
}

/// The totals.
pub fn query_state(storage: &Storage) -> (r: StateResponse)
    ensures
        query_state_ensures(*storage, r),
{
    let candidates: Vec<u64> = storage.state.airdrop_update_candidates.clone();
    proof {
        assert(candidates@ =~= storage.state.airdrop_update_candidates@);
    }
    StateResponse {
        poll_count: storage.state.poll_count,
        total_share: storage.state.total_share,
        total_deposit: storage.state.total_deposit,
        total_airdrop_count: storage.state.total_airdrop_count,
        airdrop_update_candidates: candidates,
    }
}

/// Answers a query. `queried_balance` is the token balance of the ledger at
/// this moment. Each query is answered by the function of its name in
/// [`queries`]; a list of polls with a status filter goes by status, else
/// one with a category filter goes by category.
pub fn query(storage: &Storage, env: &Env, msg: QueryMsg, queried_balance: u128) -> (r: Result<
    QueryResponse,
    ContractError,
>)
    ensures
        match msg {
            QueryMsg::Config => r is Ok && r->Ok_0 is Config && query_config_ensures(*storage, r->Ok_0->Config_0),
            QueryMsg::State => r is Ok && r->Ok_0 is State && query_state_ensures(*storage, r->Ok_0->State_0),
            QueryMsg::Claim { address, claim_id } => exists|inner: Result<ClaimResponse, ContractError>|
                queries::bank::query_token_claim_ensures(*storage, address, claim_id, inner) && r == (match inner {
                    Ok(v) => Ok::<QueryResponse, ContractError>(QueryResponse::Claim(v)),
                    Err(e) => Err::<QueryResponse, ContractError>(e),
                }),
            QueryMsg::Claims { address, start_after, limit, order } => exists|inner: Result<ClaimsResponse, ContractError>|
                queries::bank::query_token_claims_ensures(*storage, address, start_after, limit, order, inner) && r == (
                match inner {
                    Ok(v) => Ok::<QueryResponse, ContractError>(QueryResponse::Claims(v)),
                    Err(e) => Err::<QueryResponse, ContractError>(e),
                }),
            QueryMsg::Staker { address } => exists|inner: Result<StakerResponse, ContractError>|
                queries::bank::query_staker_ensures(*storage, *env, address, queried_balance, inner) && r == (
                match inner {
                    Ok(v) => Ok::<QueryResponse, ContractError>(QueryResponse::Staker(v)),
                    Err(e) => Err::<QueryResponse, ContractError>(e),
                }),
            QueryMsg::Stakers { start_after, limit, order } => exists|inner: Result<StakersResponse, ContractError>|
                queries::bank::query_stakers_ensures(*storage, *env, start_after, limit, order, queried_balance, inner)
                    && r == (match inner {
                    Ok(v) => Ok::<QueryResponse, ContractError>(QueryResponse::Stakers(v)),
                    Err(e) => Err::<QueryResponse, ContractError>(e),
                }),
            QueryMsg::Airdrop { airdrop_id } => exists|inner: Result<AirdropResponse, ContractError>|
                queries::airdrop::query_airdrop_ensures(*storage, airdrop_id, inner) && r == (match inner {
                    Ok(v) => Ok::<QueryResponse, ContractError>(QueryResponse::Airdrop(v)),
                    Err(e) => Err::<QueryResponse, ContractError>(e),
                }),
            QueryMsg::Airdrops { start_after, limit, order_by } => exists|inner: Result<AirdropsResponse, ContractError>|
                queries::airdrop::query_airdrops_ensures(*storage, start_after, limit, order_by, inner) && r == (
                match inner {
                    Ok(v) => Ok::<QueryResponse, ContractError>(QueryResponse::Airdrops(v)),
                    Err(e) => Err::<QueryResponse, ContractError>(e),
                }),
            QueryMsg::Poll { poll_id } => exists|inner: Result<PollResponse, ContractError>|
                queries::poll::query_poll_ensures(*storage, poll_id, inner) && r == (match inner {
                    Ok(v) => Ok::<QueryResponse, ContractError>(QueryResponse::Poll(v)),
                    Err(e) => Err::<QueryResponse, ContractError>(e),
                }),
            QueryMsg::Polls { status_filter, category_filter, start_after, limit, order_by } => if status_filter
                is Some {
                exists|inner: Result<PollsResponse, ContractError>|
                    queries::poll::query_polls_with_status_filter_ensures(
                        *storage,
                        status_filter,
                        start_after,
                        limit,
                        order_by,
                        inner,
                    ) && r == (match inner {
                        Ok(v) => Ok::<QueryResponse, ContractError>(QueryResponse::Polls(v)),
                        Err(e) => Err::<QueryResponse, ContractError>(e),
                    })
            } else if category_filter is Some {
                exists|inner: Result<PollsResponse, ContractError>|
                    queries::poll::query_polls_with_category_filter_ensures(
                        *storage,
                        category_filter,
                        start_after,
                        limit,
                        order_by,
                        inner,
                    ) && r == (match inner {
                        Ok(v) => Ok::<QueryResponse, ContractError>(QueryResponse::Polls(v)),
                        Err(e) => Err::<QueryResponse, ContractError>(e),
                    })
            } else {
                exists|inner: Result<PollsResponse, ContractError>|
                    queries::poll::query_polls_ensures(*storage, start_after, limit, order_by, inner) && r == (match inner {
                        Ok(v) => Ok::<QueryResponse, ContractError>(QueryResponse::Polls(v)),
                        Err(e) => Err::<QueryResponse, ContractError>(e),
                    })
            },
            QueryMsg::Voters { poll_id, start_after, limit, order_by } => exists|inner: Result<VotersResponse, ContractError>|
                queries::poll::query_voters_ensures(*storage, poll_id, start_after, limit, order_by, inner) && r == (
                match inner {
                    Ok(v) => Ok::<QueryResponse, ContractError>(QueryResponse::Voters(v)),
                    Err(e) => Err::<QueryResponse, ContractError>(e),
                }),
        },
{
    match msg {
        QueryMsg::Config => Ok(QueryResponse::Config(query_config(storage))),
        QueryMsg::State => Ok(QueryResponse::State(query_state(storage))),
        QueryMsg::Claim { address, claim_id } => {
            let ghost address_seen = address;
            let inner = queries::bank::query_token_claim(storage, address, claim_id);
            let ghost witness = inner;
            let out = match inner {
                Ok(v) => Ok(QueryResponse::Claim(v)),
                Err(e) => Err(e),
            };
            proof {
                assert(queries::bank::query_token_claim_ensures(*storage, address_seen, claim_id, witness));
            }
            out
        },
        QueryMsg::Claims { address, start_after, limit, order } => {
            let ghost address_seen = address;
            let inner = queries::bank::query_token_claims(storage, address, start_after, limit, order);
            let ghost witness = inner;
            let out = match inner {
                Ok(v) => Ok(QueryResponse::Claims(v)),
                Err(e) => Err(e),
            };
            proof {
                assert(queries::bank::query_token_claims_ensures(*storage, address_seen, start_after, limit, order, witness));
            }
            out
        },
        QueryMsg::Staker { address } => {
            let ghost address_seen = address;
            let inner = queries::bank::query_staker(storage, env, address, queried_balance);
            let ghost witness = inner;
            let out = match inner {
                Ok(v) => Ok(QueryResponse::Staker(v)),
                Err(e) => Err(e),
            };
            proof {
                assert(queries::bank::query_staker_ensures(*storage, *env, address_seen, queried_balance, witness));
            }
            out
        },
        QueryMsg::Stakers { start_after, limit, order } => {
            let ghost start_after_seen = start_after;
            let inner = queries::bank::query_stakers(storage, env, start_after, limit, order, queried_balance);
            let ghost witness = inner;
            let out = match inner {
                Ok(v) => Ok(QueryResponse::Stakers(v)),
                Err(e) => Err(e),
            };
            proof {
                assert(queries::bank::query_stakers_ensures(*storage, *env, start_after_seen, limit, order, queried_balance, witness));
            }
            out
        },
        QueryMsg::Airdrop { airdrop_id } => {
            let inner = queries::airdrop::query_airdrop(storage, airdrop_id);
            let ghost witness = inner;
            let out = match inner {
                Ok(v) => Ok(QueryResponse::Airdrop(v)),
                Err(e) => Err(e),
            };
            proof {
                assert(queries::airdrop::query_airdrop_ensures(*storage, airdrop_id, witness));
            }
            out
        },
        QueryMsg::Airdrops { start_after, limit, order_by } => {
            let inner = queries::airdrop::query_airdrops(storage, start_after, limit, order_by);
            let ghost witness = inner;
            let out = match inner {
                Ok(v) => Ok(QueryResponse::Airdrops(v)),
                Err(e) => Err(e),
            };
            proof {
                assert(queries::airdrop::query_airdrops_ensures(*storage, start_after, limit, order_by, witness));
            }
            out
        },
        QueryMsg::Poll { poll_id } => {
            let inner = queries::poll::query_poll(storage, poll_id);
            let ghost witness = inner;
            let out = match inner {
                Ok(v) => Ok(QueryResponse::Poll(v)),
                Err(e) => Err(e),
            };
            proof {
                assert(queries::poll::query_poll_ensures(*storage, poll_id, witness));
            }
            out
        },
        QueryMsg::Polls { status_filter, category_filter, start_after, limit, order_by } => {
            let inner = if status_filter.is_some() {
                queries::poll::query_polls_with_status_filter(storage, status_filter, start_after, limit, order_by)
            } else if category_filter.is_some() {
                queries::poll::query_polls_with_category_filter(storage, category_filter, start_after, limit, order_by)
            } else {
                queries::poll::query_polls(storage, start_after, limit, order_by)
            };
            let ghost witness = inner;
            let out = match inner {
                Ok(v) => Ok(QueryResponse::Polls(v)),
                Err(e) => Err(e),
            };
            proof {
                assert(if status_filter is Some {
                    queries::poll::query_polls_with_status_filter_ensures(
                        *storage,
                        status_filter,
                        start_after,
                        limit,
                        order_by,
                        witness,
                    )
                } else if category_filter is Some {
                    queries::poll::query_polls_with_category_filter_ensures(
                        *storage,
                        category_filter,
                        start_after,
                        limit,
                        order_by,
                        witness,
                    )
                } else {
                    queries::poll::query_polls_ensures(*storage, start_after, limit, order_by, witness)
                });
            }
            out
        },
        QueryMsg::Voters { poll_id, start_after, limit, order_by } => {
            let ghost start_after_seen = start_after;
            let inner = queries::poll::query_voters(storage, poll_id, start_after, limit, order_by);
            let ghost witness = inner;
            let out = match inner {
                Ok(v) => Ok(QueryResponse::Voters(v)),
                Err(e) => Err(e),
            };
            proof {
                assert(queries::poll::query_voters_ensures(*storage, poll_id, start_after_seen, limit, order_by, witness));
            }
            out
        },
    }
}

/// Upgrades a ledger. `State` writes the total of the unbonding claims,
/// which earlier ledgers did not keep: given the sum of the claims that
/// wait, it makes a ledger consistent that was so but for that total.
/// `General` changes nothing.
pub fn migrate(storage: &mut Storage, msg: MigrateMsg) -> (r: Result<Response, ContractError>)
    ensures
        r is Ok,
        r->Ok_0.messages@.len() == 0,
        r->Ok_0.attributes@.len() == 0,
        msg is General && old(storage).wf() ==> final(storage).wf(),
        msg is State && old(storage).wf_but_for_unbondings() && msg->total_unbondings
            == crate::gov::states::sum_unbondings(old(storage).bank@) ==> final(storage).wf(),
        final(storage).config == old(storage).config,
        final(storage).bank == old(storage).bank,
        final(storage).polls == old(storage).polls,
        final(storage).airdrops == old(storage).airdrops,
        final(storage).tmp_poll_id == old(storage).tmp_poll_id,
        final(storage).state == (match msg {
            MigrateMsg::State { total_unbondings } => State { total_unbondings, ..old(storage).state },
            MigrateMsg::General => old(storage).state,
        }),
{
    match msg {
        MigrateMsg::State { total_unbondings } => { storage.state.total_unbondings = total_unbondings; },
        MigrateMsg::General => {},
    }
    Ok(Response::new())
}

} // verus!
