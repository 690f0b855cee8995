//! Polls on the ledger: from creation to execution.

use crate::common::attr;
use crate::common::attr_number;
use crate::error::ContractError;
use crate::gov::executions::staking::lemma_addresses_stay_unique;
use crate::gov::executions::staking::only_staker_changed;
use crate::gov::msg::Env;
use crate::gov::msg::ExecuteMsg;
use crate::gov::msg::Message;
use crate::gov::msg::MessageInfo;
use crate::gov::msg::PollCategory;
use crate::gov::msg::PollExecuteMsg;
use crate::gov::msg::PollMsg;
use crate::gov::msg::PollStatus;
use crate::gov::msg::Response;
use crate::gov::msg::VoteOption;
use crate::gov::poll::PollEnd;
use crate::gov::poll::execution_order;
use crate::gov::poll::is_execution_order;
use crate::gov::poll::previous_vote;
use crate::gov::poll::spec_cast_vote;
use crate::gov::poll::spec_create;
use crate::gov::poll::spec_end;
use crate::gov::poll::spec_execute;
use crate::gov::poll::spec_locks_after_vote;
use crate::gov::poll::spec_snapshot;
use crate::gov::poll::spec_staked_weight;
use crate::gov::poll::spec_tally;
use crate::gov::poll::transition_allowed;
use crate::gov::states::Poll;
use crate::gov::states::State;
use crate::gov::states::Storage;
use crate::gov::states::TokenManager;
use crate::gov::states::claims_in_order;
use crate::gov::states::escrowed;
use crate::gov::states::find_staker;
use crate::gov::states::has_staker;
use crate::gov::states::lemma_sum_deposits_push;
use crate::gov::states::lemma_sum_deposits_update;
use crate::gov::states::lemma_sum_shares_update;
use crate::gov::states::lemma_sum_unbondings_update;
use crate::gov::states::staker_index;

use crate::common::is_number;
use crate::common::is_text;
use vstd::prelude::*;

verus! {

/// The identifier under which the host reports that the operations of a
/// poll have failed.
pub const POLL_EXECUTE_REPLY_ID: u64 = 1;

/// Whether `after` is `before` but for the poll at `i`.
pub open spec fn only_poll_changed(before: Seq<Poll>, after: Seq<Poll>, i: int) -> bool {
    &&& 0 <= i < before.len()
    &&& after.len() == before.len()
    &&& after[i].id == before[i].id
    &&& forall|j: int| 0 <= j < before.len() && j != i ==> #[trigger] after[j] == before[j]
}

/// A change of totals and of one poll that keeps the poll's id, with the
/// stakers as they were, keeps the ledger consistent.
pub proof fn lemma_poll_change_keeps_wf(before: Storage, after: Storage, i: int)
    requires
        before.wf(),
        only_poll_changed(before.polls@, after.polls@, i),
        after.bank@ == before.bank@,
        after.airdrops@ == before.airdrops@,
        after.state.total_share == before.state.total_share,
        after.state.total_unbondings == before.state.total_unbondings,
        after.state.total_deposit - escrowed(after.polls[i]) == before.state.total_deposit - escrowed(
            before.polls[i],
        ),
        after.state.poll_count == before.state.poll_count,
        after.state.total_airdrop_count == before.state.total_airdrop_count,
    ensures
        after.wf(),
{
    assert forall|j: int| 0 <= j < after.polls.len() implies (#[trigger] after.polls[j]).id == j by {
        assert(before.polls[j].id == j);
    }
    assert(after.polls@ =~= before.polls@.update(i, after.polls@[i]));
    lemma_sum_deposits_update(before.polls@, i, after.polls@[i]);
}

/// Opens a poll for `proposer` with a deposit of `deposit_amount`, which the
/// ledger has received already, at the height of `env`. The deposit has to
/// reach `proposal_deposit`. The poll gets the id `poll_count`, which then
/// goes up by one; it is in progress until `height + voting_period`, has no
/// votes and no snapshot, and its deposit is added to the total in escrow.
pub fn create(
    storage: &mut Storage,
    env: &Env,
    proposer: String,
    deposit_amount: u128,
    title: String,
    category: PollCategory,
    description: String,
    link: Option<String>,
    execute_msgs: Option<Vec<PollExecuteMsg>>,
) -> (r: Result<Response, ContractError>)
    ensures
        old(storage).wf() ==> final(storage).wf(),
        match spec_create(old(storage).state, old(storage).config, env.block.height, deposit_amount) {
            Err(e) => r == Err::<Response, ContractError>(e),
            Ok(_) => {
                &&& r is Ok
                &&& final(storage).polls@ == old(storage).polls@.push(
                    Poll {
                        id: old(storage).state.poll_count,
                        creator: proposer,
                        status: PollStatus::InProgress,
                        yes_votes: 0,
                        no_votes: 0,
                        end_height: (env.block.height + old(storage).config.voting_period) as u64,
                        title,
                        category,
                        description,
                        link,
                        execute_data: execute_msgs,
                        deposit_amount,
                        total_balance_at_end_poll: None,
                        staked_amount: None,
                    },
                )
                &&& final(storage).state == (State {
                    poll_count: (old(storage).state.poll_count + 1) as u64,
                    total_deposit: (old(storage).state.total_deposit + deposit_amount) as u128,
                    ..old(storage).state
                })
                &&& final(storage).config == old(storage).config
                &&& final(storage).bank@ == old(storage).bank@
                &&& final(storage).airdrops@ == old(storage).airdrops@
                &&& final(storage).tmp_poll_id == old(storage).tmp_poll_id
                &&& r->Ok_0.messages@.len() == 0
                &&& r->Ok_0.attributes@.len() == 4
                &&& is_text(r->Ok_0.attributes@[0], "action"@, "create_poll"@)
                &&& is_text(r->Ok_0.attributes@[1], "creator"@, proposer@)
                &&& is_number(r->Ok_0.attributes@[2], "poll_id"@, old(storage).state.poll_count as u128)
                &&& is_number(
                    r->Ok_0.attributes@[3],
                    "end_height"@,
                    (env.block.height + old(storage).config.voting_period) as u128,
                )
            },
        },
        r is Err ==> final(storage).same_as(old(storage)),
{
    let mut response = Response::new();
    response.attributes.push(attr("action", "create_poll"));
    response.attributes.push(attr("creator", proposer.as_str()));
    let poll: Poll = match crate::gov::poll::create(
        &mut storage.state,
        &storage.config,
        env.block.height,
        proposer,
        deposit_amount,
        title,
        category,
        description,
        link,
        execute_msgs,
    ) {
        Ok(p) => p,
        Err(e) => { return Err(e); },
    };
    response.attributes.push(attr_number("poll_id", poll.id as u128));
    response.attributes.push(attr_number("end_height", poll.end_height as u128));
    proof {
        lemma_sum_deposits_push(storage.polls@, poll);
    }
    storage.polls.push(poll);
    proof {
        if old(storage).wf() {
            assert forall|j: int| 0 <= j < storage.polls.len() implies (#[trigger] storage.polls[j]).id == j by {
                if j < old(storage).polls.len() {
                    assert(storage.polls[j] == old(storage).polls[j]);
                }
            }
        }
    }
    Ok(response)
}

/// Whether `after` is `before` with a vote of `amount` for `vote` by the
/// staker at `i` in the poll at `poll_id`: the tally of the poll counts the
/// vote in place of the staker's earlier one, and the staker's locks hold
/// it.
pub open spec fn spec_voted(
    before: Storage,
    after: Storage,
    i: int,
    poll_id: int,
    vote: VoteOption,
    amount: u128,
) -> bool {
    let poll = before.polls[poll_id];
    let previous = previous_vote(before.bank[i].manager.locked_balance@, poll.id);
    &&& after.config == before.config
    &&& after.state == before.state
    &&& after.airdrops@ == before.airdrops@
    &&& after.tmp_poll_id == before.tmp_poll_id
    &&& only_poll_changed(before.polls@, after.polls@, poll_id)
    &&& after.polls[poll_id] == (Poll {
        yes_votes: spec_tally(poll.yes_votes, VoteOption::Yes, previous, vote, amount) as u128,
        no_votes: spec_tally(poll.no_votes, VoteOption::No, previous, vote, amount) as u128,
        ..poll
    })
    &&& only_staker_changed(before.bank@, after.bank@, i)
    &&& after.bank[i].manager == (TokenManager {
        locked_balance: after.bank[i].manager.locked_balance,
        ..before.bank[i].manager
    })
    &&& after.bank[i].manager.locked_balance@ == spec_locks_after_vote(
        before.bank[i].manager.locked_balance@,
        poll.id,
        vote,
        amount,
    )
    &&& after.bank[i].claims == before.bank[i].claims
    &&& after.bank[i].rewards == before.bank[i].rewards
}

/// A vote keeps the ledger consistent: it moves no share and no claim.
pub proof fn lemma_vote_keeps_wf(before: Storage, after: Storage, i: int, poll_id: int, vote: VoteOption, amount: u128)
    requires
        before.wf(),
        spec_voted(before, after, i, poll_id, vote, amount),
    ensures
        after.wf(),
{
    assert(after.bank@ =~= before.bank@.update(i, after.bank@[i]));
    lemma_sum_shares_update(before.bank@, i, after.bank@[i]);
    lemma_sum_unbondings_update(before.bank@, i, after.bank@[i]);
    lemma_addresses_stay_unique(before.bank@, after.bank@, i);
    assert forall|j: int| 0 <= j < after.bank@.len() implies claims_in_order(#[trigger] after.bank@[j]) by {
        assert(claims_in_order(before.bank@[j]));
    }
    assert forall|j: int| 0 <= j < after.polls.len() implies (#[trigger] after.polls[j]).id == j by {
        assert(before.polls[j].id == j);
    }
    assert(after.polls@ =~= before.polls@.update(poll_id, after.polls@[poll_id]));
    lemma_sum_deposits_update(before.polls@, poll_id, after.polls@[poll_id]);
}

/// What [`cast_vote`] guarantees of its outcome `r` and of the ledger `after` it,
/// which was `before`.
pub open spec fn cast_vote_ensures(
    before: Storage,
    after: Storage,
    env: Env,
    info: MessageInfo,
    poll_id: u64,
    vote: VoteOption,
    amount: u128,
    queried_balance: u128,
    r: Result<Response, ContractError>,
) -> bool {
    &&& before.wf() ==> after.wf()
    &&& poll_id >= before.polls.len() ==> r == Err::<Response, ContractError>(ContractError::PollNotFound)
    &&& poll_id < before.polls.len() && !has_staker(before.bank@, info.sender@) ==> r == Err::<
        Response,
        ContractError,
    >(ContractError::NothingStaked)
    &&& poll_id < before.polls.len() && has_staker(before.bank@, info.sender@) ==> ({
        let i = staker_index(before.bank@, info.sender@);
        match spec_cast_vote(
            before.polls[poll_id as int],
            before.state,
            before.bank[i].manager.share,
            previous_vote(before.bank[i].manager.locked_balance@, before.polls[poll_id as int].id),
            queried_balance,
            env.block.height,
            vote,
            amount,
        ) {
            Err(e) => r == Err::<Response, ContractError>(e),
            Ok(_) => {
                &&& r is Ok
                &&& spec_voted(before, after, i, poll_id as int, vote, amount)
                &&& r->Ok_0.messages@.len() == 0
                &&& r->Ok_0.attributes@.len() == 5
                &&& is_text(r->Ok_0.attributes@[0], "action"@, "cast_vote"@)
                &&& is_number(r->Ok_0.attributes@[1], "poll_id"@, poll_id as u128)
                &&& is_number(r->Ok_0.attributes@[2], "amount"@, amount)
                &&& is_text(r->Ok_0.attributes@[3], "voter"@, info.sender@)
                &&& is_text(
                    r->Ok_0.attributes@[4],
                    "vote_option"@,
                    if vote == VoteOption::Yes { "yes"@ } else { "no"@ },
                )
            },
        }
    })
    &&& r is Err ==> after.same_as(&before)
}

/// Casts `amount` for `vote` in the poll `poll_id`, for the sender, at the
/// height of `env`. The poll has to be in progress and not past its end
/// height, and `amount` may not exceed what the sender's shares are worth.
/// What the sender has committed to other polls does not count against
/// that: one balance backs all of a staker's votes. A second vote in the
/// same poll has to be larger than the first and takes its place.
pub fn cast_vote(
    storage: &mut Storage,
    env: &Env,
    info: &MessageInfo,
    poll_id: u64,
    vote: VoteOption,
    amount: u128,
    queried_balance: u128,
) -> (r: Result<Response, ContractError>)
    ensures
        cast_vote_ensures(
            *old(storage),
            *final(storage),
            *env,
            *info,
            poll_id,
            vote,
            amount,
            queried_balance,
            r,
        ),
{
    if poll_id >= storage.polls.len() as u64 {
        return Err(ContractError::PollNotFound);
    }
    let i: usize = match find_staker(&storage.bank, &info.sender) {
        Some(i) => i,
        None => { return Err(ContractError::NothingStaked); },
    };
    let ghost bank_before = storage.bank@;
    let ghost polls_before = storage.polls@;
    match crate::gov::poll::cast_vote(
        &mut storage.polls[poll_id as usize],
        &mut storage.bank[i].manager,
        &storage.state,
        queried_balance,
        env.block.height,
        vote,
        amount,
    ) {
        Ok(_) => {},
        Err(e) => {
            proof {
                assert(storage.bank@ =~= bank_before);
                assert(storage.polls@ =~= polls_before);
            }
            return Err(e);
        },
    }
    proof {
        if old(storage).wf() {
            lemma_vote_keeps_wf(*old(storage), *storage, i as int, poll_id as int, vote, amount);
        }
    }
    let mut response = Response::new();
    response.attributes.push(attr("action", "cast_vote"));
    response.attributes.push(attr_number("poll_id", poll_id as u128));
    response.attributes.push(attr_number("amount", amount));
    response.attributes.push(attr("voter", info.sender.as_str()));
    let side: String = vote.to_string();
    response.attributes.push(attr("vote_option", side.as_str()));
    Ok(response)
}

/// What [`snapshot`] guarantees of its outcome `r` and of the ledger `after` it,
/// which was `before`.
pub open spec fn snapshot_ensures(
    before: Storage,
    after: Storage,
    env: Env,
    info: MessageInfo,
    poll_id: u64,
    queried_balance: u128,
    r: Result<Response, ContractError>,
) -> bool {
    &&& before.wf() ==> after.wf()
    &&& poll_id >= before.polls.len() ==> r == Err::<Response, ContractError>(ContractError::PollNotFound)
    &&& poll_id < before.polls.len() ==> match spec_snapshot(
        before.polls[poll_id as int],
        before.config,
        before.state,
        queried_balance,
        env.block.height,
    ) {
        Err(e) => r == Err::<Response, ContractError>(e),
        Ok(_) => {
            &&& r is Ok
            &&& r->Ok_0.messages@.len() == 0
            &&& r->Ok_0.attributes@.len() == 3
            &&& is_text(r->Ok_0.attributes@[0], "action"@, "snapshot_poll"@)
            &&& is_number(r->Ok_0.attributes@[1], "poll_id"@, poll_id as u128)
            &&& is_number(r->Ok_0.attributes@[2], "staked_amount"@, before.state.total_share)
            &&& only_poll_changed(before.polls@, after.polls@, poll_id as int)
            &&& after.polls[poll_id as int] == (Poll {
                staked_amount: Some(before.state.total_share),
                total_balance_at_end_poll: Some((queried_balance - before.state.total_deposit) as u128),
                ..before.polls[poll_id as int]
            })
            &&& after.config == before.config
            &&& after.state == before.state
            &&& after.bank@ == before.bank@
            &&& after.airdrops@ == before.airdrops@
            &&& after.tmp_poll_id == before.tmp_poll_id
        },
    }
    &&& r is Err ==> after.same_as(&before)
}

/// Records the figures that the quorum of the poll `poll_id` will be
/// measured against: the total share and the redeemable balance at the
/// height of `env`. This can be done once, while the poll is in progress and
/// within `snapshot_period` blocks before its end height.
pub fn snapshot(
    storage: &mut Storage,
    env: &Env,
    info: &MessageInfo,
    poll_id: u64,
    queried_balance: u128,
) -> (r: Result<
    Response,
    ContractError,
>)
    ensures
        snapshot_ensures(*old(storage), *final(storage), *env, *info, poll_id, queried_balance, r),
{
    if poll_id >= storage.polls.len() as u64 {
        return Err(ContractError::PollNotFound);
    }
    let ghost polls_before = storage.polls@;
    match crate::gov::poll::snapshot(
        &mut storage.polls[poll_id as usize],
        &storage.config,
        &storage.state,
        queried_balance,
        env.block.height,
    ) {
        Ok(_) => {},
        Err(e) => {
            proof {
                assert(storage.polls@ =~= polls_before);
            }
            return Err(e);
        },
    }
    proof {
        if old(storage).wf() {
            lemma_poll_change_keeps_wf(*old(storage), *storage, poll_id as int);
        }
    }
    let mut response = Response::new();
    response.attributes.push(attr("action", "snapshot_poll"));
    response.attributes.push(attr_number("poll_id", poll_id as u128));
    response.attributes.push(attr_number("staked_amount", storage.state.total_share));
    Ok(response)
}

/// What [`end`] guarantees of its outcome `r` and of the ledger `after` it, which
/// was `before`.
pub open spec fn end_ensures(
    before: Storage,
    after: Storage,
    env: Env,
    poll_id: u64,
    queried_balance: u128,
    r: Result<Response, ContractError>,
) -> bool {
    &&& before.wf() && poll_id < before.polls.len() && before.polls[poll_id as int].status == PollStatus::InProgress
        && before.polls[poll_id as int].yes_votes + before.polls[poll_id as int].no_votes == 0 && env.block.height
        > before.polls[poll_id as int].end_height && queried_balance >= before.state.total_deposit ==> r is Ok
        && after.polls[poll_id as int].status == PollStatus::Rejected && r->Ok_0.messages@.len() == 0
    &&& before.wf() ==> after.wf()
    &&& poll_id >= before.polls.len() ==> r == Err::<Response, ContractError>(ContractError::PollNotFound)
    &&& poll_id < before.polls.len() ==> match spec_end(
        before.polls[poll_id as int],
        before.config,
        before.state,
        queried_balance,
        env.block.height,
    ) {
        Err(e) => r == Err::<Response, ContractError>(e),
        Ok(outcome) => {
            let poll = before.polls[poll_id as int];
            &&& r is Ok
            &&& only_poll_changed(before.polls@, after.polls@, poll_id as int)
            &&& after.polls[poll_id as int] == (Poll {
                status: outcome.status,
                staked_amount: Some(spec_staked_weight(poll, before.state)),
                total_balance_at_end_poll: Some(
                    match poll.total_balance_at_end_poll {
                        Some(b) => b,
                        None => (queried_balance - before.state.total_deposit) as u128,
                    },
                ),
                ..poll
            })
            &&& transition_allowed(poll.status, outcome.status)
            &&& poll.yes_votes + poll.no_votes == 0 ==> outcome.status == PollStatus::Rejected
            &&& after.state == (State {
                total_deposit: (before.state.total_deposit - poll.deposit_amount) as u128,
                ..before.state
            })
            &&& after.config == before.config
            &&& after.bank@ == before.bank@
            &&& after.airdrops@ == before.airdrops@
            &&& after.tmp_poll_id == before.tmp_poll_id
            &&& if outcome.quorum_met && poll.deposit_amount > 0 {
                &&& r->Ok_0.messages@.len() == 1
                &&& r->Ok_0.messages@[0] is Transfer
                &&& r->Ok_0.messages@[0]->Transfer_token@ == before.config.pylon_token@
                &&& r->Ok_0.messages@[0]->Transfer_recipient@ == poll.creator@
                &&& r->Ok_0.messages@[0]->Transfer_amount == poll.deposit_amount
            } else {
                r->Ok_0.messages@.len() == 0
            }
            &&& r->Ok_0.attributes@.len() == 4
            &&& is_text(r->Ok_0.attributes@[0], "action"@, "end_poll"@)
            &&& is_number(r->Ok_0.attributes@[1], "poll_id"@, poll_id as u128)
            &&& is_text(
                r->Ok_0.attributes@[2],
                "passed"@,
                if outcome.status == PollStatus::Passed { "true"@ } else { "false"@ },
            )
            &&& is_text(
                r->Ok_0.attributes@[3],
                "quorum"@,
                if outcome.quorum_met { "reached"@ } else { "not reached"@ },
            )
        },
    }
    &&& r is Err ==> after.same_as(&before)
}

/// Ends the voting of the poll `poll_id`, which has to be in progress, at
/// the height of `env`, which has to be past the poll's end height. The
/// poll passes where the turnout reaches the quorum and the yes votes reach
/// the threshold; otherwise, and always where nobody voted, it is rejected.
/// Its deposit leaves escrow: where the quorum was reached the host is asked
/// to return it to the creator, else it stays with the pool. From then on
/// the votes in this poll lock nothing.
pub fn end(
    storage: &mut Storage,
    env: &Env,
    poll_id: u64,
    queried_balance: u128,
) -> (r: Result<Response, ContractError>)
    ensures
        end_ensures(*old(storage), *final(storage), *env, poll_id, queried_balance, r),
{
    if poll_id >= storage.polls.len() as u64 {
        return Err(ContractError::PollNotFound);
    }
    let ghost polls_before = storage.polls@;
    proof {
        if old(storage).wf() {
            crate::gov::states::lemma_escrow_within_sum(storage.polls@, poll_id as int);
        }
    }
    let outcome: PollEnd = match crate::gov::poll::end(
        &mut storage.polls[poll_id as usize],
        &mut storage.state,
        &storage.config,
        queried_balance,
        env.block.height,
    ) {
        Ok(v) => v,
        Err(e) => {
            proof {
                assert(storage.polls@ =~= polls_before);
            }
            return Err(e);
        },
    };
    proof {
        if old(storage).wf() {
            lemma_poll_change_keeps_wf(*old(storage), *storage, poll_id as int);
        }
    }
    let mut response = Response::new();
    if outcome.refund > 0 {
        response.messages.push(
            Message::Transfer {
                token: storage.config.pylon_token.clone(),
                recipient: storage.polls[poll_id as usize].creator.clone(),
                amount: outcome.refund,
            },
        );
    }
    response.attributes.push(attr("action", "end_poll"));
    response.attributes.push(attr_number("poll_id", poll_id as u128));
    let passed: bool = match outcome.status {
        PollStatus::Passed => true,
        _ => false,
    };
    response.attributes.push(attr("passed", if passed { "true" } else { "false" }));
    response.attributes.push(attr("quorum", if outcome.quorum_met { "reached" } else { "not reached" }));
    Ok(response)
}

/// What [`execute`] guarantees of its outcome `r` and of the ledger `after` it,
/// which was `before`.
pub open spec fn execute_ensures(
    before: Storage,
    after: Storage,
    env: Env,
    poll_id: u64,
    r: Result<Response, ContractError>,
) -> bool {
    &&& before.wf() ==> after.wf()
    &&& poll_id >= before.polls.len() ==> r == Err::<Response, ContractError>(ContractError::PollNotFound)
    &&& poll_id < before.polls.len() ==> match spec_execute(
        before.polls[poll_id as int],
        before.config,
        env.block.height,
    ) {
        Err(e) => r == Err::<Response, ContractError>(e),
        Ok(_) => {
            &&& r is Ok
            &&& only_poll_changed(before.polls@, after.polls@, poll_id as int)
            &&& after.polls[poll_id as int] == (Poll {
                status: PollStatus::Executed,
                ..before.polls[poll_id as int]
            })
            &&& after.tmp_poll_id == Some(poll_id)
            &&& after.config == before.config
            &&& after.state == before.state
            &&& after.bank@ == before.bank@
            &&& after.airdrops@ == before.airdrops@
            &&& r->Ok_0.messages@.len() == 1
            &&& r->Ok_0.messages@[0] == (Message::ExecuteWithReply {
                msg: ExecuteMsg::Poll(PollMsg::ExecuteMsgs { poll_id }),
                reply_id: POLL_EXECUTE_REPLY_ID,
            })
            &&& r->Ok_0.attributes@.len() == 2
            &&& is_text(r->Ok_0.attributes@[0], "action"@, "execute_poll"@)
            &&& is_number(r->Ok_0.attributes@[1], "poll_id"@, poll_id as u128)
        },
    }
    &&& r is Err ==> after.same_as(&before)
}

/// Marks the passed poll `poll_id` as executed, once `timelock_period`
/// blocks have gone by since its end height, notes it as the poll whose
/// operations are under way, and asks the host to have the ledger run them
/// and to report a failure under [`POLL_EXECUTE_REPLY_ID`].
pub fn execute(storage: &mut Storage, env: &Env, poll_id: u64) -> (r: Result<Response, ContractError>)
    ensures
        execute_ensures(*old(storage), *final(storage), *env, poll_id, r),
{
    if poll_id >= storage.polls.len() as u64 {
        return Err(ContractError::PollNotFound);
    }
    let ghost polls_before = storage.polls@;
    match crate::gov::poll::execute(&mut storage.polls[poll_id as usize], &storage.config, env.block.height) {
        Ok(_) => {},
        Err(e) => {
            proof {
                assert(storage.polls@ =~= polls_before);
            }
            return Err(e);
        },
    }
    storage.tmp_poll_id = Some(poll_id);
    proof {
        if old(storage).wf() {
            lemma_poll_change_keeps_wf(*old(storage), *storage, poll_id as int);
        }
    }
    let mut response = Response::new();
    response.messages.push(
        Message::ExecuteWithReply {
            msg: ExecuteMsg::Poll(PollMsg::ExecuteMsgs { poll_id }),
            reply_id: POLL_EXECUTE_REPLY_ID,
        },
    );
    response.attributes.push(attr("action", "execute_poll"));
    response.attributes.push(attr_number("poll_id", poll_id as u128));
    Ok(response)
}

/// Corrects the executed poll `poll_id` to `Failed`, after the host has
/// reported that its operations failed.
pub fn fail(storage: &mut Storage, poll_id: u64) -> (r: Result<Response, ContractError>)
    ensures
        old(storage).wf() ==> final(storage).wf(),
        poll_id >= old(storage).polls.len() ==> r == Err::<Response, ContractError>(ContractError::PollNotFound),
        poll_id < old(storage).polls.len() && old(storage).polls[poll_id as int].status != PollStatus::Executed ==> r
            == Err::<Response, ContractError>(ContractError::PollNotExecuted),
        poll_id < old(storage).polls.len() && old(storage).polls[poll_id as int].status == PollStatus::Executed ==> {
            &&& r is Ok
            &&& r->Ok_0.messages@.len() == 0
            &&& r->Ok_0.attributes@.len() == 2
            &&& is_text(r->Ok_0.attributes@[0], "action"@, "fail_poll"@)
            &&& is_number(r->Ok_0.attributes@[1], "poll_id"@, poll_id as u128)
            &&& only_poll_changed(old(storage).polls@, final(storage).polls@, poll_id as int)
            &&& final(storage).polls[poll_id as int] == (Poll {
                status: PollStatus::Failed,
                ..old(storage).polls[poll_id as int]
            })
            &&& final(storage).config == old(storage).config
            &&& final(storage).state == old(storage).state
            &&& final(storage).bank@ == old(storage).bank@
            &&& final(storage).airdrops@ == old(storage).airdrops@
            &&& final(storage).tmp_poll_id == old(storage).tmp_poll_id
        },
        r is Err ==> final(storage).same_as(old(storage)),
{
    if poll_id >= storage.polls.len() as u64 {
        return Err(ContractError::PollNotFound);
    }
    let ghost polls_before = storage.polls@;
    match crate::gov::poll::fail(&mut storage.polls[poll_id as usize]) {
        Ok(_) => {},
        Err(e) => {
            proof {
                assert(storage.polls@ =~= polls_before);
            }
            return Err(e);
        },
    }
    proof {
        if old(storage).wf() {
            lemma_poll_change_keeps_wf(*old(storage), *storage, poll_id as int);
        }
    }
    let mut response = Response::new();
    response.attributes.push(attr("action", "fail_poll"));
    response.attributes.push(attr_number("poll_id", poll_id as u128));
    Ok(response)
}

/// Whether `messages` calls the operations of `data` one by one, in the
/// order `sequence`.
pub open spec fn spec_calls(messages: Seq<Message>, data: Seq<PollExecuteMsg>, sequence: Seq<usize>) -> bool {
    &&& messages.len() == sequence.len()
    &&& forall|k: int|
        0 <= k < messages.len() ==> {
            &&& (#[trigger] messages[k]) is Call
            &&& messages[k]->Call_contract@ == data[sequence[k] as int].contract@
            &&& messages[k]->Call_msg@ == data[sequence[k] as int].msg@
        }
}

/// What [`execute_messages`] guarantees of its outcome `r`.
pub open spec fn execute_messages_ensures(
    storage: Storage,
    env: Env,
    info: MessageInfo,
    poll_id: u64,
    r: Result<Response, ContractError>,
) -> bool {
    &&& env.contract_address@ != info.sender@ ==> r == Err::<Response, ContractError>(ContractError::Unauthorized)
    &&& env.contract_address@ == info.sender@ && poll_id >= storage.polls.len() ==> r == Err::<
        Response,
        ContractError,
    >(ContractError::PollNotFound)
    &&& env.contract_address@ == info.sender@ && poll_id < storage.polls.len() ==> {
        &&& r is Ok
        &&& match storage.polls[poll_id as int].execute_data {
            None => r->Ok_0.messages@.len() == 0,
            Some(data) => exists|sequence: Seq<usize>|
                is_execution_order(data@, sequence) && spec_calls(r->Ok_0.messages@, data@, sequence),
        }
        &&& r->Ok_0.attributes@.len() == 2
        &&& is_text(r->Ok_0.attributes@[0], "action"@, "execute_poll_messages"@)
        &&& is_number(r->Ok_0.attributes@[1], "poll_id"@, poll_id as u128)
    }
}

/// Hands the operations of the poll `poll_id` to the host, each as a call
/// of its contract, ordered by their `order` and, where that is the same,
/// by their place in the poll. Only the ledger itself may send this. The
/// ledger stays as it is.
pub fn execute_messages(storage: &Storage, env: &Env, info: &MessageInfo, poll_id: u64) -> (r: Result<
    Response,
    ContractError,
>)
    ensures
        execute_messages_ensures(*storage, *env, *info, poll_id, r),
{
    if env.contract_address != info.sender {
        return Err(ContractError::Unauthorized);
    }
    if poll_id >= storage.polls.len() as u64 {
        return Err(ContractError::PollNotFound);
    }
    let mut response = Response::new();
    response.attributes.push(attr("action", "execute_poll_messages"));
    response.attributes.push(attr_number("poll_id", poll_id as u128));
    match &storage.polls[poll_id as usize].execute_data {
        None => {},
        Some(data) => {
            let sequence: Vec<usize> = execution_order(data);
            let mut k: usize = 0;
            while k < sequence.len()
                invariant
                    k <= sequence.len(),
                    is_execution_order(data@, sequence@),
                    response.attributes@.len() == 2,
                    is_text(response.attributes@[0], "action"@, "execute_poll_messages"@),
                    is_number(response.attributes@[1], "poll_id"@, poll_id as u128),
                    response.messages@.len() == k,
                    forall|j: int|
                        0 <= j < k ==> {
                            &&& (#[trigger] response.messages@[j]) is Call
                            &&& response.messages@[j]->Call_contract@ == data[sequence[j] as int].contract@
                            &&& response.messages@[j]->Call_msg@ == data[sequence[j] as int].msg@
                        },
                decreases sequence.len() - k,
            {
                let item: &PollExecuteMsg = &data[sequence[k]];
                let payload: Vec<u8> = item.msg.clone();
                proof {
                    assert(payload@ =~= item.msg@);
                }
                response.messages.push(Message::Call { contract: item.contract.clone(), msg: payload });
                k += 1;
            }
            proof {
                assert(spec_calls(response.messages@, data@, sequence@));
            }
        },
    }
    Ok(response)
}

} // verus!
