//! Staking, withdrawing and unlocking on the ledger.

use crate::common::MAX_QUERY_LIMIT;
use crate::common::attr;
use crate::common::attr_number;
use crate::common::is_number;
use crate::common::is_text;
use crate::error::ContractError;
use crate::gov::msg::Env;
use crate::gov::msg::Message;
use crate::gov::msg::MessageInfo;
use crate::gov::msg::Response;
use crate::gov::staking::live_locks;
use crate::gov::staking::matured_run;
use crate::gov::staking::spec_locked_balance;
use crate::gov::staking::spec_stake;
use crate::gov::staking::spec_unlock;
use crate::gov::staking::spec_withdraw;
use crate::gov::staking::stake;
use crate::gov::staking::unlock;
use crate::gov::staking::withdraw;
use crate::gov::states::Staker;
use crate::gov::states::State;
use crate::gov::states::Storage;
use crate::gov::states::TokenClaim;
use crate::gov::states::TokenManager;
use crate::gov::states::claims_in_order;
use crate::gov::states::find_staker;
use crate::gov::states::has_staker;
use crate::gov::states::lemma_share_within_sum;
use crate::gov::states::lemma_sum_claims_split;
use crate::gov::states::lemma_sum_shares_push;
use crate::gov::states::lemma_sum_shares_update;
use crate::gov::states::lemma_sum_unbondings_push;
use crate::gov::states::lemma_sum_unbondings_update;
use crate::gov::states::staker_index;
use crate::gov::states::sum_claims;

use vstd::prelude::*;

verus! {

/// The share of the staker with the address; zero for one who never staked.
pub open spec fn spec_share_of(bank: Seq<Staker>, address: Seq<char>) -> u128 {
    if has_staker(bank, address) {
        bank[staker_index(bank, address)].manager.share
    } else {
        0
    }
}

/// Whether `after` is `before` with `minted` shares more for `sender`, who
/// gets a record if there was none, and for the total.
pub open spec fn spec_staked(before: Storage, after: Storage, sender: String, minted: u128) -> bool {
    &&& after.config == before.config
    &&& after.polls@ == before.polls@
    &&& after.airdrops@ == before.airdrops@
    &&& after.tmp_poll_id == before.tmp_poll_id
    &&& after.state == (State { total_share: (before.state.total_share + minted) as u128, ..before.state })
    &&& if has_staker(before.bank@, sender@) {
        let i = staker_index(before.bank@, sender@);
        after.bank@ == before.bank@.update(
            i,
            Staker {
                manager: TokenManager {
                    share: (before.bank[i].manager.share + minted) as u128,
                    ..before.bank[i].manager
                },
                ..before.bank[i]
            },
        )
    } else {
        &&& after.bank@.len() == before.bank@.len() + 1
        &&& after.bank@.drop_last() == before.bank@
        &&& after.bank@.last().address == sender
        &&& after.bank@.last().manager.share == minted
        &&& after.bank@.last().manager.latest_claim_id == 0
        &&& after.bank@.last().manager.last_unlocked_claim_id == 0
        &&& after.bank@.last().manager.locked_balance@.len() == 0
        &&& after.bank@.last().claims@.len() == 0
        &&& after.bank@.last().rewards@.len() == 0
    }
}

/// Staking keeps the ledger consistent: after a deposit the total share is
/// still the sum of the stakers' shares, and no claim queue has changed.
pub proof fn lemma_stake_keeps_wf(before: Storage, after: Storage, sender: String, minted: u128)
    requires
        before.wf(),
        spec_staked(before, after, sender, minted),
        before.state.total_share + minted <= u128::MAX,
    ensures
        after.wf(),
{
    if has_staker(before.bank@, sender@) {
        let i = staker_index(before.bank@, sender@);
        lemma_sum_shares_update(before.bank@, i, after.bank@[i]);
        lemma_sum_unbondings_update(before.bank@, i, after.bank@[i]);
        lemma_share_within_sum(before.bank@, i);
        assert forall|j: int| 0 <= j < after.bank@.len() implies claims_in_order(#[trigger] after.bank@[j]) by {
            assert(claims_in_order(before.bank@[j]));
        }
        assert forall|j: int, k: int|
            0 <= j < after.bank@.len() && 0 <= k < after.bank@.len() && j != k implies (#[trigger] after.bank@[j]).address@
            != (#[trigger] after.bank@[k]).address@ by {
            assert(after.bank@[j].address@ == before.bank@[j].address@);
            assert(after.bank@[k].address@ == before.bank@[k].address@);
        }
    } else {
        let staker = after.bank@.last();
        assert(after.bank@ =~= before.bank@.push(staker));
        lemma_sum_shares_push(before.bank@, staker);
        lemma_sum_unbondings_push(before.bank@, staker);
        assert(staker.claims@ =~= Seq::<(u64, TokenClaim)>::empty());
        assert forall|j: int| 0 <= j < after.bank@.len() implies claims_in_order(#[trigger] after.bank@[j]) by {
            if j < before.bank@.len() {
                assert(after.bank@[j] == before.bank@[j]);
                assert(claims_in_order(before.bank@[j]));
            }
        }
        assert forall|j: int, k: int|
            0 <= j < after.bank@.len() && 0 <= k < after.bank@.len() && j != k implies (#[trigger] after.bank@[j]).address@
            != (#[trigger] after.bank@[k]).address@ by {
            if j < before.bank@.len() {
                assert(after.bank@[j] == before.bank@[j]);
            }
            if k < before.bank@.len() {
                assert(after.bank@[k] == before.bank@[k]);
            }
        }
    }
}

/// What [`stake_voting_tokens`] guarantees of its outcome `r` and of the ledger
/// `after` it, which was `before`.
pub open spec fn stake_voting_tokens_ensures(
    before: Storage,
    after: Storage,
    env: Env,
    info: MessageInfo,
    sender: String,
    amount: u128,
    queried_balance: u128,
    r: Result<Response, ContractError>,
) -> bool {
    &&& before.wf() ==> after.wf()
    &&& env.contract_address@ != info.sender@ ==> r == Err::<Response, ContractError>(ContractError::Unauthorized)
    &&& env.contract_address@ == info.sender@ ==> match spec_stake(
        before.state,
        spec_share_of(before.bank@, sender@),
        queried_balance,
        amount,
    ) {
        Err(e) => r == Err::<Response, ContractError>(e),
        Ok(minted) => {
            &&& r is Ok
            &&& spec_staked(before, after, sender, minted)
            &&& r->Ok_0.messages@.len() == 0
            &&& r->Ok_0.attributes@.len() == 4
            &&& is_text(r->Ok_0.attributes@[0], "action"@, "staking"@)
            &&& is_text(r->Ok_0.attributes@[1], "sender"@, sender@)
            &&& is_number(r->Ok_0.attributes@[2], "share"@, minted)
            &&& is_number(r->Ok_0.attributes@[3], "amount"@, amount)
        },
    }
    &&& r is Err ==> after.same_as(&before)
}

/// Credits a deposit of `amount` tokens by `sender`, which the ledger has
/// received already: `queried_balance` is the ledger's token balance with
/// the deposit in it. Only the ledger itself may send this. The deposit
/// mints `amount` shares in an empty pool and
/// `amount * total_share / balance_before` shares otherwise, for the staker
/// and for the total alike, so that the total stays the sum of all shares.
pub fn stake_voting_tokens(
    storage: &mut Storage,
    env: &Env,
    info: &MessageInfo,
    sender: String,
    amount: u128,
    queried_balance: u128,
) -> (r: Result<Response, ContractError>)
    ensures
        stake_voting_tokens_ensures(
            *old(storage),
            *final(storage),
            *env,
            *info,
            sender,
            amount,
            queried_balance,
            r,
        ),
{
    if env.contract_address != info.sender {
        return Err(ContractError::Unauthorized);
    }
    let minted: u128;
    match find_staker(&storage.bank, &sender) {
        Some(i) => {
            let ghost before = storage.bank@;
            minted = match stake(&mut storage.state, &mut storage.bank[i].manager, queried_balance, amount) {
                Ok(v) => v,
                Err(e) => {
                    proof {
                        assert(storage.bank@ =~= before);
                    }
                    return Err(e);
                },
            };
            proof {
                assert(storage.bank@ =~= before.update(i as int, storage.bank@[i as int]));
            }
        },
        None => {
            let mut manager = TokenManager::new();
            minted = match stake(&mut storage.state, &mut manager, queried_balance, amount) {
                Ok(v) => v,
                Err(e) => { return Err(e); },
            };
            let staker = Staker { address: sender.clone(), manager, claims: Vec::new(), rewards: Vec::new() };
            storage.bank.push(staker);
            proof {
                assert(storage.bank@.drop_last() =~= old(storage).bank@);
            }
        },
    }
    proof {
        if old(storage).wf() {
            lemma_stake_keeps_wf(*old(storage), *storage, sender, minted);
        }
    }
    let mut response = Response::new();
    response.attributes.push(attr("action", "staking"));
    response.attributes.push(attr("sender", sender.as_str()));
    response.attributes.push(attr_number("share", minted));
    response.attributes.push(attr_number("amount", amount));
    Ok(response)
}

/// Whether `after` is `before` but for the staker at `i`, who keeps the
/// address.
pub open spec fn only_staker_changed(before: Seq<Staker>, after: Seq<Staker>, i: int) -> bool {
    &&& 0 <= i < before.len()
    &&& after.len() == before.len()
    &&& after[i].address == before[i].address
    &&& forall|j: int| 0 <= j < before.len() && j != i ==> #[trigger] after[j] == before[j]
}

/// Whether `after` is `before` with `withdraw_share` shares less for the
/// staker at `i` and for the total, and with a claim on `withdraw_amount`
/// tokens at the end of that staker's queue.
pub open spec fn spec_withdrawn(
    before: Storage,
    after: Storage,
    i: int,
    withdraw_share: u128,
    claim: TokenClaim,
) -> bool {
    &&& after.config == before.config
    &&& after.polls@ == before.polls@
    &&& after.airdrops@ == before.airdrops@
    &&& after.tmp_poll_id == before.tmp_poll_id
    &&& after.state == (State {
        total_share: (before.state.total_share - withdraw_share) as u128,
        total_unbondings: (before.state.total_unbondings + claim.amount) as u128,
        ..before.state
    })
    &&& only_staker_changed(before.bank@, after.bank@, i)
    &&& after.bank[i].manager.share == before.bank[i].manager.share - withdraw_share
    &&& after.bank[i].manager.latest_claim_id == before.bank[i].manager.latest_claim_id + 1
    &&& after.bank[i].manager.last_unlocked_claim_id == before.bank[i].manager.last_unlocked_claim_id
    &&& after.bank[i].manager.locked_balance@ == live_locks(before.bank[i].manager.locked_balance@, before.polls@)
    &&& after.bank[i].claims@ == before.bank[i].claims@.push((before.bank[i].manager.latest_claim_id, claim))
    &&& after.bank[i].rewards@ == before.bank[i].rewards@
}

/// A change of one staker's record leaves the addresses as they are.
pub proof fn lemma_addresses_stay_unique(before: Seq<Staker>, after: Seq<Staker>, i: int)
    requires
        only_staker_changed(before, after, i),
        crate::gov::states::unique_addresses(before),
    ensures
        crate::gov::states::unique_addresses(after),
{
    assert forall|j: int, k: int|
        0 <= j < after.len() && 0 <= k < after.len() && j != k implies (#[trigger] after[j]).address@ != (
    #[trigger] after[k]).address@ by {
        assert(after[j].address@ == before[j].address@);
        assert(after[k].address@ == before[k].address@);
    }
}

/// A withdrawal keeps the ledger consistent: the total share is still the
/// sum of the stakers' shares, and the new claim continues the queue.
pub proof fn lemma_withdraw_keeps_wf(before: Storage, after: Storage, i: int, withdraw_share: u128, claim: TokenClaim)
    requires
        before.wf(),
        spec_withdrawn(before, after, i, withdraw_share, claim),
        withdraw_share <= before.bank[i].manager.share,
        before.bank[i].manager.latest_claim_id < u64::MAX,
        before.state.total_unbondings + claim.amount <= u128::MAX,
    ensures
        after.wf(),
{
    assert(after.bank@ =~= before.bank@.update(i, after.bank@[i]));
    lemma_sum_shares_update(before.bank@, i, after.bank@[i]);
    lemma_sum_unbondings_update(before.bank@, i, after.bank@[i]);
    assert(after.bank@[i].claims@.drop_last() =~= before.bank@[i].claims@);
    lemma_share_within_sum(before.bank@, i);
    lemma_addresses_stay_unique(before.bank@, after.bank@, i);
    assert forall|j: int| 0 <= j < after.bank@.len() implies claims_in_order(#[trigger] after.bank@[j]) by {
        assert(claims_in_order(before.bank@[j]));
        if j == i {
            let old_claims = before.bank@[i].claims@;
            let new_claims = after.bank@[i].claims@;
            assert forall|k: int| 0 <= k < new_claims.len() implies (#[trigger] new_claims[k]).0
                == after.bank@[i].manager.latest_claim_id - new_claims.len() + k by {
                if k < old_claims.len() {
                    assert(new_claims[k] == old_claims[k]);
                }
            }
        }
    }
}

/// What [`withdraw_voting_tokens`] guarantees of its outcome `r` and of the
/// ledger `after` it, which was `before`.
pub open spec fn withdraw_voting_tokens_ensures(
    before: Storage,
    after: Storage,
    env: Env,
    info: MessageInfo,
    sender: String,
    amount: Option<u128>,
    queried_balance: u128,
    r: Result<Response, ContractError>,
) -> bool {
    &&& before.wf() ==> after.wf()
    &&& env.contract_address@ != info.sender@ ==> r == Err::<Response, ContractError>(ContractError::Unauthorized)
    &&& env.contract_address@ == info.sender@ && !has_staker(before.bank@, sender@) ==> r == Err::<
        Response,
        ContractError,
    >(ContractError::NothingStaked)
    &&& env.contract_address@ == info.sender@ && has_staker(before.bank@, sender@) ==> ({
        let i = staker_index(before.bank@, sender@);
        match spec_withdraw(
            before.state,
            before.bank[i].manager,
            spec_locked_balance(before.bank[i].manager.locked_balance@, before.polls@),
            queried_balance,
            env.block.time,
            before.config.unstaking_period,
            amount,
        ) {
            Err(e) => r == Err::<Response, ContractError>(e),
            Ok((withdraw_share, withdraw_amount)) => {
                &&& r is Ok
                &&& spec_withdrawn(
                    before,
                    after,
                    i,
                    withdraw_share,
                    TokenClaim {
                        time: (env.block.time + before.config.unstaking_period) as u64,
                        amount: withdraw_amount,
                    },
                )
                &&& r->Ok_0.messages@.len() == 0
                &&& r->Ok_0.attributes@.len() == 3
                &&& is_text(r->Ok_0.attributes@[0], "action"@, "withdraw"@)
                &&& is_number(r->Ok_0.attributes@[1], "amount"@, withdraw_amount)
                &&& is_number(r->Ok_0.attributes@[2], "claim_id"@, before.bank[i].manager.latest_claim_id as u128)
            },
        }
    })
    &&& r is Err ==> after.same_as(&before)
}

/// Queues a withdrawal for `sender` at the time of `env`. Only the ledger
/// itself may send this. `amount` is the number of tokens to withdraw;
/// without it, everything that no vote locks is withdrawn. The shares that
/// the withdrawal burns may not reach into the staker's locked shares, which
/// are those of the largest lock on a poll in progress, never of the sum of
/// the locks: else the request fails with `InvalidWithdrawAmount`. No token
/// moves: a claim is queued that matures `unstaking_period` seconds later.
pub fn withdraw_voting_tokens(
    storage: &mut Storage,
    env: &Env,
    info: &MessageInfo,
    sender: String,
    amount: Option<u128>,
    queried_balance: u128,
) -> (r: Result<Response, ContractError>)
    ensures
        withdraw_voting_tokens_ensures(
            *old(storage),
            *final(storage),
            *env,
            *info,
            sender,
            amount,
            queried_balance,
            r,
        ),
{
    if env.contract_address != info.sender {
        return Err(ContractError::Unauthorized);
    }
    let i: usize = match find_staker(&storage.bank, &sender) {
        Some(i) => i,
        None => { return Err(ContractError::NothingStaked); },
    };
    let ghost before = storage.bank@;
    let ghost share_before = storage.bank@[i as int].manager.share;
    let (claim_id, claim): (u64, TokenClaim) = match withdraw(
        &mut storage.state,
        &mut storage.bank[i].manager,
        &storage.polls,
        queried_balance,
        env.block.time,
        storage.config.unstaking_period,
        amount,
    ) {
        Ok(v) => v,
        Err(e) => {
            proof {
                assert(storage.bank@ =~= before);
            }
            return Err(e);
        },
    };
    storage.bank[i].claims.push((claim_id, claim));
    proof {
        if old(storage).wf() {
            lemma_withdraw_keeps_wf(
                *old(storage),
                *storage,
                i as int,
                (share_before - storage.bank@[i as int].manager.share) as u128,
                claim,
            );
        }
    }
    let mut response = Response::new();
    response.attributes.push(attr("action", "withdraw"));
    response.attributes.push(attr_number("amount", claim.amount));
    response.attributes.push(attr_number("claim_id", claim_id as u128));
    Ok(response)
}

/// Whether `response` asks for one transfer, of `amount` of `token` to
/// `recipient`, and describes it with the action, the recipient and the
/// amount.
pub open spec fn spec_sends(
    response: Response,
    token: Seq<char>,
    recipient: Seq<char>,
    amount: u128,
    action: Seq<char>,
) -> bool {
    &&& response.messages@.len() == 1
    &&& response.messages@[0] is Transfer
    &&& response.messages@[0]->Transfer_token@ == token
    &&& response.messages@[0]->Transfer_recipient@ == recipient
    &&& response.messages@[0]->Transfer_amount == amount
    &&& response.attributes@.len() == 3
    &&& is_text(response.attributes@[0], "action"@, action)
    &&& is_text(response.attributes@[1], "recipient"@, recipient)
    &&& is_number(response.attributes@[2], "amount"@, amount)
}

/// The outcome of a transfer of `amount` of `asset_token` to `recipient`:
/// the transfer for the host to make, and its description.
pub fn send_tokens(asset_token: &String, recipient: &String, amount: u128, action: &str) -> (r: Response)
    ensures
        spec_sends(r, asset_token@, recipient@, amount, action@),
{
    let mut response = Response::new();
    response.messages.push(Message::Transfer { token: asset_token.clone(), recipient: recipient.clone(), amount });
    response.attributes.push(attr("action", action));
    response.attributes.push(attr("recipient", recipient.as_str()));
    response.attributes.push(attr_number("amount", amount));
    response
}

/// Whether `after` is `before` with the first `count` claims of the staker
/// at `i` unlocked: they have left the queue, their sum `amount` has left
/// the total of the unbondings, and `last_unlocked_claim_id` stands at the
/// last of them.
pub open spec fn spec_unlocked(before: Storage, after: Storage, i: int, count: int, amount: u128) -> bool {
    &&& after.config == before.config
    &&& after.polls@ == before.polls@
    &&& after.airdrops@ == before.airdrops@
    &&& after.tmp_poll_id == before.tmp_poll_id
    &&& after.state == (State {
        total_unbondings: (before.state.total_unbondings - amount) as u128,
        ..before.state
    })
    &&& only_staker_changed(before.bank@, after.bank@, i)
    &&& after.bank[i].manager == (TokenManager {
        last_unlocked_claim_id: if count > 0 {
            before.bank[i].claims@[count - 1].0
        } else {
            before.bank[i].manager.last_unlocked_claim_id
        },
        ..before.bank[i].manager
    })
    &&& after.bank[i].claims@ == before.bank[i].claims@.skip(count)
    &&& after.bank[i].rewards@ == before.bank[i].rewards@
}

/// Unlocking keeps the ledger consistent: the claims that stay are still in
/// order, none of them lies below the new `last_unlocked_claim_id`, and that
/// id is not beyond `latest_claim_id`.
pub proof fn lemma_unlock_keeps_wf(before: Storage, after: Storage, i: int, count: int, amount: u128)
    requires
        before.wf(),
        spec_unlocked(before, after, i, count, amount),
        0 <= count <= before.bank[i].claims@.len(),
        amount == sum_claims(before.bank[i].claims@.take(count)),
        amount <= before.state.total_unbondings,
    ensures
        after.wf(),
        after.bank[i].manager.last_unlocked_claim_id >= before.bank[i].manager.last_unlocked_claim_id,
        after.bank[i].manager.last_unlocked_claim_id <= after.bank[i].manager.latest_claim_id,
{
    assert(after.bank@ =~= before.bank@.update(i, after.bank@[i]));
    lemma_sum_shares_update(before.bank@, i, after.bank@[i]);
    lemma_sum_unbondings_update(before.bank@, i, after.bank@[i]);
    lemma_sum_claims_split(before.bank@[i].claims@, count);
    lemma_addresses_stay_unique(before.bank@, after.bank@, i);
    assert(claims_in_order(before.bank@[i]));
    if count > 0 {
        assert(before.bank@[i].claims@[count - 1].0 == before.bank@[i].manager.latest_claim_id
            - before.bank@[i].claims@.len() + (count - 1));
    }
    assert forall|j: int| 0 <= j < after.bank@.len() implies claims_in_order(#[trigger] after.bank@[j]) by {
        assert(claims_in_order(before.bank@[j]));
        if j == i {
            let old_claims = before.bank@[i].claims@;
            let new_claims = after.bank@[i].claims@;
            assert forall|k: int| 0 <= k < new_claims.len() implies (#[trigger] new_claims[k]).0
                == after.bank@[i].manager.latest_claim_id - new_claims.len() + k by {
                assert(new_claims[k] == old_claims[k + count]);
            }
        }
    }
}

/// What [`unlock_voting_tokens`] guarantees of its outcome `r` and of the ledger
/// `after` it, which was `before`.
pub open spec fn unlock_voting_tokens_ensures(
    before: Storage,
    after: Storage,
    env: Env,
    info: MessageInfo,
    target: Option<String>,
    r: Result<Response, ContractError>,
) -> bool {
    &&& before.wf() ==> after.wf()
    &&& ({
        let sender = match target {
            Some(t) => t,
            None => info.sender,
        };
        if !has_staker(before.bank@, sender@) {
            r == Err::<Response, ContractError>(ContractError::Unauthorized)
        } else {
            let i = staker_index(before.bank@, sender@);
            let count = matured_run(before.bank[i].claims@, env.block.time, MAX_QUERY_LIMIT as nat) as int;
            match spec_unlock(
                before.state,
                before.bank[i].manager,
                before.bank[i].claims@,
                env.block.time,
            ) {
                Err(e) => r == Err::<Response, ContractError>(e),
                Ok(amount) => {
                    &&& r is Ok
                    &&& amount == sum_claims(before.bank[i].claims@.take(count))
                    &&& spec_unlocked(before, after, i, count, amount)
                    &&& count == 0 ==> amount == 0 && after.same_as(&before)
                    &&& spec_sends(r->Ok_0, before.config.pylon_token@, sender@, amount, "unlock"@)
                },
            }
        }
    })
    &&& r is Err ==> after.same_as(&before)
}

/// Unlocks the matured claims of `target`, or of the sender where no target
/// is named, at the time of `env`, and asks the host to transfer their sum.
/// Claims are unlocked in the order of their ids and only as far as they
/// have matured without a gap: the first claim that has not matured stops
/// the run, whatever comes after it, and so does the 100th claim. Where no
/// claim has matured, the ledger stays as it is and the transfer is of zero
/// tokens. A staker who never asked for a withdrawal is refused.
pub fn unlock_voting_tokens(storage: &mut Storage, env: &Env, info: &MessageInfo, target: Option<String>) -> (r: Result<
    Response,
    ContractError,
>)
    ensures
        unlock_voting_tokens_ensures(*old(storage), *final(storage), *env, *info, target, r),
{
    let sender: String = match target {
        Some(t) => t,
        None => info.sender.clone(),
    };
    let i: usize = match find_staker(&storage.bank, &sender) {
        Some(i) => i,
        None => { return Err(ContractError::Unauthorized); },
    };
    let ghost before = storage.bank@;
    let staker = &mut storage.bank[i];
    let amount: u128 = match unlock(&mut storage.state, &mut staker.manager, &mut staker.claims, env.block.time) {
        Ok(v) => v,
        Err(e) => {
            proof {
                assert(storage.bank@ =~= before);
            }
            return Err(e);
        },
    };
    proof {
        let count = matured_run(before[i as int].claims@, env.block.time, MAX_QUERY_LIMIT as nat) as int;
        crate::gov::staking::lemma_matured_run_is_fifo(before[i as int].claims@, env.block.time, MAX_QUERY_LIMIT as nat);
        if count == 0 {
            assert(storage.bank@ =~= before);
        }
        if old(storage).wf() {
            lemma_unlock_keeps_wf(*old(storage), *storage, i as int, count, amount);
        }
    }
    Ok(send_tokens(&storage.config.pylon_token, &sender, amount, "unlock"))
}

} // verus!
