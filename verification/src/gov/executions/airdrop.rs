//! Airdrops on the ledger.

use crate::common::attr;
use crate::common::attr_number;
use crate::error::ContractError;
use crate::gov::airdrop::credit;
use crate::gov::airdrop::spec_credit;
use crate::gov::airdrop::spec_instantiate;
use crate::gov::airdrop::spec_updated;
use crate::gov::airdrop::updated;
use crate::gov::executions::staking::lemma_addresses_stay_unique;
use crate::gov::executions::staking::only_staker_changed;
use crate::gov::executions::staking::send_tokens;
use crate::gov::executions::staking::spec_sends;
use crate::gov::executions::staking::spec_share_of;
use crate::gov::msg::AirdropMsg;
use crate::gov::msg::Env;
use crate::gov::msg::ExecuteMsg;
use crate::gov::msg::Message;
use crate::gov::msg::MessageInfo;
use crate::gov::msg::Response;
use crate::gov::states::Airdrop;
use crate::gov::states::AirdropConfig;
use crate::gov::states::AirdropState;
use crate::gov::states::Reward;
use crate::gov::states::Staker;
use crate::gov::states::Storage;
use crate::gov::states::claims_in_order;
use crate::gov::states::find_staker;
use crate::gov::states::has_staker;
use crate::gov::states::lemma_sum_shares_update;
use crate::gov::states::lemma_sum_unbondings_update;
use crate::gov::states::load_reward;
use crate::gov::states::reward_of;
use crate::gov::states::save_reward;
use crate::gov::states::staker_index;
use crate::gov::states::staker_slot;
use crate::math::Decimal;

use crate::common::is_number;
use crate::common::is_text;
use vstd::prelude::*;

verus! {

/// What the staker with the address has earned from the airdrop.
pub open spec fn spec_reward_of(bank: Seq<Staker>, address: Seq<char>, airdrop_id: u64) -> Reward {
    if has_staker(bank, address) {
        reward_of(bank[staker_index(bank, address)].rewards@, airdrop_id)
    } else {
        Reward { reward: 0, reward_per_token_paid: Decimal { atomics: 0 } }
    }
}

/// A change of one staker's rewards keeps the ledger consistent.
pub proof fn lemma_reward_change_keeps_wf(before: Storage, after: Storage, i: int)
    requires
        before.wf(),
        only_staker_changed(before.bank@, after.bank@, i),
        after.bank[i].manager == before.bank[i].manager,
        after.bank[i].claims@ == before.bank[i].claims@,
        after.state.total_share == before.state.total_share,
        after.state.total_deposit == before.state.total_deposit,
        after.state.total_unbondings == before.state.total_unbondings,
        after.state.poll_count == before.state.poll_count,
        after.state.total_airdrop_count == before.state.total_airdrop_count,
        after.polls@ == before.polls@,
        after.airdrops@.len() == before.airdrops@.len(),
    ensures
        after.wf(),
{
    assert(after.bank@ =~= before.bank@.update(i, after.bank@[i]));
    lemma_sum_shares_update(before.bank@, i, after.bank@[i]);
    lemma_sum_unbondings_update(before.bank@, i, after.bank@[i]);
    lemma_addresses_stay_unique(before.bank@, after.bank@, i);
    assert forall|j: int| 0 <= j < after.bank@.len() implies claims_in_order(#[trigger] after.bank@[j]) by {
        assert(claims_in_order(before.bank@[j]));
    }
}

/// What [`instantiate`] guarantees of its outcome `r` and of the ledger `after`
/// it, which was `before`.
pub open spec fn instantiate_ensures(
    before: Storage,
    after: Storage,
    env: Env,
    info: MessageInfo,
    start: u64,
    period: u64,
    reward_token: String,
    reward_amount: u128,
    r: Result<Response, ContractError>,
) -> bool {
    &&& before.wf() ==> after.wf()
    &&& before.config.owner@ != info.sender@ ==> r == Err::<Response, ContractError>(ContractError::Unauthorized)
    &&& before.config.owner@ == info.sender@ ==> match spec_instantiate(
        before.state,
        period,
        reward_amount,
    ) {
        Err(e) => r == Err::<Response, ContractError>(e),
        Ok(rate) => {
            &&& r is Ok
            &&& r->Ok_0.messages@.len() == 0
            &&& r->Ok_0.attributes@.len() == 4
            &&& is_text(r->Ok_0.attributes@[0], "action"@, "airdrop_instantiate"@)
            &&& is_text(r->Ok_0.attributes@[1], "reward_token"@, reward_token@)
            &&& is_number(r->Ok_0.attributes@[2], "airdrop_id"@, before.state.total_airdrop_count as u128)
            &&& is_number(r->Ok_0.attributes@[3], "reward_amount"@, reward_amount)
            &&& after.airdrops@ == before.airdrops@.push(
                Airdrop {
                    config: AirdropConfig { start, period, reward_token, reward_rate: rate },
                    state: AirdropState { last_update_time: start, reward_per_token_stored: Decimal { atomics: 0 } },
                },
            )
            &&& after.state.total_airdrop_count == before.state.total_airdrop_count + 1
            &&& after.state.airdrop_update_candidates@ == before.state.airdrop_update_candidates@.push(before.state.total_airdrop_count)
            &&& after.state.poll_count == before.state.poll_count
            &&& after.state.total_share == before.state.total_share
            &&& after.state.total_deposit == before.state.total_deposit
            &&& after.state.total_unbondings == before.state.total_unbondings
            &&& after.config == before.config
            &&& after.bank@ == before.bank@
            &&& after.polls@ == before.polls@
            &&& after.tmp_poll_id == before.tmp_poll_id
        },
    }
    &&& r is Err ==> after.same_as(&before)
}

/// Creates an airdrop of `reward_amount` of `reward_token`, paid evenly over
/// `period` seconds from `start`. Only the owner may do this. The airdrop
/// gets the id `total_airdrop_count`, which then goes up by one.
pub fn instantiate(
    storage: &mut Storage,
    env: &Env,
    info: &MessageInfo,
    start: u64,
    period: u64,
    reward_token: String,
    reward_amount: u128,
) -> (r: Result<Response, ContractError>)
    ensures
        instantiate_ensures(
            *old(storage),
            *final(storage),
            *env,
            *info,
            start,
            period,
            reward_token,
            reward_amount,
            r,
        ),
{
    if storage.config.owner != info.sender {
        return Err(ContractError::Unauthorized);
    }
    let mut response = Response::new();
    response.attributes.push(attr("action", "airdrop_instantiate"));
    response.attributes.push(attr("reward_token", reward_token.as_str()));
    let airdrop_id: u64 = storage.state.total_airdrop_count;
    let airdrop: Airdrop = match crate::gov::airdrop::instantiate(
        &mut storage.state,
        start,
        period,
        reward_token,
        reward_amount,
    ) {
        Ok(v) => v,
        Err(e) => { return Err(e); },
    };
    storage.airdrops.push(airdrop);
    response.attributes.push(attr_number("airdrop_id", airdrop_id as u128));
    response.attributes.push(attr_number("reward_amount", reward_amount));
    Ok(response)
}

/// Whether the stakers `after` are the stakers `before` but for the rewards
/// of the staker with the address: every other staker is as and where it
/// was, and that staker's account and claims are what they were. A staker
/// without a record has got one, the last, which holds nothing else.
pub open spec fn spec_only_rewards_changed(before: Seq<Staker>, after: Seq<Staker>, address: Seq<char>) -> bool {
    if has_staker(before, address) {
        let i = staker_index(before, address);
        &&& only_staker_changed(before, after, i)
        &&& after[i].manager == before[i].manager
        &&& after[i].claims@ == before[i].claims@
    } else {
        &&& after.len() == before.len() + 1
        &&& after.drop_last() == before
        &&& after.last().address@ == address
        &&& after.last().manager.share == 0
        &&& after.last().manager.latest_claim_id == 0
        &&& after.last().manager.last_unlocked_claim_id == 0
        &&& after.last().manager.locked_balance@.len() == 0
        &&& after.last().claims@.len() == 0
    }
}

/// Whether `after` is `before` but for what the staker with the address
/// `recipient` has earned from the airdrop, which is `reward` now.
pub open spec fn spec_reward_set(
    before: Storage,
    after: Storage,
    recipient: Seq<char>,
    airdrop_id: u64,
    reward: Reward,
) -> bool {
    &&& after.config == before.config
    &&& after.state == before.state
    &&& after.polls@ == before.polls@
    &&& after.airdrops@ == before.airdrops@
    &&& after.tmp_poll_id == before.tmp_poll_id
    &&& spec_only_rewards_changed(before.bank@, after.bank@, recipient)
    &&& has_staker(after.bank@, recipient)
    &&& spec_reward_of(after.bank@, recipient, airdrop_id) == reward
    &&& forall|other: u64|
        other != airdrop_id ==> #[trigger] spec_reward_of(after.bank@, recipient, other) == spec_reward_of(
            before.bank@,
            recipient,
            other,
        )
    &&& spec_share_of(after.bank@, recipient) == spec_share_of(before.bank@, recipient)
    &&& forall|j: int|
        0 <= j < before.bank@.len() && before.bank@[j].address@ != recipient ==> #[trigger] after.bank@[j]
            == before.bank@[j]
}

/// Writing one reward of the staker at `i`, found or opened for the
/// address, sets that reward and nothing else.
proof fn lemma_reward_set(
    before: Storage,
    middle: Storage,
    after: Storage,
    recipient: Seq<char>,
    i: int,
    airdrop_id: u64,
    reward: Reward,
)
    requires
        middle.config == before.config,
        middle.state == before.state,
        middle.polls@ == before.polls@,
        middle.airdrops@ == before.airdrops@,
        middle.tmp_poll_id == before.tmp_poll_id,
        0 <= i < middle.bank.len(),
        middle.bank[i].address@ == recipient,
        forall|j: int| 0 <= j < i ==> (#[trigger] middle.bank[j]).address@ != recipient,
        has_staker(before.bank@, recipient) ==> middle.bank@ == before.bank@ && i == staker_index(
            before.bank@,
            recipient,
        ),
        !has_staker(before.bank@, recipient) ==> {
            &&& i == before.bank.len()
            &&& middle.bank@.len() == before.bank@.len() + 1
            &&& middle.bank@.drop_last() == before.bank@
            &&& middle.bank[i].manager.share == 0
            &&& middle.bank[i].manager.latest_claim_id == 0
            &&& middle.bank[i].manager.last_unlocked_claim_id == 0
            &&& middle.bank[i].manager.locked_balance@.len() == 0
            &&& middle.bank[i].claims@.len() == 0
            &&& middle.bank[i].rewards@.len() == 0
        },
        after.config == middle.config,
        after.state == middle.state,
        after.polls@ == middle.polls@,
        after.airdrops@ == middle.airdrops@,
        after.tmp_poll_id == middle.tmp_poll_id,
        only_staker_changed(middle.bank@, after.bank@, i),
        after.bank[i].manager == middle.bank[i].manager,
        after.bank[i].claims@ == middle.bank[i].claims@,
        reward_of(after.bank[i].rewards@, airdrop_id) == reward,
        forall|other: u64|
            other != airdrop_id ==> #[trigger] reward_of(after.bank[i].rewards@, other) == reward_of(
                middle.bank[i].rewards@,
                other,
            ),
    ensures
        spec_reward_set(before, after, recipient, airdrop_id, reward),
{
    assert forall|j: int| 0 <= j < i implies (#[trigger] after.bank@[j]).address@ != recipient by {
        assert(after.bank@[j] == middle.bank@[j]);
    }
    crate::gov::states::lemma_first_staker(after.bank@, recipient, i);
    if !has_staker(before.bank@, recipient) {
        assert forall|j: int| 0 <= j < before.bank@.len() implies after.bank@.drop_last()[j] == before.bank@[j] by {
            assert(middle.bank@.drop_last()[j] == middle.bank@[j]);
            assert(after.bank@[j] == middle.bank@[j]);
        }
        assert(after.bank@.drop_last() =~= before.bank@);
    }
    assert forall|j: int|
        0 <= j < before.bank@.len() && before.bank@[j].address@ != recipient implies #[trigger] after.bank@[j]
        == before.bank@[j] by {
        if !has_staker(before.bank@, recipient) {
            assert(middle.bank@.drop_last()[j] == middle.bank@[j]);
        }
        assert(after.bank@[j] == middle.bank@[j]);
    }
    assert forall|other: u64| other != airdrop_id implies #[trigger] spec_reward_of(after.bank@, recipient, other)
        == spec_reward_of(before.bank@, recipient, other) by {
        assert(reward_of(after.bank[i].rewards@, other) == reward_of(middle.bank[i].rewards@, other));
    }
}

/// Writes `reward` as what `recipient` has earned from the airdrop.
fn set_reward(storage: &mut Storage, recipient: &String, airdrop_id: u64, reward: Reward)
    requires
        airdrop_id < old(storage).airdrops.len(),
    ensures
        old(storage).wf() ==> final(storage).wf(),
        spec_reward_set(*old(storage), *final(storage), recipient@, airdrop_id, reward),
{
    let i: usize = staker_slot(storage, recipient);
    let ghost middle = *storage;
    save_reward(&mut storage.bank[i].rewards, airdrop_id as usize, reward);
    proof {
        assert(only_staker_changed(middle.bank@, storage.bank@, i as int));
        if old(storage).wf() {
            lemma_reward_change_keeps_wf(middle, *storage, i as int);
        }
        lemma_reward_set(*old(storage), middle, *storage, recipient@, i as int, airdrop_id, reward);
    }
}

/// What [`allocate`] guarantees of its outcome `r` and of the ledger `after` it,
/// which was `before`.
pub open spec fn allocate_ensures(
    before: Storage,
    after: Storage,
    env: Env,
    info: MessageInfo,
    airdrop_id: u64,
    recipient: String,
    allocate_amount: u128,
    r: Result<Response, ContractError>,
) -> bool {
    &&& before.wf() ==> after.wf()
    &&& r == Err::<Response, ContractError>(ContractError::Unauthorized) <==> before.config.owner@
        != info.sender@
    &&& before.config.owner@ == info.sender@ ==> (r == Err::<Response, ContractError>(
        ContractError::AirdropNotFound,
    ) <==> airdrop_id >= before.airdrops.len())
    &&& before.config.owner@ == info.sender@ && airdrop_id < before.airdrops.len() ==> ({
        let earlier = spec_reward_of(before.bank@, recipient@, airdrop_id);
        if earlier.reward + allocate_amount > u128::MAX {
            r == Err::<Response, ContractError>(ContractError::Overflow)
        } else {
            &&& r is Ok
            &&& spec_reward_set(
                before,
                after,
                recipient@,
                airdrop_id,
                Reward { reward: (earlier.reward + allocate_amount) as u128, ..earlier },
            )
            &&& r->Ok_0.messages@.len() == 0
            &&& r->Ok_0.attributes@.len() == 4
            &&& is_text(r->Ok_0.attributes@[0], "action"@, "airdrop_allocate"@)
            &&& is_number(r->Ok_0.attributes@[1], "airdrop_id"@, airdrop_id as u128)
            &&& is_text(r->Ok_0.attributes@[2], "recipient"@, recipient@)
            &&& is_number(r->Ok_0.attributes@[3], "amount"@, allocate_amount)
        }
    })
    &&& r is Err ==> after.same_as(&before)
}

/// Adds `allocate_amount` to what `recipient` may claim from the airdrop.
/// Only the owner may do this.
pub fn allocate(
    storage: &mut Storage,
    env: &Env,
    info: &MessageInfo,
    airdrop_id: u64,
    recipient: String,
    allocate_amount: u128,
) -> (r: Result<Response, ContractError>)
    ensures
        allocate_ensures(
            *old(storage),
            *final(storage),
            *env,
            *info,
            airdrop_id,
            recipient,
            allocate_amount,
            r,
        ),
{
    if storage.config.owner != info.sender {
        return Err(ContractError::Unauthorized);
    }
    if airdrop_id >= storage.airdrops.len() as u64 {
        return Err(ContractError::AirdropNotFound);
    }
    let mut reward: Reward = match find_staker(&storage.bank, &recipient) {
        Some(i) => load_reward(&storage.bank[i].rewards, airdrop_id),
        None => Reward::new(),
    };
    match crate::gov::airdrop::allocate(&mut reward, allocate_amount) {
        Ok(_) => {},
        Err(e) => { return Err(e); },
    }
    set_reward(storage, &recipient, airdrop_id, reward);
    let mut response = Response::new();
    response.attributes.push(attr("action", "airdrop_allocate"));
    response.attributes.push(attr_number("airdrop_id", airdrop_id as u128));
    response.attributes.push(attr("recipient", recipient.as_str()));
    response.attributes.push(attr_number("amount", allocate_amount));
    Ok(response)
}

/// What [`deallocate`] guarantees of its outcome `r` and of the ledger `after`
/// it, which was `before`.
pub open spec fn deallocate_ensures(
    before: Storage,
    after: Storage,
    env: Env,
    info: MessageInfo,
    airdrop_id: u64,
    recipient: String,
    deallocate_amount: u128,
    r: Result<Response, ContractError>,
) -> bool {
    &&& before.wf() ==> after.wf()
    &&& r == Err::<Response, ContractError>(ContractError::Unauthorized) <==> before.config.owner@
        != info.sender@
    &&& before.config.owner@ == info.sender@ ==> (r == Err::<Response, ContractError>(
        ContractError::AirdropNotFound,
    ) <==> airdrop_id >= before.airdrops.len())
    &&& before.config.owner@ == info.sender@ && airdrop_id < before.airdrops.len() ==> ({
        let earlier = spec_reward_of(before.bank@, recipient@, airdrop_id);
        if earlier.reward < deallocate_amount {
            r == Err::<Response, ContractError>(ContractError::Underflow)
        } else {
            &&& r is Ok
            &&& spec_reward_set(
                before,
                after,
                recipient@,
                airdrop_id,
                Reward { reward: (earlier.reward - deallocate_amount) as u128, ..earlier },
            )
            &&& r->Ok_0.messages@.len() == 0
            &&& r->Ok_0.attributes@.len() == 4
            &&& is_text(r->Ok_0.attributes@[0], "action"@, "airdrop_deallocate"@)
            &&& is_number(r->Ok_0.attributes@[1], "airdrop_id"@, airdrop_id as u128)
            &&& is_text(r->Ok_0.attributes@[2], "recipient"@, recipient@)
            &&& is_number(r->Ok_0.attributes@[3], "amount"@, deallocate_amount)
        }
    })
    &&& r is Err ==> after.same_as(&before)
}

/// Takes `deallocate_amount` from what `recipient` may claim from the
/// airdrop. Only the owner may do this.
pub fn deallocate(
    storage: &mut Storage,
    env: &Env,
    info: &MessageInfo,
    airdrop_id: u64,
    recipient: String,
    deallocate_amount: u128,
) -> (r: Result<Response, ContractError>)
    ensures
        deallocate_ensures(
            *old(storage),
            *final(storage),
            *env,
            *info,
            airdrop_id,
            recipient,
            deallocate_amount,
            r,
        ),
{
    if storage.config.owner != info.sender {
        return Err(ContractError::Unauthorized);
    }
    if airdrop_id >= storage.airdrops.len() as u64 {
        return Err(ContractError::AirdropNotFound);
    }
    let mut reward: Reward = match find_staker(&storage.bank, &recipient) {
        Some(i) => load_reward(&storage.bank[i].rewards, airdrop_id),
        None => Reward::new(),
    };
    match crate::gov::airdrop::deallocate(&mut reward, deallocate_amount) {
        Ok(_) => {},
        Err(e) => { return Err(e); },
    }
    set_reward(storage, &recipient, airdrop_id, reward);
    let mut response = Response::new();
    response.attributes.push(attr("action", "airdrop_deallocate"));
    response.attributes.push(attr_number("airdrop_id", airdrop_id as u128));
    response.attributes.push(attr("recipient", recipient.as_str()));
    response.attributes.push(attr_number("amount", deallocate_amount));
    Ok(response)
}

/// What [`claim_internal`] guarantees of its outcome `r` and of the ledger
/// `after` it, which was `before`.
pub open spec fn claim_internal_ensures(
    before: Storage,
    after: Storage,
    env: Env,
    info: MessageInfo,
    sender: String,
    airdrop_id: u64,
    r: Result<Response, ContractError>,
) -> bool {
    &&& before.wf() ==> after.wf()
    &&& r == Err::<Response, ContractError>(ContractError::Unauthorized) <==> env.contract_address@ != info.sender@
    &&& env.contract_address@ == info.sender@ ==> (r == Err::<Response, ContractError>(
        ContractError::AirdropNotFound,
    ) <==> airdrop_id >= before.airdrops.len())
    &&& env.contract_address@ == info.sender@ && airdrop_id < before.airdrops.len() ==> ({
        let earlier = spec_reward_of(before.bank@, sender@, airdrop_id);
        &&& r is Ok
        &&& spec_reward_set(before, after, sender@, airdrop_id, Reward { reward: 0, ..earlier })
        &&& spec_sends(
            r->Ok_0,
            before.airdrops[airdrop_id as int].config.reward_token@,
            sender@,
            earlier.reward,
            "airdrop_claim"@,
        )
    })
    &&& r is Err ==> after.same_as(&before)
}

/// Pays out to `sender` what the staker may claim from the airdrop: the
/// record goes to zero, and the host is asked to transfer the amount in the
/// airdrop's reward token. Only the ledger itself may send this.
pub fn claim_internal(
    storage: &mut Storage,
    env: &Env,
    info: &MessageInfo,
    sender: String,
    airdrop_id: u64,
) -> (r: Result<Response, ContractError>)
    ensures
        claim_internal_ensures(*old(storage), *final(storage), *env, *info, sender, airdrop_id, r),
{
    if env.contract_address != info.sender {
        return Err(ContractError::Unauthorized);
    }
    if airdrop_id >= storage.airdrops.len() as u64 {
        return Err(ContractError::AirdropNotFound);
    }
    let mut reward: Reward = match find_staker(&storage.bank, &sender) {
        Some(i) => load_reward(&storage.bank[i].rewards, airdrop_id),
        None => Reward::new(),
    };
    let amount: u128 = crate::gov::airdrop::claim(&mut reward);
    set_reward(storage, &sender, airdrop_id, reward);
    Ok(send_tokens(&storage.airdrops[airdrop_id as usize].config.reward_token, &sender, amount, "airdrop_claim"))
}

/// Whether `candidates` holds `id`.
pub fn contains(candidates: &Vec<u64>, id: u64) -> (r: bool)
    ensures
        r == candidates@.contains(id),
{
    let mut k: usize = 0;
    while k < candidates.len()
        invariant
            k <= candidates.len(),
            forall|j: int| 0 <= j < k ==> candidates@[j] != id,
        decreases candidates.len() - k,
    {
        if candidates[k] == id {
            return true;
        }
        k += 1;
    }
    false
}

/// The state of the airdrop `a` after an update at `now`: brought up to
/// `now` if the airdrop is on the list of those to keep up to date.
pub open spec fn spec_state_after_update(storage: Storage, a: int, now: u64) -> Result<AirdropState, ContractError> {
    if storage.state.airdrop_update_candidates@.contains(a as u64) {
        spec_updated(storage.airdrops[a], storage.state.total_share, now)
    } else {
        Ok(storage.airdrops[a].state)
    }
}

/// What the staker with the address has earned from the airdrop `a` after
/// an update at `now` that names the staker: the earlier record, credited up
/// to the airdrop's new state if the airdrop is on the list.
pub open spec fn spec_reward_after_update(storage: Storage, address: Seq<char>, a: int, now: u64) -> Result<
    Reward,
    ContractError,
> {
    let earlier = spec_reward_of(storage.bank@, address, a as u64);
    if storage.state.airdrop_update_candidates@.contains(a as u64) {
        match spec_state_after_update(storage, a, now) {
            Err(e) => Err(e),
            Ok(state) => spec_credit(earlier, state.reward_per_token_stored, spec_share_of(storage.bank@, address)),
        }
    } else {
        Ok(earlier)
    }
}

/// Whether an update at `now`, for `target` if one is named, can be made:
/// no airdrop's accrual and no credit to the target fails.
pub open spec fn spec_update_succeeds(storage: Storage, target: Option<String>, now: u64) -> bool {
    &&& forall|a: int| 0 <= a < storage.airdrops.len() ==> (#[trigger] spec_state_after_update(storage, a, now)) is Ok
    &&& target is Some ==> forall|a: int|
        0 <= a < storage.airdrops.len() ==> (#[trigger] spec_reward_after_update(
            storage,
            target->Some_0@,
            a,
            now,
        )) is Ok
}

/// The first failure of an accrual among the airdrops from `from` on, in
/// the order of their ids.
pub open spec fn spec_accrual_failure(storage: Storage, now: u64, from: int) -> Option<ContractError>
    decreases storage.airdrops.len() - from,
{
    if from < 0 || from >= storage.airdrops.len() {
        None
    } else {
        match spec_state_after_update(storage, from, now) {
            Err(e) => Some(e),
            Ok(_) => spec_accrual_failure(storage, now, from + 1),
        }
    }
}

/// The first failure of a credit to the staker with the address among the
/// airdrops from `from` on, in the order of their ids.
pub open spec fn spec_credit_failure(storage: Storage, address: Seq<char>, now: u64, from: int) -> Option<ContractError>
    decreases storage.airdrops.len() - from,
{
    if from < 0 || from >= storage.airdrops.len() {
        None
    } else {
        match spec_reward_after_update(storage, address, from, now) {
            Err(e) => Some(e),
            Ok(_) => spec_credit_failure(storage, address, now, from + 1),
        }
    }
}

/// Why an update at `now` fails, if it does: for the first accrual that
/// fails, or else for the first credit to the target that fails.
pub open spec fn spec_update_failure(storage: Storage, target: Option<String>, now: u64) -> Option<ContractError> {
    match spec_accrual_failure(storage, now, 0) {
        Some(e) => Some(e),
        None => match target {
            None => None,
            Some(t) => spec_credit_failure(storage, t@, now, 0),
        },
    }
}

/// Whether `after` is `before` after an update at `now`, for `target` if
/// one is named.
pub open spec fn spec_update_applied(before: Storage, after: Storage, target: Option<String>, now: u64) -> bool {
    &&& after.config == before.config
    &&& after.state == before.state
    &&& after.polls@ == before.polls@
    &&& after.tmp_poll_id == before.tmp_poll_id
    &&& after.airdrops.len() == before.airdrops.len()
    &&& forall|a: int|
        0 <= a < before.airdrops.len() ==> (#[trigger] after.airdrops[a]).config == before.airdrops[a].config
            && after.airdrops[a].state == spec_state_after_update(before, a, now)->Ok_0
    &&& match target {
        None => after.bank@ == before.bank@,
        Some(t) => {
            &&& spec_only_rewards_changed(before.bank@, after.bank@, t@)
            &&& has_staker(after.bank@, t@)
            &&& spec_share_of(after.bank@, t@) == spec_share_of(before.bank@, t@)
            &&& forall|j: int|
                0 <= j < before.bank@.len() && before.bank@[j].address@ != t@ ==> #[trigger] after.bank@[j]
                    == before.bank@[j]
            &&& forall|id: u64|
                #[trigger] spec_reward_of(after.bank@, t@, id) == (if id < before.airdrops.len() {
                    spec_reward_after_update(before, t@, id as int, now)->Ok_0
                } else {
                    spec_reward_of(before.bank@, t@, id)
                })
        },
    }
}

/// What [`update`] guarantees of its outcome `r` and of the ledger `after` it,
/// which was `before`.
pub open spec fn update_ensures(
    before: Storage,
    after: Storage,
    env: Env,
    info: MessageInfo,
    target: Option<String>,
    r: Result<Response, ContractError>,
) -> bool {
    &&& before.wf() ==> after.wf()
    &&& r is Ok <==> spec_update_succeeds(before, target, env.block.time)
    &&& r is Err ==> spec_update_failure(before, target, env.block.time) == Some(r->Err_0)
    &&& r is Ok ==> {
        &&& spec_update_applied(before, after, target, env.block.time)
        &&& r->Ok_0.messages@.len() == 0
        &&& r->Ok_0.attributes@.len() == 1
        &&& is_text(r->Ok_0.attributes@[0], "action"@, "airdrop_update"@)
    }
    &&& r is Err ==> after.same_as(&before)
}

/// Brings every airdrop on the list of those to keep up to date up to the
/// time of `env`, and, where `target` is named, credits to that staker what
/// the staker's shares have earned from each of them. This has to run before
/// the shares of the staker change, so that what was earned is credited at
/// the old share. Where any accrual or credit fails, nothing changes.
pub fn update(storage: &mut Storage, env: &Env, info: &MessageInfo, target: Option<String>) -> (r: Result<
    Response,
    ContractError,
>)
    ensures
        update_ensures(*old(storage), *final(storage), *env, *info, target, r),
{
    let now: u64 = env.block.time;
    let count: usize = storage.airdrops.len();
    let mut states: Vec<AirdropState> = Vec::new();
    let mut a: usize = 0;
    while a < count
        invariant
            *storage == *old(storage),
            now == env.block.time,
            count == storage.airdrops.len(),
            a <= count,
            states.len() == a,
            spec_accrual_failure(*storage, now, 0) == spec_accrual_failure(*storage, now, a as int),
            forall|k: int|
                #![trigger states[k]]
                #![trigger spec_state_after_update(*storage, k, now)]
                0 <= k < a ==> spec_state_after_update(*storage, k, now) == Ok::<AirdropState, ContractError>(
                    states[k],
                ),
        decreases count - a,
    {
        let state: AirdropState = if contains(&storage.state.airdrop_update_candidates, a as u64) {
            match updated(&storage.airdrops[a], storage.state.total_share, now) {
                Ok(v) => v,
                Err(e) => {
                    proof {
                        assert(spec_state_after_update(*storage, a as int, now) is Err);
                    }
                    return Err(e);
                },
            }
        } else {
            storage.airdrops[a].state
        };
        states.push(state);
        a += 1;
    }
    let mut rewards: Vec<Reward> = Vec::new();
    match &target {
        None => {},
        Some(t) => {
            let found: Option<usize> = find_staker(&storage.bank, t);
            let share: u128 = match found {
                Some(i) => storage.bank[i].manager.share,
                None => 0,
            };
            let mut a: usize = 0;
            while a < count
                invariant
                    *storage == *old(storage),
                    now == env.block.time,
                    target == Some(*t),
                    count == storage.airdrops.len(),
                    a <= count,
                    rewards.len() == a,
                    spec_accrual_failure(*storage, now, 0) is None,
                    spec_credit_failure(*storage, t@, now, 0) == spec_credit_failure(*storage, t@, now, a as int),
                    states.len() == count,
                    share == spec_share_of(storage.bank@, t@),
                    found is Some == has_staker(storage.bank@, t@),
                    found is Some ==> found->Some_0 == staker_index(storage.bank@, t@) && found->Some_0
                        < storage.bank.len(),
                    forall|k: int|
                        #![trigger states[k]]
                        #![trigger spec_state_after_update(*storage, k, now)]
                        0 <= k < count ==> spec_state_after_update(*storage, k, now) == Ok::<
                            AirdropState,
                            ContractError,
                        >(states[k]),
                    forall|k: int|
                        #![trigger rewards[k]]
                        #![trigger spec_reward_after_update(*storage, t@, k, now)]
                        0 <= k < a ==> spec_reward_after_update(*storage, t@, k, now) == Ok::<Reward, ContractError>(
                            rewards[k],
                        ),
                decreases count - a,
            {
                let earlier: Reward = match found {
                    Some(i) => load_reward(&storage.bank[i].rewards, a as u64),
                    None => Reward::new(),
                };
                let reward: Reward = if contains(&storage.state.airdrop_update_candidates, a as u64) {
                    match credit(earlier, states[a].reward_per_token_stored, share) {
                        Ok(v) => v,
                        Err(e) => {
                            proof {
                                assert(spec_state_after_update(*storage, a as int, now) == Ok::<
                                    AirdropState,
                                    ContractError,
                                >(states[a as int]));
                                assert(spec_reward_after_update(*storage, t@, a as int, now) is Err);
                            }
                            return Err(e);
                        },
                    }
                } else {
                    earlier
                };
                proof {
                    assert(spec_state_after_update(*storage, a as int, now) == Ok::<AirdropState, ContractError>(
                        states[a as int],
                    ));
                }
                rewards.push(reward);
                a += 1;
            }
        },
    }
    proof {
        assert(spec_update_succeeds(*old(storage), target, now));
    }
    let mut a: usize = 0;
    while a < count
        invariant
            count == storage.airdrops.len(),
            count == old(storage).airdrops.len(),
            a <= count,
            states.len() == count,
            forall|k: int|
                #![trigger states[k]]
                #![trigger spec_state_after_update(*old(storage), k, now)]
                0 <= k < count ==> spec_state_after_update(*old(storage), k, now) == Ok::<
                    AirdropState,
                    ContractError,
                >(states[k]),
            storage.config == old(storage).config,
            storage.state == old(storage).state,
            storage.bank == old(storage).bank,
            storage.polls == old(storage).polls,
            storage.tmp_poll_id == old(storage).tmp_poll_id,
            forall|k: int| 0 <= k < count ==> (#[trigger] storage.airdrops[k]).config == old(storage).airdrops[k].config,
            forall|k: int| 0 <= k < a ==> (#[trigger] storage.airdrops[k]).state == states[k],
            forall|k: int| a <= k < count ==> #[trigger] storage.airdrops[k] == old(storage).airdrops[k],
        decreases count - a,
    {
        storage.airdrops[a].state = states[a];
        a += 1;
    }
    let ghost middle = *storage;
    proof {
        assert forall|k: int| 0 <= k < count implies (#[trigger] middle.airdrops[k]).config == old(
            storage,
        ).airdrops[k].config && middle.airdrops[k].state == spec_state_after_update(*old(storage), k, now)->Ok_0 by {
            assert(spec_state_after_update(*old(storage), k, now) == Ok::<AirdropState, ContractError>(states[k]));
        }
        if old(storage).wf() {
            assert(middle.wf());
        }
    }
    match &target {
        None => {},
        Some(t) => {
            let i: usize = staker_slot(storage, t);
            let ghost opened = *storage;
            let mut a: usize = 0;
            while a < count
                invariant
                    a <= count,
                    rewards.len() == count,
                    i < storage.bank.len(),
                    storage.config == opened.config,
                    storage.state == opened.state,
                    storage.polls@ == opened.polls@,
                    storage.airdrops@ == opened.airdrops@,
                    storage.tmp_poll_id == opened.tmp_poll_id,
                    only_staker_changed(opened.bank@, storage.bank@, i as int),
                    storage.bank[i as int].manager == opened.bank[i as int].manager,
                    storage.bank[i as int].claims@ == opened.bank[i as int].claims@,
                    forall|id: u64|
                        #[trigger] reward_of(storage.bank[i as int].rewards@, id) == (if id < a {
                            rewards[id as int]
                        } else {
                            reward_of(opened.bank[i as int].rewards@, id)
                        }),
                decreases count - a,
            {
                let ghost bank_before = storage.bank@;
                save_reward(&mut storage.bank[i].rewards, a, rewards[a]);
                proof {
                    assert forall|j: int| 0 <= j < opened.bank@.len() && j != i implies #[trigger] storage.bank@[j]
                        == opened.bank@[j] by {
                        assert(storage.bank@[j] == bank_before[j]);
                    }
                }
                a += 1;
            }
            proof {
                if old(storage).wf() {
                    assert(middle.wf());
                    lemma_reward_change_keeps_wf(opened, *storage, i as int);
                }
                lemma_update_applied(*old(storage), middle, opened, *storage, *t, i as int, now, rewards@);
            }
        },
    }
    let mut response = Response::new();
    response.attributes.push(attr("action", "airdrop_update"));
    Ok(response)
}

/// The rewards written for the target of an update are the ones that the
/// update is specified by.
proof fn lemma_update_applied(
    before: Storage,
    middle: Storage,
    opened: Storage,
    after: Storage,
    target: String,
    i: int,
    now: u64,
    rewards: Seq<Reward>,
)
    requires
        middle.config == before.config,
        middle.state == before.state,
        middle.bank == before.bank,
        middle.polls == before.polls,
        middle.tmp_poll_id == before.tmp_poll_id,
        middle.airdrops.len() == before.airdrops.len(),
        forall|a: int|
            0 <= a < before.airdrops.len() ==> (#[trigger] middle.airdrops[a]).config == before.airdrops[a].config
                && middle.airdrops[a].state == spec_state_after_update(before, a, now)->Ok_0,
        rewards.len() == before.airdrops.len(),
        forall|k: int|
            0 <= k < rewards.len() ==> spec_reward_after_update(before, target@, k, now) == Ok::<Reward, ContractError>(
                #[trigger] rewards[k],
            ),
        opened.config == middle.config,
        opened.state == middle.state,
        opened.polls@ == middle.polls@,
        opened.airdrops@ == middle.airdrops@,
        opened.tmp_poll_id == middle.tmp_poll_id,
        0 <= i < opened.bank.len(),
        opened.bank[i].address@ == target@,
        forall|j: int| 0 <= j < i ==> (#[trigger] opened.bank[j]).address@ != target@,
        has_staker(middle.bank@, target@) ==> opened.bank@ == middle.bank@ && i == staker_index(
            middle.bank@,
            target@,
        ),
        !has_staker(middle.bank@, target@) ==> {
            &&& i == middle.bank.len()
            &&& opened.bank@.len() == middle.bank@.len() + 1
            &&& opened.bank@.drop_last() == middle.bank@
            &&& opened.bank[i].manager.share == 0
            &&& opened.bank[i].manager.latest_claim_id == 0
            &&& opened.bank[i].manager.last_unlocked_claim_id == 0
            &&& opened.bank[i].manager.locked_balance@.len() == 0
            &&& opened.bank[i].claims@.len() == 0
            &&& opened.bank[i].rewards@.len() == 0
        },
        after.config == opened.config,
        after.state == opened.state,
        after.polls@ == opened.polls@,
        after.airdrops@ == opened.airdrops@,
        after.tmp_poll_id == opened.tmp_poll_id,
        only_staker_changed(opened.bank@, after.bank@, i),
        after.bank[i].manager == opened.bank[i].manager,
        after.bank[i].claims@ == opened.bank[i].claims@,
        forall|id: u64|
            #[trigger] reward_of(after.bank[i].rewards@, id) == (if id < rewards.len() {
                rewards[id as int]
            } else {
                reward_of(opened.bank[i].rewards@, id)
            }),
    ensures
        spec_update_applied(before, after, Some(target), now),
{
    assert forall|j: int| 0 <= j < i implies (#[trigger] after.bank@[j]).address@ != target@ by {
        assert(after.bank@[j] == opened.bank@[j]);
    }
    crate::gov::states::lemma_first_staker(after.bank@, target@, i);
    if !has_staker(before.bank@, target@) {
        assert forall|j: int| 0 <= j < before.bank@.len() implies after.bank@.drop_last()[j] == before.bank@[j] by {
            assert(opened.bank@.drop_last()[j] == opened.bank@[j]);
            assert(after.bank@[j] == opened.bank@[j]);
        }
        assert(after.bank@.drop_last() =~= before.bank@);
    }
    assert forall|j: int|
        0 <= j < before.bank@.len() && before.bank@[j].address@ != target@ implies #[trigger] after.bank@[j]
        == before.bank@[j] by {
        if !has_staker(before.bank@, target@) {
            assert(opened.bank@.drop_last()[j] == opened.bank@[j]);
        }
        assert(after.bank@[j] == opened.bank@[j]);
    }
    assert forall|id: u64|
        #[trigger] spec_reward_of(after.bank@, target@, id) == (if id < before.airdrops.len() {
            spec_reward_after_update(before, target@, id as int, now)->Ok_0
        } else {
            spec_reward_of(before.bank@, target@, id)
        }) by {
        assert(spec_reward_of(after.bank@, target@, id) == reward_of(after.bank[i].rewards@, id));
        if id < before.airdrops.len() {
            assert(spec_reward_after_update(before, target@, id as int, now) == Ok::<Reward, ContractError>(
                rewards[id as int],
            ));
        }
    }
    assert forall|a: int| 0 <= a < before.airdrops.len() implies (#[trigger] after.airdrops[a]).config
        == before.airdrops[a].config && after.airdrops[a].state == spec_state_after_update(before, a, now)->Ok_0 by {
        assert(after.airdrops@[a] == middle.airdrops@[a]);
    }
}

/// What [`claim`] guarantees of its outcome `r`.
pub open spec fn claim_ensures(
    storage: Storage,
    env: Env,
    info: MessageInfo,
    target: Option<String>,
    r: Result<Response, ContractError>,
) -> bool {
    &&& r is Ok
    &&& ({
        let sender = match target {
            Some(t) => t,
            None => info.sender,
        };
        &&& r->Ok_0.attributes@.len() == 1
        &&& is_text(r->Ok_0.attributes@[0], "action"@, "airdrop_claim"@)
        &&& r->Ok_0.messages@.len() == storage.airdrops.len() + 1
        &&& r->Ok_0.messages@[0] == (Message::Execute {
            msg: ExecuteMsg::Airdrop(AirdropMsg::Update { target: Some(sender) }),
        })
        &&& forall|a: int|
            0 <= a < storage.airdrops.len() ==> #[trigger] r->Ok_0.messages@[a + 1] == (Message::Execute {
                msg: ExecuteMsg::Airdrop(AirdropMsg::ClaimInternal { sender, airdrop_id: a as u64 }),
            })
    })
}

/// Asks the host to pay out to `target`, or to the sender where no target
/// is named, what the staker may claim from every airdrop: first an update
/// that credits the staker, then one payment for each airdrop.
pub fn claim(storage: &Storage, env: &Env, info: &MessageInfo, target: Option<String>) -> (r: Result<
    Response,
    ContractError,
>)
    ensures
        claim_ensures(*storage, *env, *info, target, r),
{
    let sender: String = match target {
        Some(t) => t,
        None => info.sender.clone(),
    };
    let mut response = Response::new();
    response.attributes.push(attr("action", "airdrop_claim"));
    response.messages.push(
        Message::Execute { msg: ExecuteMsg::Airdrop(AirdropMsg::Update { target: Some(sender.clone()) }) },
    );
    let mut a: usize = 0;
    while a < storage.airdrops.len()
        invariant
            a <= storage.airdrops.len(),
            response.attributes@.len() == 1,
            is_text(response.attributes@[0], "action"@, "airdrop_claim"@),
            response.messages@.len() == a + 1,
            response.messages@[0] == (Message::Execute {
                msg: ExecuteMsg::Airdrop(AirdropMsg::Update { target: Some(sender) }),
            }),
            forall|k: int|
                0 <= k < a ==> #[trigger] response.messages@[k + 1] == (Message::Execute {
                    msg: ExecuteMsg::Airdrop(AirdropMsg::ClaimInternal { sender, airdrop_id: k as u64 }),
                }),
        decreases storage.airdrops.len() - a,
    {
        response.messages.push(
            Message::Execute {
                msg: ExecuteMsg::Airdrop(AirdropMsg::ClaimInternal { sender: sender.clone(), airdrop_id: a as u64 }),
            },
        );
        a += 1;
    }
    Ok(response)
}

} // verus!
