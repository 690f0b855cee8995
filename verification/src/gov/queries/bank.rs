//! Queries on stakers and their claims.

use crate::common::OrderBy;
use crate::common::after_cursor;
use crate::common::key_less;
use crate::common::key_lt;
use crate::common::lemma_key_lt_total;
use crate::common::lemma_key_lt_transitive;
use crate::common::order;
use crate::common::page;
use crate::common::page_limit;
use crate::common::spec_after_cursor;
use crate::common::spec_order;
use crate::common::spec_page;
use crate::common::spec_page_limit;
use crate::error::ContractError;
use crate::gov::airdrop::calculate_rewards;
use crate::gov::airdrop::spec_rewards;
use crate::gov::msg::ClaimResponse;
use crate::gov::msg::ClaimableAirdrop;
use crate::gov::msg::ClaimsResponse;
use crate::gov::msg::Env;
use crate::gov::msg::StakerResponse;
use crate::gov::msg::StakersResponse;
use crate::gov::staking::live_locks;
use crate::gov::staking::scan_locks;
use crate::gov::staking::share_balance;
use crate::gov::staking::spec_share_balance;
use crate::gov::states::Staker;
use crate::gov::states::Storage;
use crate::gov::states::TokenClaim;
use crate::gov::states::find_staker;
use crate::gov::states::has_staker;
use crate::gov::states::load_reward;
use crate::gov::states::reward_of;
use crate::gov::states::staker_index;

use vstd::prelude::*;

verus! {

/// The key under which the store keeps what belongs to an address: the
/// bytes of the address.
pub open spec fn spec_key(address: Seq<char>) -> Seq<u8> {
    vstd::utf8::encode_utf8(address)
}

/// Whether the staker at `i` stands before the one at `j` in a list of
/// stakers: by the key of the address, and by the place in the ledger among
/// records of one address.
pub open spec fn stands_before(bank: Seq<Staker>, i: int, j: int) -> bool {
    key_lt(spec_key(bank[i].address@), spec_key(bank[j].address@)) || (spec_key(bank[i].address@) == spec_key(
        bank[j].address@,
    ) && i < j)
}

/// Whether `sequence` lists the places of all stakers of `bank` in the
/// order of their addresses. Each place then occurs once.
pub open spec fn is_address_order(bank: Seq<Staker>, sequence: Seq<usize>) -> bool {
    &&& sequence.len() == bank.len()
    &&& forall|k: int| 0 <= k < sequence.len() ==> (#[trigger] sequence[k]) < bank.len()
    &&& forall|a: int, b: int|
        0 <= a < b < sequence.len() ==> stands_before(bank, #[trigger] sequence[a] as int, #[trigger] sequence[b] as int)
}

/// The places of the stakers in the order of their addresses.
pub fn address_order(bank: &Vec<Staker>) -> (r: Vec<usize>)
    ensures
        is_address_order(bank@, r@),
{
    let mut sequence: Vec<usize> = Vec::new();
    let mut i: usize = 0;
    while i < bank.len()
        invariant
            i <= bank.len(),
            sequence.len() == i,
            forall|k: int| 0 <= k < sequence.len() ==> (#[trigger] sequence[k]) < i,
            forall|a: int, b: int|
                0 <= a < b < sequence.len() ==> stands_before(
                    bank@,
                    #[trigger] sequence[a] as int,
                    #[trigger] sequence[b] as int,
                ),
        decreases bank.len() - i,
    {
        let ghost key = spec_key(bank@[i as int].address@);
        let mut p: usize = 0;
        let mut found: bool = false;
        while !found && p < sequence.len()
            invariant
                p <= sequence.len(),
                i < bank.len(),
                key == spec_key(bank@[i as int].address@),
                forall|k: int| 0 <= k < sequence.len() ==> (#[trigger] sequence[k]) < i,
                forall|k: int| 0 <= k < p ==> !key_lt(key, spec_key(bank@[(#[trigger] sequence[k]) as int].address@)),
                found ==> p < sequence.len() && key_lt(key, spec_key(bank@[sequence[p as int] as int].address@)),
            decreases (if found { 0int } else { 1int }), sequence.len() - p,
        {
            if key_less(bank[i].address.as_str().as_bytes(), bank[sequence[p]].address.as_str().as_bytes()) {
                found = true;
            } else {
                p += 1;
            }
        }
        let ghost before = sequence@;
        sequence.insert(p, i);
        proof {
            assert forall|a: int, b: int| 0 <= a < b < sequence.len() implies stands_before(
                bank@,
                #[trigger] sequence[a] as int,
                #[trigger] sequence[b] as int,
            ) by {
                if b < p {
                    assert(sequence[a] == before[a] && sequence[b] == before[b]);
                } else if b == p {
                    assert(sequence[a] == before[a]);
                    lemma_key_lt_total(key, spec_key(bank@[before[a] as int].address@));
                } else if a < p {
                    assert(sequence[a] == before[a] && sequence[b] == before[b - 1]);
                } else if a == p {
                    assert(sequence[b] == before[b - 1]);
                    let at = spec_key(bank@[before[p as int] as int].address@);
                    let later = spec_key(bank@[before[b - 1] as int].address@);
                    if b - 1 > p {
                        assert(stands_before(bank@, before[p as int] as int, before[b - 1] as int));
                        if key_lt(at, later) {
                            lemma_key_lt_transitive(key, at, later);
                        }
                    }
                } else {
                    assert(sequence[a] == before[a - 1] && sequence[b] == before[b - 1]);
                }
            }
            assert forall|k: int| 0 <= k < sequence.len() implies (#[trigger] sequence[k]) < i + 1 by {
                if k < p {
                    assert(sequence[k] == before[k]);
                } else if k > p {
                    assert(sequence[k] == before[k - 1]);
                }
            }
        }
        i += 1;
    }
    sequence
}

/// Whether `claims` holds a claim with the id.
pub open spec fn has_claim(claims: Seq<(u64, TokenClaim)>, claim_id: u64) -> bool {
    exists|i: int| 0 <= i < claims.len() && (#[trigger] claims[i]).0 == claim_id
}

/// The place of the first claim with the id in `claims`.
pub open spec fn claim_index(claims: Seq<(u64, TokenClaim)>, claim_id: u64) -> int {
    choose|i: int|
        0 <= i < claims.len() && (#[trigger] claims[i]).0 == claim_id && forall|j: int|
            0 <= j < i ==> (#[trigger] claims[j]).0 != claim_id
}

/// Finds the claim with the id.
pub fn find_claim(claims: &Vec<(u64, TokenClaim)>, claim_id: u64) -> (r: Option<usize>)
    ensures
        r is Some == has_claim(claims@, claim_id),
        r is Some ==> r->Some_0 == claim_index(claims@, claim_id) && r->Some_0 < claims.len(),
{
    let mut i: usize = 0;
    while i < claims.len()
        invariant
            i <= claims.len(),
            forall|j: int| 0 <= j < i ==> (#[trigger] claims[j]).0 != claim_id,
        decreases claims.len() - i,
    {
        if claims[i].0 == claim_id {
            proof {
                let k = claim_index(claims@, claim_id);
                assert(claims@[i as int].0 == claim_id);
                assert(k == i) by {
                    if k < i {
                        assert(claims@[k].0 != claim_id);
                    }
                    if k > i {
                        assert(claims@[i as int].0 != claim_id);
                    }
                }
            }
            return Some(i);
        }
        i += 1;
    }
    None
}

/// What [`query_token_claim`] guarantees of its outcome `r`.
pub open spec fn query_token_claim_ensures(
    storage: Storage,
    address: String,
    claim_id: u64,
    r: Result<ClaimResponse, ContractError>,
) -> bool {
    &&& r is Ok <==> has_staker(storage.bank@, address@) && has_claim(
        storage.bank[staker_index(storage.bank@, address@)].claims@,
        claim_id,
    )
    &&& r is Ok ==> ({
        let claims = storage.bank[staker_index(storage.bank@, address@)].claims@;
        let claim = claims[claim_index(claims, claim_id)].1;
        r->Ok_0 == ClaimResponse { time: claim.time, amount: claim.amount }
    })
    &&& r is Err ==> r == Err::<ClaimResponse, ContractError>(ContractError::NotFound)
}

/// The claim of the staker with the id, as long as it waits to be unlocked.
pub fn query_token_claim(storage: &Storage, address: String, claim_id: u64) -> (r: Result<ClaimResponse, ContractError>)
    ensures
        query_token_claim_ensures(*storage, address, claim_id, r),
{
    let i: usize = match find_staker(&storage.bank, &address) {
        Some(i) => i,
        None => { return Err(ContractError::NotFound); },
    };
    match find_claim(&storage.bank[i].claims, claim_id) {
        Some(at) => {
            let claim: TokenClaim = storage.bank[i].claims[at].1;
            Ok(ClaimResponse { time: claim.time, amount: claim.amount })
        },
        None => Err(ContractError::NotFound),
    }
}

/// For each claim of a queue, whether a list query asks for it: its id lies
/// behind the cursor.
pub open spec fn spec_claim_mask(
    claims: Seq<(u64, TokenClaim)>,
    start_after: Option<u64>,
    order: OrderBy,
) -> Seq<bool> {
    Seq::new(claims.len(), |i: int| spec_after_cursor(claims[i].0, start_after, order))
}

/// Whether `response` shows the claims at `places`, each under its id.
pub open spec fn spec_shows_claims(
    response: Seq<(u64, ClaimResponse)>,
    claims: Seq<(u64, TokenClaim)>,
    places: Seq<usize>,
) -> bool {
    &&& response.len() == places.len()
    &&& forall|k: int|
        0 <= k < places.len() ==> #[trigger] response[k] == (
            claims[places[k] as int].0,
            ClaimResponse { time: claims[places[k] as int].1.time, amount: claims[places[k] as int].1.amount },
        )
}

/// The claims of a queue, a page at a time: those whose id lies behind the
/// cursor, walking the queue in the direction `order`, `limit` at most.
pub fn load_claim_range(
    claims: &Vec<(u64, TokenClaim)>,
    start_after: Option<u64>,
    limit: Option<u32>,
    order_by: Option<OrderBy>,
) -> (r: Vec<(u64, ClaimResponse)>)
    ensures
        spec_shows_claims(
            r@,
            claims@,
            spec_page(
                spec_claim_mask(claims@, start_after, spec_order(order_by)),
                spec_order(order_by),
                spec_page_limit(limit),
            ),
        ),
{
    let direction: OrderBy = order(order_by);
    let mut mask: Vec<bool> = Vec::new();
    let mut i: usize = 0;
    while i < claims.len()
        invariant
            i <= claims.len(),
            mask@.len() == i,
            forall|j: int| 0 <= j < i ==> mask@[j] == spec_after_cursor(claims[j].0, start_after, direction),
        decreases claims.len() - i,
    {
        mask.push(after_cursor(claims[i].0, start_after, direction));
        i += 1;
    }
    proof {
        assert(mask@ =~= spec_claim_mask(claims@, start_after, direction));
    }
    let places: Vec<usize> = page(&mask, direction, page_limit(limit));
    let mut out: Vec<(u64, ClaimResponse)> = Vec::new();
    let mut k: usize = 0;
    while k < places.len()
        invariant
            k <= places.len(),
            out@.len() == k,
            mask@.len() == claims.len(),
            forall|j: int| 0 <= j < places.len() ==> (#[trigger] places[j]) < mask.len(),
            forall|j: int|
                0 <= j < k ==> #[trigger] out@[j] == (
                    claims[places[j] as int].0,
                    ClaimResponse { time: claims[places[j] as int].1.time, amount: claims[places[j] as int].1.amount },
                ),
        decreases places.len() - k,
    {
        let entry: (u64, TokenClaim) = claims[places[k]];
        out.push((entry.0, ClaimResponse { time: entry.1.time, amount: entry.1.amount }));
        k += 1;
    }
    out
}

/// What [`query_token_claims`] guarantees of its outcome `r`.
pub open spec fn query_token_claims_ensures(
    storage: Storage,
    address: String,
    start_after: Option<u64>,
    limit: Option<u32>,
    order_by: Option<OrderBy>,
    r: Result<ClaimsResponse, ContractError>,
) -> bool {
    &&& r is Ok
    &&& !has_staker(storage.bank@, address@) ==> r->Ok_0.claims@.len() == 0
    &&& has_staker(storage.bank@, address@) ==> ({
        let claims = storage.bank[staker_index(storage.bank@, address@)].claims@;
        spec_shows_claims(
            r->Ok_0.claims@,
            claims,
            spec_page(
                spec_claim_mask(claims, start_after, spec_order(order_by)),
                spec_order(order_by),
                spec_page_limit(limit),
            ),
        )
    })
}

/// The claims of the staker that wait to be unlocked, a page at a time. A
/// staker without a record has none.
pub fn query_token_claims(
    storage: &Storage,
    address: String,
    start_after: Option<u64>,
    limit: Option<u32>,
    order_by: Option<OrderBy>,
) -> (r: Result<ClaimsResponse, ContractError>)
    ensures
        query_token_claims_ensures(*storage, address, start_after, limit, order_by, r),
{
    match find_staker(&storage.bank, &address) {
        Some(i) => Ok(ClaimsResponse { claims: load_claim_range(&storage.bank[i].claims, start_after, limit, order_by) }),
        None => Ok(ClaimsResponse { claims: Vec::new() }),
    }
}

/// What the staker can claim from the airdrop `a` at `now`: what the record
/// holds, and what the staker's shares have earned since, up to `now` or to
/// the finish of the airdrop.
pub open spec fn spec_claimable(storage: Storage, staker: Staker, a: int, now: u64) -> Result<u128, ContractError> {
    spec_rewards(
        storage.airdrops[a].spec_applicable_time(now),
        storage.state.total_share,
        staker.manager.share,
        storage.airdrops[a],
        reward_of(staker.rewards@, a as u64),
    )
}

/// What the staker can claim from the first `count` airdrops at `now`, each
/// under the id of its airdrop, those that pay nothing left out.
pub open spec fn spec_claimable_list(storage: Storage, staker: Staker, count: int, now: u64) -> Seq<(u64, u128)>
    decreases count,
{
    if count <= 0 {
        Seq::empty()
    } else {
        let rest = spec_claimable_list(storage, staker, count - 1, now);
        match spec_claimable(storage, staker, count - 1, now) {
            Ok(amount) => if amount > 0 {
                rest.push(((count - 1) as u64, amount))
            } else {
                rest
            },
            Err(_) => rest,
        }
    }
}

/// Whether `response` shows `staker` at `now`, in a pool whose redeemable
/// balance is `balance`.
pub open spec fn spec_shows_staker(
    response: StakerResponse,
    storage: Storage,
    staker: Staker,
    balance: u128,
    now: u64,
) -> bool {
    &&& spec_share_balance(staker.manager.share, storage.state.total_share, balance) == Ok::<u128, ContractError>(
        response.balance,
    )
    &&& response.share == staker.manager.share
    &&& response.latest_claim_id == staker.manager.latest_claim_id
    &&& response.last_unlocked_claim_id == staker.manager.last_unlocked_claim_id
    &&& response.locked_balance@ == live_locks(staker.manager.locked_balance@, storage.polls@)
    &&& response.claimable_airdrop@.len() == spec_claimable_list(
        storage,
        staker,
        storage.airdrops.len() as int,
        now,
    ).len()
    &&& forall|k: int|
        0 <= k < response.claimable_airdrop@.len() ==> {
            let entry = spec_claimable_list(storage, staker, storage.airdrops.len() as int, now)[k];
            &&& (#[trigger] response.claimable_airdrop@[k]).0 == entry.0
            &&& response.claimable_airdrop@[k].1.amount == entry.1
            &&& response.claimable_airdrop@[k].1.token == storage.airdrops[entry.0 as int].config.reward_token
        }
}

/// Whether the staker can be shown at `now`: the worth of the shares and
/// what each airdrop pays can be computed.
pub open spec fn spec_can_show(storage: Storage, staker: Staker, balance: u128, now: u64) -> bool {
    &&& spec_share_balance(staker.manager.share, storage.state.total_share, balance) is Ok
    &&& forall|a: int| 0 <= a < storage.airdrops.len() ==> (#[trigger] spec_claimable(storage, staker, a, now)) is Ok
}

/// What a query shows of a staker at the time of `env`: the worth of the
/// shares, the locks on polls in progress, and what each airdrop pays,
/// where that is not zero. `total_balance` is the redeemable balance of the
/// pool.
pub fn to_response(storage: &Storage, env: &Env, staker: &Staker, total_balance: u128) -> (r: Result<
    StakerResponse,
    ContractError,
>)
    ensures
        r is Ok <==> spec_can_show(*storage, *staker, total_balance, env.block.time),
        r is Ok ==> spec_shows_staker(r->Ok_0, *storage, *staker, total_balance, env.block.time),
{
    let now: u64 = env.block.time;
    let balance: u128 = match share_balance(staker.manager.share, storage.state.total_share, total_balance) {
        Ok(v) => v,
        Err(e) => { return Err(e); },
    };
    let scan = scan_locks(&storage.polls, &staker.manager.locked_balance);
    let mut claimable: Vec<(u64, ClaimableAirdrop)> = Vec::new();
    let mut a: usize = 0;
    while a < storage.airdrops.len()
        invariant
            a <= storage.airdrops.len(),
            now == env.block.time,
            forall|k: int| 0 <= k < a ==> (#[trigger] spec_claimable(*storage, *staker, k, now)) is Ok,
            claimable@.len() == spec_claimable_list(*storage, *staker, a as int, now).len(),
            forall|k: int|
                0 <= k < claimable@.len() ==> {
                    let entry = spec_claimable_list(*storage, *staker, a as int, now)[k];
                    &&& (#[trigger] claimable@[k]).0 == entry.0
                    &&& entry.0 < a
                    &&& claimable@[k].1.amount == entry.1
                    &&& claimable@[k].1.token == storage.airdrops[entry.0 as int].config.reward_token
                },
        decreases storage.airdrops.len() - a,
    {
        let airdrop = &storage.airdrops[a];
        let reward = load_reward(&staker.rewards, a as u64);
        let amount: u128 = match calculate_rewards(
            airdrop.applicable_time(now),
            storage.state.total_share,
            staker.manager.share,
            airdrop,
            &reward,
        ) {
            Ok(v) => v,
            Err(e) => {
                proof {
                    assert(spec_claimable(*storage, *staker, a as int, now) is Err);
                }
                return Err(e);
            },
        };
        proof {
            assert(spec_claimable(*storage, *staker, a as int, now) == Ok::<u128, ContractError>(amount));
        }
        if amount > 0 {
            claimable.push((a as u64, ClaimableAirdrop { token: airdrop.config.reward_token.clone(), amount }));
        }
        a += 1;
    }
    Ok(
        StakerResponse {
            balance,
            share: staker.manager.share,
            latest_claim_id: staker.manager.latest_claim_id,
            last_unlocked_claim_id: staker.manager.last_unlocked_claim_id,
            claimable_airdrop: claimable,
            locked_balance: scan.live,
        },
    )
}

/// What [`query_staker`] guarantees of its outcome `r`.
pub open spec fn query_staker_ensures(
    storage: Storage,
    env: Env,
    address: String,
    queried_balance: u128,
    r: Result<StakerResponse, ContractError>,
) -> bool {
    &&& queried_balance < storage.state.total_deposit ==> r == Err::<StakerResponse, ContractError>(
        ContractError::Underflow,
    )
    &&& queried_balance >= storage.state.total_deposit && !has_staker(storage.bank@, address@) ==> {
        &&& r is Ok
        &&& r->Ok_0.balance == 0
        &&& r->Ok_0.share == 0
        &&& r->Ok_0.latest_claim_id == 0
        &&& r->Ok_0.last_unlocked_claim_id == 0
        &&& r->Ok_0.claimable_airdrop@.len() == 0
        &&& r->Ok_0.locked_balance@.len() == 0
    }
    &&& queried_balance >= storage.state.total_deposit && has_staker(storage.bank@, address@) ==> ({
        let staker = storage.bank[staker_index(storage.bank@, address@)];
        let balance = (queried_balance - storage.state.total_deposit) as u128;
        &&& r is Ok <==> spec_can_show(storage, staker, balance, env.block.time)
        &&& r is Ok ==> spec_shows_staker(r->Ok_0, storage, staker, balance, env.block.time)
    })
}

/// The staker with the address at the time of `env`. `queried_balance` is
/// the token balance of the pool. An address without a record is shown as
/// a staker who holds nothing: no share, no balance, no lock, no claim and
/// no reward.
pub fn query_staker(storage: &Storage, env: &Env, address: String, queried_balance: u128) -> (r: Result<
    StakerResponse,
    ContractError,
>)
    ensures
        query_staker_ensures(*storage, *env, address, queried_balance, r),
{
    let total_balance: u128 = match queried_balance.checked_sub(storage.state.total_deposit) {
        Some(v) => v,
        None => { return Err(ContractError::Underflow); },
    };
    match find_staker(&storage.bank, &address) {
        Some(i) => to_response(storage, env, &storage.bank[i], total_balance),
        None => Ok(
            StakerResponse {
                balance: 0,
                share: 0,
                latest_claim_id: 0,
                last_unlocked_claim_id: 0,
                claimable_airdrop: Vec::new(),
                locked_balance: Vec::new(),
            },
        ),
    }
}

/// Whether an address lies behind the cursor `start_after` of a list that
/// walks in the direction `order`: its key stands after the cursor's when
/// walking up, before it when walking down. The cursor may be any address,
/// a staker's or not. Without a cursor every address does.
pub open spec fn spec_behind(address: Seq<char>, start_after: Option<String>, order: OrderBy) -> bool {
    match start_after {
        None => true,
        Some(cursor) => match order {
            OrderBy::Asc => key_lt(spec_key(cursor@), spec_key(address)),
            OrderBy::Desc => key_lt(spec_key(address), spec_key(cursor@)),
        },
    }
}

/// Whether an address lies behind the cursor of a list.
pub fn behind(address: &String, start_after: &Option<String>, order: OrderBy) -> (r: bool)
    ensures
        r == spec_behind(address@, *start_after, order),
{
    match start_after {
        None => true,
        Some(cursor) => match order {
            OrderBy::Asc => key_less(cursor.as_str().as_bytes(), address.as_str().as_bytes()),
            OrderBy::Desc => key_less(address.as_str().as_bytes(), cursor.as_str().as_bytes()),
        },
    }
}

/// For each staker in the order `sequence`, whether a list of stakers holds
/// it: its address lies behind the cursor.
pub open spec fn spec_staker_mask(
    bank: Seq<Staker>,
    sequence: Seq<usize>,
    start_after: Option<String>,
    order: OrderBy,
) -> Seq<bool> {
    Seq::new(sequence.len(), |k: int| spec_behind(bank[sequence[k] as int].address@, start_after, order))
}

/// For each staker in the order `sequence`, whether a list of stakers holds
/// it.
fn staker_mask(bank: &Vec<Staker>, sequence: &Vec<usize>, start_after: &Option<String>, direction: OrderBy) -> (r: Vec<
    bool,
>)
    requires
        is_address_order(bank@, sequence@),
    ensures
        r@ == spec_staker_mask(bank@, sequence@, *start_after, direction),
{
    let mut mask: Vec<bool> = Vec::new();
    let mut k: usize = 0;
    while k < sequence.len()
        invariant
            k <= sequence.len(),
            is_address_order(bank@, sequence@),
            mask@.len() == k,
            forall|j: int|
                0 <= j < k ==> mask@[j] == spec_behind(bank@[sequence@[j] as int].address@, *start_after, direction),
        decreases sequence.len() - k,
    {
        mask.push(behind(&bank[sequence[k]].address, start_after, direction));
        k += 1;
    }
    proof {
        assert(mask@ =~= spec_staker_mask(bank@, sequence@, *start_after, direction));
    }
    mask
}

/// The places of the stakers that a list holds, in the order of the list:
/// of the stakers in the order `sequence`, those at which `mask` is set, a
/// page of them.
pub open spec fn spec_listed(sequence: Seq<usize>, mask: Seq<bool>, order: OrderBy, limit: nat) -> Seq<usize> {
    Seq::new(spec_page(mask, order, limit).len(), |k: int| sequence[spec_page(mask, order, limit)[k] as int])
}

/// The places of the stakers that a list holds, in the order of the list.
pub fn listed(sequence: &Vec<usize>, mask: &Vec<bool>, order: OrderBy, limit: usize) -> (r: Vec<usize>)
    ensures
        mask.len() == sequence.len() ==> r@ == spec_listed(sequence@, mask@, order, limit as nat),
        mask.len() != sequence.len() ==> r@.len() == 0,
{
    let mut places: Vec<usize> = Vec::new();
    if mask.len() != sequence.len() {
        return places;
    }
    let chosen: Vec<usize> = page(mask, order, limit);
    let mut k: usize = 0;
    while k < chosen.len()
        invariant
            k <= chosen.len(),
            mask.len() == sequence.len(),
            places@.len() == k,
            forall|j: int| 0 <= j < chosen.len() ==> (#[trigger] chosen[j]) < mask.len(),
            forall|j: int| 0 <= j < k ==> places@[j] == sequence@[chosen@[j] as int],
        decreases chosen.len() - k,
    {
        places.push(sequence[chosen[k]]);
        k += 1;
    }
    proof {
        assert(places@ =~= spec_listed(sequence@, mask@, order, limit as nat));
    }
    places
}

/// Whether `response` shows the stakers at `places`, each under its
/// address.
pub open spec fn spec_shows_stakers(
    response: Seq<(String, StakerResponse)>,
    storage: Storage,
    places: Seq<usize>,
    balance: u128,
    now: u64,
) -> bool {
    &&& response.len() == places.len()
    &&& forall|k: int|
        0 <= k < places.len() ==> (#[trigger] response[k]).0 == storage.bank[places[k] as int].address
            && spec_shows_staker(response[k].1, storage, storage.bank[places[k] as int], balance, now)
}

/// Whether `r` is the list of the stakers at `places`: it fails exactly
/// where one of them cannot be shown, and else shows them one by one.
pub open spec fn spec_lists_stakers(
    storage: Storage,
    places: Seq<usize>,
    balance: u128,
    now: u64,
    r: Result<StakersResponse, ContractError>,
) -> bool {
    &&& r is Ok <==> forall|k: int|
        0 <= k < places.len() ==> spec_can_show(storage, storage.bank[(#[trigger] places[k]) as int], balance, now)
    &&& r is Ok ==> spec_shows_stakers(r->Ok_0.stakers@, storage, places, balance, now)
}

/// The list of the stakers at `places`.
fn show_stakers(storage: &Storage, env: &Env, places: &Vec<usize>, total_balance: u128) -> (r: Result<
    StakersResponse,
    ContractError,
>)
    requires
        forall|k: int| 0 <= k < places.len() ==> (#[trigger] places[k]) < storage.bank.len(),
    ensures
        spec_lists_stakers(*storage, places@, total_balance, env.block.time, r),
{
    let mut stakers: Vec<(String, StakerResponse)> = Vec::new();
    let mut k: usize = 0;
    while k < places.len()
        invariant
            k <= places.len(),
            stakers@.len() == k,
            forall|j: int| 0 <= j < places.len() ==> (#[trigger] places[j]) < storage.bank.len(),
            forall|j: int|
                0 <= j < k ==> spec_can_show(
                    *storage,
                    storage.bank[(#[trigger] places[j]) as int],
                    total_balance,
                    env.block.time,
                ),
            forall|j: int|
                0 <= j < k ==> (#[trigger] stakers@[j]).0 == storage.bank[places[j] as int].address
                    && spec_shows_staker(
                    stakers@[j].1,
                    *storage,
                    storage.bank[places[j] as int],
                    total_balance,
                    env.block.time,
                ),
        decreases places.len() - k,
    {
        let staker: &Staker = &storage.bank[places[k]];
        let response: StakerResponse = match to_response(storage, env, staker, total_balance) {
            Ok(v) => v,
            Err(e) => {
                proof {
                    assert(!spec_can_show(*storage, storage.bank[places[k as int] as int], total_balance, env.block.time));
                }
                return Err(e);
            },
        };
        stakers.push((staker.address.clone(), response));
        k += 1;
    }
    Ok(StakersResponse { stakers })
}

/// What [`query_stakers`] guarantees of its outcome `r`.
pub open spec fn query_stakers_ensures(
    storage: Storage,
    env: Env,
    start_after: Option<String>,
    limit: Option<u32>,
    order_by: Option<OrderBy>,
    queried_balance: u128,
    r: Result<StakersResponse, ContractError>,
) -> bool {
    &&& queried_balance < storage.state.total_deposit ==> r == Err::<StakersResponse, ContractError>(
        ContractError::Underflow,
    )
    &&& queried_balance >= storage.state.total_deposit ==> exists|sequence: Seq<usize>|
        #[trigger] is_address_order(storage.bank@, sequence) && spec_lists_stakers(
            storage,
            spec_listed(
                sequence,
                spec_staker_mask(storage.bank@, sequence, start_after, spec_order(order_by)),
                spec_order(order_by),
                spec_page_limit(limit),
            ),
            (queried_balance - storage.state.total_deposit) as u128,
            env.block.time,
            r,
        )
}

/// The stakers at the time of `env`, a page at a time: in the order of
/// their addresses, upwards or downwards, behind the address `start_after`,
/// which need not be a staker's.
pub fn query_stakers(
    storage: &Storage,
    env: &Env,
    start_after: Option<String>,
    limit: Option<u32>,
    order_by: Option<OrderBy>,
    queried_balance: u128,
) -> (r: Result<StakersResponse, ContractError>)
    ensures
        query_stakers_ensures(*storage, *env, start_after, limit, order_by, queried_balance, r),
{
    let total_balance: u128 = match queried_balance.checked_sub(storage.state.total_deposit) {
        Some(v) => v,
        None => { return Err(ContractError::Underflow); },
    };
    let direction: OrderBy = order(order_by);
    let sequence: Vec<usize> = address_order(&storage.bank);
    let mask: Vec<bool> = staker_mask(&storage.bank, &sequence, &start_after, direction);
    let places: Vec<usize> = listed(&sequence, &mask, direction, page_limit(limit));
    proof {
        crate::common::lemma_page_within(mask@, direction, spec_page_limit(limit));
    }
    let r = show_stakers(storage, env, &places, total_balance);
    proof {
        assert(is_address_order(storage.bank@, sequence@));
    }
    r
}

} // verus!
