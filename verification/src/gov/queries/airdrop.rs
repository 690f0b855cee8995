//! Queries on airdrops.

use crate::common::OrderBy;
use crate::common::after_cursor;
use crate::common::order;
use crate::common::page;
use crate::common::page_limit;
use crate::common::spec_after_cursor;
use crate::common::spec_order;
use crate::common::spec_page;
use crate::common::spec_page_limit;
use crate::error::ContractError;
use crate::gov::msg::AirdropResponse;
use crate::gov::msg::AirdropsResponse;
use crate::gov::states::Airdrop;
use crate::gov::states::Storage;

use vstd::prelude::*;

verus! {

/// Whether `response` shows `airdrop`.
pub open spec fn spec_shows(response: AirdropResponse, airdrop: Airdrop) -> bool {
    &&& response.start == airdrop.config.start
    &&& response.period == airdrop.config.period
    &&& response.reward_token == airdrop.config.reward_token
    &&& response.reward_rate == airdrop.config.reward_rate
}

/// What a query shows of an airdrop.
pub fn to_response(airdrop: &Airdrop) -> (r: AirdropResponse)
    ensures
        spec_shows(r, *airdrop),
{
    AirdropResponse {
        start: airdrop.config.start,
        period: airdrop.config.period,
        reward_token: airdrop.config.reward_token.clone(),
        reward_rate: airdrop.config.reward_rate,
    }
}

/// What [`query_airdrop`] guarantees of its outcome `r`.
pub open spec fn query_airdrop_ensures(
    storage: Storage,
    airdrop_id: u64,
    r: Result<AirdropResponse, ContractError>,
) -> bool {
    &&& airdrop_id >= storage.airdrops.len() ==> r == Err::<AirdropResponse, ContractError>(
        ContractError::AirdropNotFound,
    )
    &&& airdrop_id < storage.airdrops.len() ==> r is Ok && spec_shows(r->Ok_0, storage.airdrops[airdrop_id as int])
}

/// The airdrop with the id.
pub fn query_airdrop(storage: &Storage, airdrop_id: u64) -> (r: Result<AirdropResponse, ContractError>)
    ensures
        query_airdrop_ensures(*storage, airdrop_id, r),
{
    if airdrop_id >= storage.airdrops.len() as u64 {
        return Err(ContractError::AirdropNotFound);
    }
    Ok(to_response(&storage.airdrops[airdrop_id as usize]))
}

/// For each airdrop, whether a list query asks for it: its id lies behind
/// the cursor.
pub open spec fn spec_airdrop_mask(count: nat, start_after: Option<u64>, order: OrderBy) -> Seq<bool> {
    Seq::new(count, |i: int| spec_after_cursor(i as u64, start_after, order))
}

/// Whether `response` shows the airdrops at `places`, each under its id.
pub open spec fn spec_shows_all(
    response: Seq<(u64, AirdropResponse)>,
    airdrops: Seq<Airdrop>,
    places: Seq<usize>,
) -> bool {
    &&& response.len() == places.len()
    &&& forall|k: int|
        0 <= k < places.len() ==> (#[trigger] response[k]).0 == places[k] && spec_shows(
            response[k].1,
            airdrops[places[k] as int],
        )
}

/// What [`query_airdrops`] guarantees of its outcome `r`.
pub open spec fn query_airdrops_ensures(
    storage: Storage,
    start_after: Option<u64>,
    limit: Option<u32>,
    order_by: Option<OrderBy>,
    r: Result<AirdropsResponse, ContractError>,
) -> bool {
    &&& r is Ok
    &&& spec_shows_all(
        r->Ok_0.airdrops@,
        storage.airdrops@,
        spec_page(
            spec_airdrop_mask(storage.airdrops@.len(), start_after, spec_order(order_by)),
            spec_order(order_by),
            spec_page_limit(limit),
        ),
    )
}

/// The airdrops, a page at a time: those behind the cursor `start_after`,
/// by their id in the direction `order_by`, and `limit` of them at most.
pub fn query_airdrops(
    storage: &Storage,
    start_after: Option<u64>,
    limit: Option<u32>,
    order_by: Option<OrderBy>,
) -> (r: Result<AirdropsResponse, ContractError>)
    ensures
        query_airdrops_ensures(*storage, start_after, limit, order_by, r),
{
    let direction: OrderBy = order(order_by);
    let mut mask: Vec<bool> = Vec::new();
    let mut i: usize = 0;
    while i < storage.airdrops.len()
        invariant
            i <= storage.airdrops.len(),
            mask@.len() == i,
            forall|j: int| 0 <= j < i ==> mask@[j] == spec_after_cursor(j as u64, start_after, direction),
        decreases storage.airdrops.len() - i,
    {
        mask.push(after_cursor(i as u64, start_after, direction));
        i += 1;
    }
    proof {
        assert(mask@ =~= spec_airdrop_mask(storage.airdrops@.len(), start_after, direction));
    }
    let places: Vec<usize> = page(&mask, direction, page_limit(limit));
    let mut airdrops: Vec<(u64, AirdropResponse)> = Vec::new();
    let mut k: usize = 0;
    while k < places.len()
        invariant
            k <= places.len(),
            airdrops@.len() == k,
            mask@.len() == storage.airdrops.len(),
            forall|j: int| 0 <= j < places.len() ==> (#[trigger] places[j]) < mask.len(),
            forall|j: int|
                0 <= j < k ==> (#[trigger] airdrops@[j]).0 == places[j] && spec_shows(
                    airdrops@[j].1,
                    storage.airdrops[places[j] as int],
                ),
        decreases places.len() - k,
    {
        airdrops.push((places[k] as u64, to_response(&storage.airdrops[places[k]])));
        k += 1;
    }
    Ok(AirdropsResponse { airdrops })
}

} // verus!
