//! Queries on polls.

use crate::common::OrderBy;
use crate::common::after_cursor;
use crate::common::order;
use crate::common::page;
use crate::common::page_limit;
use crate::common::spec_after_cursor;
use crate::common::spec_order;
use crate::common::spec_page;
use crate::common::spec_page_limit;
use crate::error::ContractError;
use crate::gov::msg::PollCategory;
use crate::gov::msg::PollExecuteMsg;
use crate::gov::msg::PollResponse;
use crate::gov::msg::PollStatus;
use crate::gov::msg::PollsResponse;
use crate::gov::msg::VoterInfo;
use crate::gov::msg::VotersResponse;
use crate::gov::msg::VotersResponseItem;
use crate::gov::poll::find_lock;
use crate::gov::queries::bank::address_order;
use crate::gov::queries::bank::behind;
use crate::gov::queries::bank::is_address_order;
use crate::gov::queries::bank::listed;
use crate::gov::queries::bank::spec_behind;
use crate::gov::queries::bank::spec_listed;
use crate::gov::poll::has_lock;
use crate::gov::poll::lock_index;
use crate::gov::states::Poll;
use crate::gov::states::Staker;
use crate::gov::states::Storage;

use vstd::prelude::*;

verus! {

/// Which polls a list query asks for.
#[derive(Clone, Copy, Debug, PartialEq, Eq, Structural)]
pub enum PollFilter {
    All,
    Status(PollStatus),
    Category(PollCategory),
}

/// Whether the poll passes the filter.
pub open spec fn spec_passes(poll: Poll, filter: PollFilter) -> bool {
    match filter {
        PollFilter::All => true,
        PollFilter::Status(status) => poll.status == status,
        PollFilter::Category(category) => poll.category == category,
    }
}

/// Whether the poll passes the filter.
pub fn passes(poll: &Poll, filter: PollFilter) -> (r: bool)
    ensures
        r == spec_passes(*poll, filter),
{
    match filter {
        PollFilter::All => true,
        PollFilter::Status(status) => poll.status == status,
        PollFilter::Category(category) => poll.category == category,
    }
}

/// Whether `index` is the index of `polls` under `filter`: the places of the
/// polls that pass the filter, all of them, in rising order.
pub open spec fn spec_is_index(index: Seq<u64>, polls: Seq<Poll>, filter: PollFilter) -> bool {
    &&& forall|k: int|
        0 <= k < index.len() ==> (#[trigger] index[k]) < polls.len() && spec_passes(polls[index[k] as int], filter)
    &&& forall|j: int, k: int| 0 <= j < k < index.len() ==> (#[trigger] index[j]) < (#[trigger] index[k])
    &&& forall|i: int| 0 <= i < polls.len() && spec_passes(#[trigger] polls[i], filter) ==> index.contains(i as u64)
}

/// The index of the polls under a status or a category: the ids of the
/// polls that have it, in rising order. Made from the polls themselves, it
/// follows every change of a status.
pub fn index(polls: &Vec<Poll>, filter: PollFilter) -> (r: Vec<u64>)
    ensures
        spec_is_index(r@, polls@, filter),
{
    let mut out: Vec<u64> = Vec::new();
    let mut i: usize = 0;
    while i < polls.len()
        invariant
            i <= polls.len(),
            forall|k: int|
                0 <= k < out.len() ==> (#[trigger] out[k]) < i && spec_passes(polls[out[k] as int], filter),
            forall|j: int, k: int| 0 <= j < k < out.len() ==> (#[trigger] out[j]) < (#[trigger] out[k]),
            forall|p: int| 0 <= p < i && spec_passes(#[trigger] polls[p], filter) ==> out@.contains(p as u64),
        decreases polls.len() - i,
    {
        if passes(&polls[i], filter) {
            let ghost before = out@;
            out.push(i as u64);
            proof {
                assert(out@[out.len() - 1] == i as u64);
                assert forall|p: int| 0 <= p < i + 1 && spec_passes(#[trigger] polls[p], filter) implies out@.contains(
                    p as u64,
                ) by {
                    if p < i {
                        let k = choose|k: int| 0 <= k < before.len() && before[k] == p as u64;
                        assert(out@[k] == p as u64);
                    }
                }
            }
        }
        i += 1;
    }
    out
}

/// Whether `response` shows `poll`.
pub open spec fn spec_shows(response: PollResponse, poll: Poll) -> bool {
    &&& response.id == poll.id
    &&& response.creator == poll.creator
    &&& response.status == poll.status
    &&& response.end_height == poll.end_height
    &&& response.title == poll.title
    &&& response.category == poll.category
    &&& response.description == poll.description
    &&& response.link is Some == poll.link is Some
    &&& response.link is Some ==> response.link->Some_0 == poll.link->Some_0
    &&& response.deposit_amount == poll.deposit_amount
    &&& response.execute_data is Some == poll.execute_data is Some
    &&& response.execute_data is Some ==> {
        &&& response.execute_data->Some_0@.len() == poll.execute_data->Some_0@.len()
        &&& forall|k: int|
            0 <= k < poll.execute_data->Some_0@.len() ==> {
                &&& (#[trigger] response.execute_data->Some_0@[k]).order == poll.execute_data->Some_0@[k].order
                &&& response.execute_data->Some_0@[k].contract == poll.execute_data->Some_0@[k].contract
                &&& response.execute_data->Some_0@[k].msg@ == poll.execute_data->Some_0@[k].msg@
            }
    }
    &&& response.yes_votes == poll.yes_votes
    &&& response.no_votes == poll.no_votes
    &&& response.staked_amount == poll.staked_amount
    &&& response.total_balance_at_end_poll == poll.total_balance_at_end_poll
}

/// A copy of the operations of a poll.
pub fn copy_execute_data(data: &Vec<PollExecuteMsg>) -> (r: Vec<PollExecuteMsg>)
    ensures
        r@.len() == data@.len(),
        forall|k: int|
            0 <= k < data@.len() ==> {
                &&& (#[trigger] r@[k]).order == data@[k].order
                &&& r@[k].contract == data@[k].contract
                &&& r@[k].msg@ == data@[k].msg@
            },
{
    let mut out: Vec<PollExecuteMsg> = Vec::new();
    let mut k: usize = 0;
    while k < data.len()
        invariant
            k <= data.len(),
            out@.len() == k,
            forall|j: int|
                0 <= j < k ==> {
                    &&& (#[trigger] out@[j]).order == data@[j].order
                    &&& out@[j].contract == data@[j].contract
                    &&& out@[j].msg@ == data@[j].msg@
                },
        decreases data.len() - k,
    {
        let payload: Vec<u8> = data[k].msg.clone();
        proof {
            assert(payload@ =~= data@[k as int].msg@);
        }
        out.push(PollExecuteMsg { order: data[k].order, contract: data[k].contract.clone(), msg: payload });
        k += 1;
    }
    out
}

/// What a query shows of a poll.
pub fn to_response(poll: &Poll) -> (r: PollResponse)
    ensures
        spec_shows(r, *poll),
{
    PollResponse {
        id: poll.id,
        creator: poll.creator.clone(),
        status: poll.status,
        end_height: poll.end_height,
        title: poll.title.clone(),
        category: poll.category,
        description: poll.description.clone(),
        link: match &poll.link {
            Some(l) => Some(l.clone()),
            None => None,
        },
        deposit_amount: poll.deposit_amount,
        execute_data: match &poll.execute_data {
            Some(data) => Some(copy_execute_data(data)),
            None => None,
        },
        yes_votes: poll.yes_votes,
        no_votes: poll.no_votes,
        staked_amount: poll.staked_amount,
        total_balance_at_end_poll: poll.total_balance_at_end_poll,
    }
}

/// What [`query_poll`] guarantees of its outcome `r`.
pub open spec fn query_poll_ensures(
    storage: Storage,
    poll_id: u64,
    r: Result<PollResponse, ContractError>,
) -> bool {
    &&& poll_id >= storage.polls.len() ==> r == Err::<PollResponse, ContractError>(ContractError::PollNotFound)
    &&& poll_id < storage.polls.len() ==> r is Ok && spec_shows(r->Ok_0, storage.polls[poll_id as int])
}

/// The poll with the id.
pub fn query_poll(storage: &Storage, poll_id: u64) -> (r: Result<PollResponse, ContractError>)
    ensures
        query_poll_ensures(*storage, poll_id, r),
{
    if poll_id >= storage.polls.len() as u64 {
        return Err(ContractError::PollNotFound);
    }
    Ok(to_response(&storage.polls[poll_id as usize]))
}

/// For each poll, whether a list query asks for it: it passes the filter
/// and its place lies behind the cursor.
pub open spec fn spec_poll_mask(polls: Seq<Poll>, filter: PollFilter, start_after: Option<u64>, order: OrderBy) -> Seq<
    bool,
> {
    Seq::new(polls.len(), |i: int| spec_passes(polls[i], filter) && spec_after_cursor(i as u64, start_after, order))
}

/// Whether `response` shows the polls at `places`, one by one.
pub open spec fn spec_shows_all(response: Seq<PollResponse>, polls: Seq<Poll>, places: Seq<usize>) -> bool {
    &&& response.len() == places.len()
    &&& forall|k: int| 0 <= k < places.len() ==> spec_shows(#[trigger] response[k], polls[places[k] as int])
}

/// The polls that pass `filter`, a page at a time: those behind the cursor
/// `start_after`, by their id in the direction `order_by`, which is
/// downwards where none is given, and `limit` of them at most, which is 50
/// where none is given and never more than 100.
pub fn list_polls(
    storage: &Storage,
    filter: PollFilter,
    start_after: Option<u64>,
    limit: Option<u32>,
    order_by: Option<OrderBy>,
) -> (r: PollsResponse)
    ensures
        spec_shows_all(
            r.polls@,
            storage.polls@,
            spec_page(
                spec_poll_mask(storage.polls@, filter, start_after, spec_order(order_by)),
                spec_order(order_by),
                spec_page_limit(limit),
            ),
        ),
{
    let direction: OrderBy = order(order_by);
    let mut mask: Vec<bool> = Vec::new();
    let mut i: usize = 0;
    while i < storage.polls.len()
        invariant
            i <= storage.polls.len(),
            mask@.len() == i,
            forall|j: int|
                0 <= j < i ==> mask@[j] == (spec_passes(storage.polls[j], filter) && spec_after_cursor(
                    j as u64,
                    start_after,
                    direction,
                )),
        decreases storage.polls.len() - i,
    {
        mask.push(passes(&storage.polls[i], filter) && after_cursor(i as u64, start_after, direction));
        i += 1;
    }
    proof {
        assert(mask@ =~= spec_poll_mask(storage.polls@, filter, start_after, direction));
    }
    let places: Vec<usize> = page(&mask, direction, page_limit(limit));
    let mut polls: Vec<PollResponse> = Vec::new();
    let mut k: usize = 0;
    while k < places.len()
        invariant
            k <= places.len(),
            polls@.len() == k,
            mask@.len() == storage.polls.len(),
            forall|j: int| 0 <= j < places.len() ==> (#[trigger] places[j]) < mask.len(),
            forall|j: int| 0 <= j < k ==> spec_shows(#[trigger] polls@[j], storage.polls[places[j] as int]),
        decreases places.len() - k,
    {
        polls.push(to_response(&storage.polls[places[k]]));
        k += 1;
    }
    PollsResponse { polls }
}

/// What [`query_polls`] guarantees of its outcome `r`.
pub open spec fn query_polls_ensures(
    storage: Storage,
    start_after: Option<u64>,
    limit: Option<u32>,
    order_by: Option<OrderBy>,
    r: Result<PollsResponse, ContractError>,
) -> bool {
    &&& r is Ok
    &&& spec_shows_all(
        r->Ok_0.polls@,
        storage.polls@,
        spec_page(
            spec_poll_mask(storage.polls@, PollFilter::All, start_after, spec_order(order_by)),
            spec_order(order_by),
            spec_page_limit(limit),
        ),
    )
}

/// All polls, a page at a time.
pub fn query_polls(
    storage: &Storage,
    start_after: Option<u64>,
    limit: Option<u32>,
    order_by: Option<OrderBy>,
) -> (r: Result<PollsResponse, ContractError>)
    ensures
        query_polls_ensures(*storage, start_after, limit, order_by, r),
{
    Ok(list_polls(storage, PollFilter::All, start_after, limit, order_by))
}

/// The status that a list query asks for: `InProgress` where none is given.
pub open spec fn spec_status_filter(status_filter: Option<PollStatus>) -> PollStatus {
    match status_filter {
        Some(status) => status,
        None => PollStatus::InProgress,
    }
}

/// What [`query_polls_with_status_filter`] guarantees of its outcome `r`.
pub open spec fn query_polls_with_status_filter_ensures(
    storage: Storage,
    status_filter: Option<PollStatus>,
    start_after: Option<u64>,
    limit: Option<u32>,
    order_by: Option<OrderBy>,
    r: Result<PollsResponse, ContractError>,
) -> bool {
    &&& r is Ok
    &&& spec_shows_all(
        r->Ok_0.polls@,
        storage.polls@,
        spec_page(
            spec_poll_mask(
                storage.polls@,
                PollFilter::Status(spec_status_filter(status_filter)),
                start_after,
                spec_order(order_by),
            ),
            spec_order(order_by),
            spec_page_limit(limit),
        ),
    )
}

/// The polls of one status, a page at a time; the polls in progress where
/// no status is given.
pub fn query_polls_with_status_filter(
    storage: &Storage,
    status_filter: Option<PollStatus>,
    start_after: Option<u64>,
    limit: Option<u32>,
    order_by: Option<OrderBy>,
) -> (r: Result<PollsResponse, ContractError>)
    ensures
        query_polls_with_status_filter_ensures(*storage, status_filter, start_after, limit, order_by, r),
{
    let status: PollStatus = match status_filter {
        Some(status) => status,
        None => PollStatus::InProgress,
    };
    Ok(list_polls(storage, PollFilter::Status(status), start_after, limit, order_by))
}

/// The category that a list query asks for: the polls without a category
/// where none is given.
pub open spec fn spec_category_filter(category_filter: Option<PollCategory>) -> PollCategory {
    match category_filter {
        Some(category) => category,
        None => PollCategory::Uncategorized,
    }
}

/// What [`query_polls_with_category_filter`] guarantees of its outcome `r`.
pub open spec fn query_polls_with_category_filter_ensures(
    storage: Storage,
    category_filter: Option<PollCategory>,
    start_after: Option<u64>,
    limit: Option<u32>,
    order_by: Option<OrderBy>,
    r: Result<PollsResponse, ContractError>,
) -> bool {
    &&& r is Ok
    &&& spec_shows_all(
        r->Ok_0.polls@,
        storage.polls@,
        spec_page(
            spec_poll_mask(
                storage.polls@,
                PollFilter::Category(spec_category_filter(category_filter)),
                start_after,
                spec_order(order_by),
            ),
            spec_order(order_by),
            spec_page_limit(limit),
        ),
    )
}

/// The polls of one category, a page at a time; the polls without a
/// category where no category is given.
pub fn query_polls_with_category_filter(
    storage: &Storage,
    category_filter: Option<PollCategory>,
    start_after: Option<u64>,
    limit: Option<u32>,
    order_by: Option<OrderBy>,
) -> (r: Result<PollsResponse, ContractError>)
    ensures
        query_polls_with_category_filter_ensures(*storage, category_filter, start_after, limit, order_by, r),
{
    let category: PollCategory = match category_filter {
        Some(category) => category,
        None => PollCategory::Uncategorized,
    };
    Ok(list_polls(storage, PollFilter::Category(category), start_after, limit, order_by))
}

/// For each staker in the order `sequence`, whether a list of the voters of
/// the poll holds it: it has a lock on the poll and its address lies behind
/// the cursor.
pub open spec fn spec_voter_mask(
    bank: Seq<Staker>,
    sequence: Seq<usize>,
    poll_id: u64,
    start_after: Option<String>,
    order: OrderBy,
) -> Seq<bool> {
    Seq::new(
        sequence.len(),
        |k: int|
            has_lock(bank[sequence[k] as int].manager.locked_balance@, poll_id) && spec_behind(
                bank[sequence[k] as int].address@,
                start_after,
                order,
            ),
    )
}

/// Whether `items` shows the votes in the poll of the stakers at `places`,
/// one by one.
pub open spec fn spec_shows_voters(
    items: Seq<VotersResponseItem>,
    bank: Seq<Staker>,
    poll_id: u64,
    places: Seq<usize>,
) -> bool {
    &&& items.len() == places.len()
    &&& forall|k: int|
        0 <= k < places.len() ==> {
            let staker = bank[places[k] as int];
            let lock = staker.manager.locked_balance@[lock_index(staker.manager.locked_balance@, poll_id)];
            &&& (#[trigger] items[k]).voter == staker.address
            &&& items[k].vote == lock.1.vote
            &&& items[k].balance == lock.1.balance
        }
}

/// What [`query_voters`] guarantees of its outcome `r`.
pub open spec fn query_voters_ensures(
    storage: Storage,
    poll_id: u64,
    start_after: Option<String>,
    limit: Option<u32>,
    order_by: Option<OrderBy>,
    r: Result<VotersResponse, ContractError>,
) -> bool {
    &&& poll_id >= storage.polls.len() ==> r == Err::<VotersResponse, ContractError>(ContractError::PollNotFound)
    &&& poll_id < storage.polls.len() ==> r is Ok && exists|sequence: Seq<usize>|
        #[trigger] is_address_order(storage.bank@, sequence) && spec_shows_voters(
            r->Ok_0.voters@,
            storage.bank@,
            poll_id,
            spec_listed(
                sequence,
                spec_voter_mask(storage.bank@, sequence, poll_id, start_after, spec_order(order_by)),
                spec_order(order_by),
                spec_page_limit(limit),
            ),
        )
}

/// The voters of the poll, a page at a time: the stakers with a lock on the
/// poll, in the order of their addresses, upwards or downwards, behind the
/// address `start_after`, which need not be a voter's.
pub fn query_voters(
    storage: &Storage,
    poll_id: u64,
    start_after: Option<String>,
    limit: Option<u32>,
    order_by: Option<OrderBy>,
) -> (r: Result<VotersResponse, ContractError>)
    ensures
        query_voters_ensures(*storage, poll_id, start_after, limit, order_by, r),
{
    if poll_id >= storage.polls.len() as u64 {
        return Err(ContractError::PollNotFound);
    }
    let direction: OrderBy = order(order_by);
    let sequence: Vec<usize> = address_order(&storage.bank);
    let mut mask: Vec<bool> = Vec::new();
    let mut i: usize = 0;
    while i < sequence.len()
        invariant
            i <= sequence.len(),
            is_address_order(storage.bank@, sequence@),
            mask@.len() == i,
            forall|j: int|
                0 <= j < i ==> mask@[j] == (has_lock(
                    storage.bank[sequence@[j] as int].manager.locked_balance@,
                    poll_id,
                ) && spec_behind(storage.bank[sequence@[j] as int].address@, start_after, direction)),
        decreases sequence.len() - i,
    {
        let staker: &Staker = &storage.bank[sequence[i]];
        let voted: bool = find_lock(&staker.manager.locked_balance, poll_id).is_some();
        let wanted: bool = behind(&staker.address, &start_after, direction);
        mask.push(voted && wanted);
        i += 1;
    }
    proof {
        assert(mask@ =~= spec_voter_mask(storage.bank@, sequence@, poll_id, start_after, direction));
        crate::common::lemma_page_within(mask@, direction, spec_page_limit(limit));
    }
    let places: Vec<usize> = listed(&sequence, &mask, direction, page_limit(limit));
    let ghost chosen = spec_page(mask@, direction, spec_page_limit(limit));
    let mut voters: Vec<VotersResponseItem> = Vec::new();
    let mut k: usize = 0;
    while k < places.len()
        invariant
            k <= places.len(),
            voters@.len() == k,
            is_address_order(storage.bank@, sequence@),
            mask@ == spec_voter_mask(storage.bank@, sequence@, poll_id, start_after, direction),
            places@.len() == chosen.len(),
            forall|j: int|
                0 <= j < chosen.len() ==> (#[trigger] chosen[j]) < mask@.len() && mask@[chosen[j] as int] && places@[j]
                    == sequence@[chosen[j] as int],
            forall|j: int|
                0 <= j < k ==> {
                    let staker = storage.bank[places[j] as int];
                    let lock = staker.manager.locked_balance@[lock_index(staker.manager.locked_balance@, poll_id)];
                    &&& (#[trigger] voters@[j]).voter == staker.address
                    &&& voters@[j].vote == lock.1.vote
                    &&& voters@[j].balance == lock.1.balance
                },
        decreases places.len() - k,
    {
        proof {
            assert(chosen[k as int] < mask@.len() && mask@[chosen[k as int] as int]);
            assert(sequence@[chosen[k as int] as int] < storage.bank.len());
        }
        let staker: &Staker = &storage.bank[places[k]];
        match find_lock(&staker.manager.locked_balance, poll_id) {
            Some(at) => {
                let info: VoterInfo = staker.manager.locked_balance[at].1;
                voters.push(VotersResponseItem { voter: staker.address.clone(), vote: info.vote, balance: info.balance });
            },
            None => {
                proof {
                    assert(false);
                }
            },
        }
        k += 1;
    }
    proof {
        assert(is_address_order(storage.bank@, sequence@));
    }
    Ok(VotersResponse { voters })
}

} // verus!
