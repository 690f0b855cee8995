//! Ready-made ledgers for trying out the queries.

use crate::gov::msg::PollCategory;
use crate::gov::msg::PollStatus;
use crate::gov::states::Poll;
use crate::gov::states::Storage;

use vstd::prelude::*;

verus! {

/// The address that creates the sample polls.
pub const TEST_CREATOR: &'static str = "creator";

/// Whether `poll` is the sample poll with the given id, status and
/// category: it has no votes, no deposit, no operations and no snapshot, and
/// its voting ended at height zero.
pub open spec fn spec_sample_poll(poll: Poll, id: u64, status: PollStatus, category: PollCategory) -> bool {
    &&& poll.id == id
    &&& poll.creator@ == TEST_CREATOR@
    &&& poll.status == status
    &&& poll.category == category
    &&& poll.yes_votes == 0
    &&& poll.no_votes == 0
    &&& poll.end_height == 0
    &&& poll.title@ == "MOCK-POLL"@
    &&& poll.description@ == "MOCK-DESC"@
    &&& poll.link is None
    &&& poll.execute_data is None
    &&& poll.deposit_amount == 0
    &&& poll.total_balance_at_end_poll is None
    &&& poll.staked_amount is None
}

/// Adds a sample poll of the given status and category to the ledger. It
/// gets the id `poll_count`, which then goes up by one.
pub fn save_poll(storage: &mut Storage, status: &PollStatus, category: &PollCategory)
    requires
        old(storage).state.poll_count < u64::MAX,
    ensures
        old(storage).wf() ==> final(storage).wf(),
        final(storage).polls@.len() == old(storage).polls@.len() + 1,
        final(storage).polls@.drop_last() == old(storage).polls@,
        spec_sample_poll(final(storage).polls@.last(), old(storage).state.poll_count, *status, *category),
        final(storage).state.poll_count == old(storage).state.poll_count + 1,
        final(storage).state.total_share == old(storage).state.total_share,
        final(storage).state.total_deposit == old(storage).state.total_deposit,
        final(storage).state.total_unbondings == old(storage).state.total_unbondings,
        final(storage).state.total_airdrop_count == old(storage).state.total_airdrop_count,
        final(storage).state.airdrop_update_candidates == old(storage).state.airdrop_update_candidates,
        final(storage).config == old(storage).config,
        final(storage).bank == old(storage).bank,
        final(storage).airdrops == old(storage).airdrops,
        final(storage).tmp_poll_id == old(storage).tmp_poll_id,
{
    let id: u64 = storage.state.poll_count;
    let ghost before = storage.polls@;
    storage.polls.push(
        Poll {
            id,
            creator: TEST_CREATOR.to_string(),
            status: *status,
            yes_votes: 0,
            no_votes: 0,
            end_height: 0,
            title: "MOCK-POLL".to_string(),
            category: *category,
            description: "MOCK-DESC".to_string(),
            link: None,
            execute_data: None,
            deposit_amount: 0,
            total_balance_at_end_poll: None,
            staked_amount: None,
        },
    );
    storage.state.poll_count = storage.state.poll_count + 1;
    proof {
        assert(storage.polls@.drop_last() =~= old(storage).polls@);
        crate::gov::states::lemma_sum_deposits_push(before, storage.polls@.last());
        assert(storage.polls@ =~= before.push(storage.polls@.last()));
        if old(storage).wf() {
            assert forall|j: int| 0 <= j < storage.polls.len() implies (#[trigger] storage.polls[j]).id == j by {
                if j < old(storage).polls.len() {
                    assert(storage.polls[j] == old(storage).polls[j]);
                }
            }
        }
    }
}

/// The statuses that [`setup_state`] fills in, in its order.
pub open spec fn spec_status_list() -> Seq<PollStatus> {
    seq![
        PollStatus::InProgress,
        PollStatus::Passed,
        PollStatus::Rejected,
        PollStatus::Executed,
        PollStatus::Failed,
    ]
}

/// The categories that [`setup_state`] fills in, in its order.
pub open spec fn spec_category_list() -> Seq<PollCategory> {
    seq![PollCategory::Core, PollCategory::Gateway, PollCategory::Uncategorized]
}

/// Adds fifteen sample polls to the ledger, one for each pair of a status
/// out of five and a category out of three, status by status: the poll at
/// the `k`th new place has the status `k / 3` and the category `k % 3` of
/// the lists. Returns the statuses and the categories.
pub fn setup_state(storage: &mut Storage) -> (r: (Vec<PollStatus>, Vec<PollCategory>))
    requires
        old(storage).state.poll_count <= u64::MAX - 15,
    ensures
        old(storage).wf() ==> final(storage).wf(),
        r.0@ == spec_status_list(),
        r.1@ == spec_category_list(),
        final(storage).polls@.len() == old(storage).polls@.len() + 15,
        final(storage).polls@.subrange(0, old(storage).polls@.len() as int) == old(storage).polls@,
        forall|p: int|
            old(storage).polls@.len() <= p < old(storage).polls@.len() + 15 ==> spec_sample_poll(
                #[trigger] final(storage).polls@[p],
                (old(storage).state.poll_count + (p - old(storage).polls@.len())) as u64,
                spec_status_list()[(p - old(storage).polls@.len()) / 3],
                spec_category_list()[(p - old(storage).polls@.len()) % 3],
            ),
        final(storage).state.poll_count == old(storage).state.poll_count + 15,
        final(storage).state.total_share == old(storage).state.total_share,
        final(storage).config == old(storage).config,
        final(storage).bank == old(storage).bank,
        final(storage).airdrops == old(storage).airdrops,
{
    let mut status_list: Vec<PollStatus> = Vec::new();
    status_list.push(PollStatus::InProgress);
    status_list.push(PollStatus::Passed);
    status_list.push(PollStatus::Rejected);
    status_list.push(PollStatus::Executed);
    status_list.push(PollStatus::Failed);
    let mut category_list: Vec<PollCategory> = Vec::new();
    category_list.push(PollCategory::Core);
    category_list.push(PollCategory::Gateway);
    category_list.push(PollCategory::Uncategorized);
    proof {
        assert(status_list@ =~= spec_status_list());
        assert(category_list@ =~= spec_category_list());
    }
    let ghost base = storage.polls@.len() as int;
    let ghost first = storage.state.poll_count as int;
    let mut s: usize = 0;
    while s < 5
        invariant
            s <= 5,
            status_list@ == spec_status_list(),
            category_list@ == spec_category_list(),
            base == old(storage).polls@.len(),
            first == old(storage).state.poll_count,
            first <= u64::MAX - 15,
            old(storage).wf() ==> storage.wf(),
            storage.polls@.len() == base + s * 3,
            storage.polls@.subrange(0, base) == old(storage).polls@,
            forall|k: int|
                0 <= k < s * 3 ==> spec_sample_poll(
                    #[trigger] storage.polls@[base + k],
                    (first + k) as u64,
                    spec_status_list()[k / 3],
                    spec_category_list()[k % 3],
                ),
            storage.state.poll_count == first + s * 3,
            storage.state.total_share == old(storage).state.total_share,
            storage.config == old(storage).config,
            storage.bank == old(storage).bank,
            storage.airdrops == old(storage).airdrops,
        decreases 5 - s,
    {
        let mut c: usize = 0;
        while c < 3
            invariant
                s < 5,
                c <= 3,
                status_list@ == spec_status_list(),
                category_list@ == spec_category_list(),
                base == old(storage).polls@.len(),
                first == old(storage).state.poll_count,
                first <= u64::MAX - 15,
                old(storage).wf() ==> storage.wf(),
                storage.polls@.len() == base + s * 3 + c,
                storage.polls@.subrange(0, base) == old(storage).polls@,
                forall|k: int|
                    0 <= k < s * 3 + c ==> spec_sample_poll(
                        #[trigger] storage.polls@[base + k],
                        (first + k) as u64,
                        spec_status_list()[k / 3],
                        spec_category_list()[k % 3],
                    ),
                storage.state.poll_count == first + s * 3 + c,
                storage.state.total_share == old(storage).state.total_share,
                storage.config == old(storage).config,
                storage.bank == old(storage).bank,
                storage.airdrops == old(storage).airdrops,
            decreases 3 - c,
        {
            let ghost before = storage.polls@;
            save_poll(storage, &status_list[s], &category_list[c]);
            proof {
                assert(storage.polls@.drop_last() == before);
                assert(storage.polls@.subrange(0, base) =~= before.subrange(0, base));
                assert forall|k: int| 0 <= k < s * 3 + c + 1 implies spec_sample_poll(
                    #[trigger] storage.polls@[base + k],
                    (first + k) as u64,
                    spec_status_list()[k / 3],
                    spec_category_list()[k % 3],
                ) by {
                    if k < s * 3 + c {
                        assert(storage.polls@[base + k] == before[base + k]);
                    } else {
                        assert(storage.polls@[base + k] == storage.polls@.last());
                    }
                }
            }
            c += 1;
        }
        s += 1;
    }
    proof {
        assert forall|p: int| base <= p < base + 15 implies spec_sample_poll(
            #[trigger] storage.polls@[p],
            (first + (p - base)) as u64,
            spec_status_list()[(p - base) / 3],
            spec_category_list()[(p - base) % 3],
        ) by {
            let k = p - base;
            assert(spec_sample_poll(
                storage.polls@[base + k],
                (first + k) as u64,
                spec_status_list()[k / 3],
                spec_category_list()[k % 3],
            ));
        }
    }
    (status_list, category_list)
}

} // verus!
