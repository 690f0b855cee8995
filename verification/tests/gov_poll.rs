use pylon_gov::common::BlockInfo;
use pylon_gov::error::ContractError;
use pylon_gov::gov::entrypoints::reply;
use pylon_gov::gov::executions::instantiate;
use pylon_gov::gov::executions::poll::{
    cast_vote, create, end, execute, execute_messages, fail, snapshot, POLL_EXECUTE_REPLY_ID,
};
use pylon_gov::gov::executions::staking::stake_voting_tokens;
use pylon_gov::gov::msg::{
    Env, ExecuteMsg, InstantiateMsg, Message, MessageInfo, PollCategory, PollExecuteMsg, PollMsg, PollStatus,
    VoteOption, VoterInfo,
};
use pylon_gov::gov::poll::{execution_order, PollEnd};
use pylon_gov::gov::states::{Config, Poll, State, Storage, TokenManager};
use pylon_gov::math::Decimal;

const CONTRACT: &str = "gov";
const TOKEN: &str = "token";
const OWNER: &str = "owner";
const ALICE: &str = "alice";
const BOB: &str = "bob";
const CAROL: &str = "carol";

fn env(height: u64) -> Env {
    Env { block: BlockInfo { height, time: height * 6 }, contract_address: CONTRACT.to_string() }
}

fn from(sender: &str) -> MessageInfo {
    MessageInfo { sender: sender.to_string() }
}

fn ledger() -> Storage {
    instantiate(
        &env(1),
        &from(OWNER),
        InstantiateMsg {
            voting_token: TOKEN.to_string(),
            quorum: Decimal::percent(10),
            threshold: Decimal::percent(50),
            voting_period: 100,
            timelock_period: 50,
            proposal_deposit: 100,
            snapshot_period: 10,
            unstaking_period: 1000,
        },
    )
    .unwrap()
}

/// Alice holds 1000 shares and Bob 500, one token each; a poll with a
/// deposit of 100 was opened at height 10 and ends at height 110. The
/// ledger holds 1600 tokens.
fn ledger_with_poll() -> Storage {
    let mut storage = ledger();
    let contract = from(CONTRACT);
    stake_voting_tokens(&mut storage, &env(2), &contract, ALICE.to_string(), 1000, 1000).unwrap();
    stake_voting_tokens(&mut storage, &env(3), &contract, BOB.to_string(), 500, 1500).unwrap();
    create(
        &mut storage,
        &env(10),
        CAROL.to_string(),
        100,
        "title".to_string(),
        PollCategory::Gateway,
        "description".to_string(),
        Some("https://example".to_string()),
        Some(vec![
            PollExecuteMsg { order: 2, contract: "second".to_string(), msg: vec![2] },
            PollExecuteMsg { order: 1, contract: "first".to_string(), msg: vec![1, 1] },
            PollExecuteMsg { order: 2, contract: "third".to_string(), msg: vec![] },
        ]),
    )
    .unwrap();
    storage
}

fn config() -> Config {
    ledger().config
}

fn poll(yes_votes: u128, no_votes: u128) -> Poll {
    Poll {
        id: 0,
        creator: CAROL.to_string(),
        status: PollStatus::InProgress,
        yes_votes,
        no_votes,
        end_height: 110,
        title: "t".to_string(),
        category: PollCategory::Core,
        description: "d".to_string(),
        link: None,
        execute_data: None,
        deposit_amount: 100,
        total_balance_at_end_poll: None,
        staked_amount: None,
    }
}

fn state(total_share: u128) -> State {
    State {
        poll_count: 1,
        total_share,
        total_deposit: 100,
        total_unbondings: 0,
        total_airdrop_count: 0,
        airdrop_update_candidates: vec![],
    }
}

#[test]
fn create_opens_a_poll() {
    let storage = ledger_with_poll();
    assert_eq!(storage.state.poll_count, 1);
    assert_eq!(storage.state.total_deposit, 100);
    assert_eq!(storage.polls.len(), 1);
    let poll = &storage.polls[0];
    assert_eq!(poll.id, 0);
    assert_eq!(poll.creator, CAROL);
    assert_eq!(poll.status, PollStatus::InProgress);
    assert_eq!(poll.end_height, 110);
    assert_eq!((poll.yes_votes, poll.no_votes), (0, 0));
    assert_eq!(poll.deposit_amount, 100);
    assert_eq!(poll.category, PollCategory::Gateway);
    assert_eq!(poll.staked_amount, None);
    assert_eq!(poll.total_balance_at_end_poll, None);
    assert_eq!(poll.link, Some("https://example".to_string()));
}

#[test]
fn create_is_refused() {
    let mut storage = ledger();
    let before = storage.clone();
    let attempt = |storage: &mut Storage, height: u64, deposit: u128| {
        create(storage, &env(height), CAROL.to_string(), deposit, "t".to_string(), PollCategory::Core, "d".to_string(), None, None)
    };
    assert_eq!(attempt(&mut storage, 10, 99), Err(ContractError::InsufficientProposalDeposit));
    assert_eq!(storage, before);
    storage.state.total_deposit = u128::MAX;
    assert_eq!(attempt(&mut storage, 10, 100), Err(ContractError::Overflow));
    storage.state.total_deposit = 0;
    storage.config.voting_period = u64::MAX;
    assert_eq!(attempt(&mut storage, 10, 100), Err(ContractError::Overflow));
    storage.config.voting_period = 100;
    // a larger deposit than asked for is taken as it is
    attempt(&mut storage, 10, 150).unwrap();
    assert_eq!(storage.polls[0].deposit_amount, 150);
    assert_eq!(storage.state.total_deposit, 150);
    // ids go up by one
    attempt(&mut storage, 11, 100).unwrap();
    assert_eq!(storage.polls[1].id, 1);
    assert_eq!(storage.state.poll_count, 2);
}

#[test]
fn a_poll_passes_and_is_executed() {
    let mut storage = ledger_with_poll();
    cast_vote(&mut storage, &env(20), &from(ALICE), 0, VoteOption::Yes, 1000, 1600).unwrap();
    cast_vote(&mut storage, &env(110), &from(BOB), 0, VoteOption::Yes, 500, 1600).unwrap();
    assert_eq!(storage.polls[0].yes_votes, 1500);
    assert_eq!(storage.polls[0].no_votes, 0);

    // not before the voting period is over
    assert_eq!(end(&mut storage, &env(110), 0, 1600), Err(ContractError::PollVotingPeriod));
    let response = end(&mut storage, &env(111), 0, 1600).unwrap();
    assert_eq!(storage.polls[0].status, PollStatus::Passed);
    assert_eq!(storage.polls[0].staked_amount, Some(1500));
    assert_eq!(storage.polls[0].total_balance_at_end_poll, Some(1500));
    assert_eq!(storage.state.total_deposit, 0);
    // the deposit goes back to the creator
    assert_eq!(
        response.messages,
        vec![Message::Transfer { token: TOKEN.to_string(), recipient: CAROL.to_string(), amount: 100 }]
    );
    // it ends once
    assert_eq!(end(&mut storage, &env(112), 0, 1500), Err(ContractError::PollNotInProgress));

    // not before the timelock has passed: 110 + 50
    assert_eq!(execute(&mut storage, &env(159), 0), Err(ContractError::TimelockNotExpired));
    assert_eq!(storage.polls[0].status, PollStatus::Passed);
    let response = execute(&mut storage, &env(160), 0).unwrap();
    assert_eq!(storage.polls[0].status, PollStatus::Executed);
    assert_eq!(storage.tmp_poll_id, Some(0));
    assert_eq!(
        response.messages,
        vec![Message::ExecuteWithReply {
            msg: ExecuteMsg::Poll(PollMsg::ExecuteMsgs { poll_id: 0 }),
            reply_id: POLL_EXECUTE_REPLY_ID,
        }]
    );
    assert_eq!(execute(&mut storage, &env(161), 0), Err(ContractError::PollNotPassed));

    // the operations run by their order, and by their place where it is the same
    assert_eq!(
        execute_messages(&storage, &env(160), &from(ALICE), 0),
        Err(ContractError::Unauthorized)
    );
    let response = execute_messages(&storage, &env(160), &from(CONTRACT), 0).unwrap();
    assert_eq!(
        response.messages,
        vec![
            Message::Call { contract: "first".to_string(), msg: vec![1, 1] },
            Message::Call { contract: "second".to_string(), msg: vec![2] },
            Message::Call { contract: "third".to_string(), msg: vec![] },
        ]
    );

    // the host reports that they failed
    assert_eq!(reply(&mut storage, 2), Err(ContractError::InvalidReplyId));
    reply(&mut storage, POLL_EXECUTE_REPLY_ID).unwrap();
    assert_eq!(storage.polls[0].status, PollStatus::Failed);
    // nothing follows
    assert_eq!(reply(&mut storage, POLL_EXECUTE_REPLY_ID), Err(ContractError::PollNotExecuted));
    assert_eq!(fail(&mut storage, 0), Err(ContractError::PollNotExecuted));
    assert_eq!(execute(&mut storage, &env(500), 0), Err(ContractError::PollNotPassed));
    assert_eq!(end(&mut storage, &env(500), 0, 1500), Err(ContractError::PollNotInProgress));
}

#[test]
fn reply_without_a_poll_under_way() {
    let mut storage = ledger_with_poll();
    assert_eq!(reply(&mut storage, POLL_EXECUTE_REPLY_ID), Err(ContractError::PollNotFound));
    storage.tmp_poll_id = Some(0);
    assert_eq!(reply(&mut storage, POLL_EXECUTE_REPLY_ID), Err(ContractError::PollNotExecuted));
    storage.tmp_poll_id = Some(7);
    assert_eq!(reply(&mut storage, POLL_EXECUTE_REPLY_ID), Err(ContractError::PollNotFound));
}

#[test]
fn a_poll_without_votes_is_rejected() {
    let mut storage = ledger_with_poll();
    // even where no quorum is asked for
    storage.config.quorum = Decimal::zero();
    storage.config.threshold = Decimal::zero();
    let response = end(&mut storage, &env(111), 0, 1600).unwrap();
    assert_eq!(storage.polls[0].status, PollStatus::Rejected);
    // the deposit is forfeited
    assert!(response.messages.is_empty());
    assert_eq!(storage.state.total_deposit, 0);
    assert_eq!(execute(&mut storage, &env(1000), 0), Err(ContractError::PollNotPassed));
}

#[test]
fn end_measures_quorum_and_threshold() {
    let config = config(); // quorum 10 %, threshold 50 %
    let outcome = |yes: u128, no: u128, total_share: u128| {
        let mut poll = poll(yes, no);
        let mut state = state(total_share);
        pylon_gov::gov::poll::end(&mut poll, &mut state, &config, 5000, 111).map(|end| (end, poll.status))
    };
    let passed = PollEnd { status: PollStatus::Passed, quorum_met: true, refund: 100 };
    let rejected = PollEnd { status: PollStatus::Rejected, quorum_met: true, refund: 100 };
    let no_quorum = PollEnd { status: PollStatus::Rejected, quorum_met: false, refund: 0 };
    // 99 of 1000 voted: below the quorum
    assert_eq!(outcome(99, 0, 1000), Ok((no_quorum, PollStatus::Rejected)));
    // 100 of 1000 voted: the quorum is reached
    assert_eq!(outcome(100, 0, 1000), Ok((passed, PollStatus::Passed)));
    // half of the votes are yes: the threshold is reached
    assert_eq!(outcome(50, 50, 1000), Ok((passed, PollStatus::Passed)));
    // one less is not enough
    assert_eq!(outcome(49, 51, 1000), Ok((rejected, PollStatus::Rejected)));
    assert_eq!(outcome(0, 500, 1000), Ok((rejected, PollStatus::Rejected)));
    // nobody voted
    assert_eq!(outcome(0, 0, 1000), Ok((no_quorum, PollStatus::Rejected)));
    // nothing staked counts as no turnout
    assert_eq!(outcome(10, 0, 0), Ok((no_quorum, PollStatus::Rejected)));
    // a turnout beyond every decimal still counts as reached
    assert_eq!(outcome(u128::MAX, 0, 1), Ok((passed, PollStatus::Passed)));
    // the tally does not fit
    assert_eq!(outcome(u128::MAX, 1, 1000), Err(ContractError::Overflow));
}

#[test]
fn end_measures_against_the_snapshot() {
    let config = config();
    let mut poll = poll(150, 0);
    poll.staked_amount = Some(1000);
    poll.total_balance_at_end_poll = Some(1234);
    // the total share has grown tenfold since the snapshot: 150 of 1000 is enough
    let mut state = state(10_000);
    let outcome = pylon_gov::gov::poll::end(&mut poll, &mut state, &config, 5000, 111).unwrap();
    assert_eq!(outcome.status, PollStatus::Passed);
    assert_eq!(poll.staked_amount, Some(1000));
    assert_eq!(poll.total_balance_at_end_poll, Some(1234));
    assert_eq!(state.total_deposit, 0);
    // without the snapshot it is not
    let mut poll = self::poll(150, 0);
    let mut state = self::state(10_000);
    let outcome = pylon_gov::gov::poll::end(&mut poll, &mut state, &config, 5000, 111).unwrap();
    assert_eq!(outcome, PollEnd { status: PollStatus::Rejected, quorum_met: false, refund: 0 });
    assert_eq!(poll.staked_amount, Some(10_000));
    assert_eq!(poll.total_balance_at_end_poll, Some(4900));
}

#[test]
fn end_is_refused() {
    let mut storage = ledger_with_poll();
    let before = storage.clone();
    assert_eq!(end(&mut storage, &env(111), 1, 1600), Err(ContractError::PollNotFound));
    assert_eq!(end(&mut storage, &env(10), 0, 1600), Err(ContractError::PollVotingPeriod));
    assert_eq!(end(&mut storage, &env(110), 0, 1600), Err(ContractError::PollVotingPeriod));
    // the ledger holds less than the deposits
    assert_eq!(end(&mut storage, &env(111), 0, 99), Err(ContractError::Underflow));
    assert_eq!(storage, before);
}

#[test]
fn votes_are_bounded_by_the_balance() {
    let mut storage = ledger_with_poll();
    let before = storage.clone();
    assert_eq!(
        cast_vote(&mut storage, &env(20), &from(ALICE), 0, VoteOption::Yes, 1001, 1600),
        Err(ContractError::InsufficientStaked)
    );
    assert_eq!(
        cast_vote(&mut storage, &env(20), &from(ALICE), 1, VoteOption::Yes, 1, 1600),
        Err(ContractError::PollNotFound)
    );
    assert_eq!(
        cast_vote(&mut storage, &env(20), &from(CAROL), 0, VoteOption::Yes, 1, 1600),
        Err(ContractError::NothingStaked)
    );
    // voting closes after the end height
    assert_eq!(
        cast_vote(&mut storage, &env(111), &from(ALICE), 0, VoteOption::Yes, 1, 1600),
        Err(ContractError::PollNotInProgress)
    );
    assert_eq!(storage, before);
    // the shares are worth twice as much once the pool has doubled
    cast_vote(&mut storage, &env(20), &from(ALICE), 0, VoteOption::No, 2000, 3100).unwrap();
    assert_eq!(storage.polls[0].no_votes, 2000);
    assert_eq!(
        storage.bank[0].manager.locked_balance,
        vec![(0, VoterInfo { vote: VoteOption::No, balance: 2000 })]
    );
}

#[test]
fn a_second_vote_has_to_be_larger_and_replaces_the_first() {
    let mut storage = ledger_with_poll();
    cast_vote(&mut storage, &env(20), &from(ALICE), 0, VoteOption::Yes, 400, 1600).unwrap();
    cast_vote(&mut storage, &env(20), &from(BOB), 0, VoteOption::No, 100, 1600).unwrap();
    assert_eq!(
        cast_vote(&mut storage, &env(21), &from(ALICE), 0, VoteOption::Yes, 400, 1600),
        Err(ContractError::AlreadyVoted)
    );
    assert_eq!(
        cast_vote(&mut storage, &env(21), &from(ALICE), 0, VoteOption::No, 399, 1600),
        Err(ContractError::AlreadyVoted)
    );
    assert_eq!((storage.polls[0].yes_votes, storage.polls[0].no_votes), (400, 100));
    // topping up on the same side
    cast_vote(&mut storage, &env(22), &from(ALICE), 0, VoteOption::Yes, 600, 1600).unwrap();
    assert_eq!((storage.polls[0].yes_votes, storage.polls[0].no_votes), (600, 100));
    // topping up and changing sides
    cast_vote(&mut storage, &env(23), &from(ALICE), 0, VoteOption::No, 1000, 1600).unwrap();
    assert_eq!((storage.polls[0].yes_votes, storage.polls[0].no_votes), (0, 1100));
    assert_eq!(
        storage.bank[0].manager.locked_balance,
        vec![(0, VoterInfo { vote: VoteOption::No, balance: 1000 })]
    );
}

#[test]
fn vote_on_records() {
    let mut poll = poll(10, 20);
    let state = state(100);
    let mut manager = TokenManager { share: 50, latest_claim_id: 0, last_unlocked_claim_id: 0, locked_balance: vec![] };
    // balance 300 - 100 = 200 for 100 shares: 50 shares are worth 100
    assert_eq!(
        pylon_gov::gov::poll::cast_vote(&mut poll, &mut manager, &state, 300, 110, VoteOption::Yes, 101),
        Err(ContractError::InsufficientStaked)
    );
    assert_eq!(
        pylon_gov::gov::poll::cast_vote(&mut poll, &mut manager, &state, 99, 110, VoteOption::Yes, 1),
        Err(ContractError::Underflow)
    );
    assert_eq!(
        pylon_gov::gov::poll::cast_vote(&mut poll, &mut manager, &state, 300, 110, VoteOption::Yes, 100),
        Ok(())
    );
    assert_eq!((poll.yes_votes, poll.no_votes), (110, 20));
    assert_eq!(manager.locked_balance, vec![(0, VoterInfo { vote: VoteOption::Yes, balance: 100 })]);
    // a tally that does not hold the earlier vote cannot give it back
    let mut poll = self::poll(5, 0);
    let mut manager = TokenManager {
        share: 50,
        latest_claim_id: 0,
        last_unlocked_claim_id: 0,
        locked_balance: vec![(0, VoterInfo { vote: VoteOption::Yes, balance: 10 })],
    };
    assert_eq!(
        pylon_gov::gov::poll::cast_vote(&mut poll, &mut manager, &state, 300, 110, VoteOption::Yes, 11),
        Err(ContractError::Underflow)
    );
    // a tally at its limit takes no more
    let mut poll = self::poll(u128::MAX, 0);
    let mut manager = TokenManager { share: 50, latest_claim_id: 0, last_unlocked_claim_id: 0, locked_balance: vec![] };
    assert_eq!(
        pylon_gov::gov::poll::cast_vote(&mut poll, &mut manager, &state, 300, 110, VoteOption::Yes, 1),
        Err(ContractError::Overflow)
    );
}

#[test]
fn snapshot_once_within_its_window() {
    let mut storage = ledger_with_poll();
    let before = storage.clone();
    // the window opens ten blocks before the end at 110
    assert_eq!(snapshot(&mut storage, &env(99), &from(ALICE), 0, 1600), Err(ContractError::SnapshotHeight));
    assert_eq!(snapshot(&mut storage, &env(111), &from(ALICE), 0, 1600), Err(ContractError::SnapshotHeight));
    assert_eq!(snapshot(&mut storage, &env(100), &from(ALICE), 1, 1600), Err(ContractError::PollNotFound));
    assert_eq!(snapshot(&mut storage, &env(100), &from(ALICE), 0, 99), Err(ContractError::Underflow));
    assert_eq!(storage, before);
    snapshot(&mut storage, &env(100), &from(ALICE), 0, 1600).unwrap();
    assert_eq!(storage.polls[0].staked_amount, Some(1500));
    assert_eq!(storage.polls[0].total_balance_at_end_poll, Some(1500));
    assert_eq!(storage.polls[0].status, PollStatus::InProgress);
    assert_eq!(
        snapshot(&mut storage, &env(101), &from(ALICE), 0, 1600),
        Err(ContractError::SnapshotAlreadyOccurred)
    );
    // a stake after the snapshot does not dilute the quorum
    stake_voting_tokens(&mut storage, &env(102), &from(CONTRACT), CAROL.to_string(), 100_000, 101_600).unwrap();
    cast_vote(&mut storage, &env(103), &from(BOB), 0, VoteOption::Yes, 150, 101_600).unwrap();
    end(&mut storage, &env(111), 0, 101_600).unwrap();
    assert_eq!(storage.polls[0].status, PollStatus::Passed);
    assert_eq!(snapshot(&mut storage, &env(105), &from(ALICE), 0, 1600), Err(ContractError::PollNotInProgress));
}

#[test]
fn execution_order_is_by_order_then_place() {
    let item = |order: u64| PollExecuteMsg { order, contract: "c".to_string(), msg: vec![] };
    assert_eq!(execution_order(&vec![]), Vec::<usize>::new());
    assert_eq!(execution_order(&vec![item(5)]), vec![0]);
    assert_eq!(execution_order(&vec![item(3), item(1), item(2)]), vec![1, 2, 0]);
    assert_eq!(execution_order(&vec![item(2), item(1), item(2), item(1), item(0)]), vec![4, 1, 3, 0, 2]);
    assert_eq!(execution_order(&vec![item(1), item(1), item(1)]), vec![0, 1, 2]);
}

#[test]
fn status_names() {
    assert_eq!(PollStatus::InProgress.to_string(), "InProgress");
    assert_eq!(PollStatus::Passed.to_string(), "Passed");
    assert_eq!(PollStatus::Rejected.to_string(), "Rejected");
    assert_eq!(PollStatus::Executed.to_string(), "Executed");
    assert_eq!(PollStatus::Expired.to_string(), "Expired");
    assert_eq!(PollStatus::Failed.to_string(), "Failed");
    assert_eq!(PollCategory::Core.to_string(), "Core");
    assert_eq!(PollCategory::Gateway.to_string(), "Gateway");
    assert_eq!(PollCategory::Uncategorized.to_string(), "None");
    assert_eq!(VoteOption::Yes.to_string(), "yes");
    assert_eq!(VoteOption::No.to_string(), "no");
}
