use pylon_gov::common::{AttributeValue, BlockInfo};
use pylon_gov::error::ContractError;
use pylon_gov::gov::executions::instantiate;
use pylon_gov::gov::executions::poll::{cast_vote, create, end};
use pylon_gov::gov::executions::staking::{
    send_tokens, stake_voting_tokens, unlock_voting_tokens, withdraw_voting_tokens,
};
use pylon_gov::gov::msg::{
    Env, InstantiateMsg, Message, MessageInfo, PollCategory, PollStatus, VoteOption, VoterInfo,
};
use pylon_gov::gov::staking::{compute_locked_balance, scan_locks, stake, unlock, withdraw};
use pylon_gov::gov::states::{Poll, State, Storage, TokenClaim, TokenManager};
use pylon_gov::math::Decimal;

const CONTRACT: &str = "gov";
const TOKEN: &str = "token";
const OWNER: &str = "owner";
const ALICE: &str = "alice";
const BOB: &str = "bob";

fn env(height: u64, time: u64) -> Env {
    Env { block: BlockInfo { height, time }, contract_address: CONTRACT.to_string() }
}

fn from(sender: &str) -> MessageInfo {
    MessageInfo { sender: sender.to_string() }
}

fn ledger() -> Storage {
    instantiate(
        &env(1, 1),
        &from(OWNER),
        InstantiateMsg {
            voting_token: TOKEN.to_string(),
            quorum: Decimal::percent(10),
            threshold: Decimal::percent(50),
            voting_period: 100,
            timelock_period: 50,
            proposal_deposit: 100,
            snapshot_period: 10,
            unstaking_period: 1000,
        },
    )
    .unwrap()
}

fn sum_of_shares(storage: &Storage) -> u128 {
    storage.bank.iter().map(|s| s.manager.share).sum()
}

fn share_of(storage: &Storage, address: &str) -> u128 {
    storage.bank.iter().find(|s| s.address == address).map(|s| s.manager.share).unwrap_or(0)
}

fn blank_state() -> State {
    State {
        poll_count: 0,
        total_share: 0,
        total_deposit: 0,
        total_unbondings: 0,
        total_airdrop_count: 0,
        airdrop_update_candidates: vec![],
    }
}

fn poll_with_status(id: u64, status: PollStatus) -> Poll {
    Poll {
        id,
        creator: OWNER.to_string(),
        status,
        yes_votes: 0,
        no_votes: 0,
        end_height: 100,
        title: "t".to_string(),
        category: PollCategory::Core,
        description: "d".to_string(),
        link: None,
        execute_data: None,
        deposit_amount: 0,
        total_balance_at_end_poll: None,
        staked_amount: None,
    }
}

#[test]
fn empty_pool_mints_one_share_per_token() {
    let mut storage = ledger();
    let response =
        stake_voting_tokens(&mut storage, &env(2, 2), &from(CONTRACT), ALICE.to_string(), 1000, 1000).unwrap();
    assert_eq!(share_of(&storage, ALICE), 1000);
    assert_eq!(storage.state.total_share, 1000);
    assert_eq!(response.attributes[2].value, AttributeValue::Number(1000));
    assert_eq!(response.attributes[3].value, AttributeValue::Number(1000));
    assert!(response.messages.is_empty());
}

#[test]
fn deposit_mints_at_the_pool_ratio() {
    // total_share = 1000 over a redeemable balance of 2000: 500 tokens mint 250 shares
    let mut storage = ledger();
    stake_voting_tokens(&mut storage, &env(2, 2), &from(CONTRACT), ALICE.to_string(), 1000, 1000).unwrap();
    // the pool has earned 1000 tokens, and 500 arrive with the deposit
    stake_voting_tokens(&mut storage, &env(3, 3), &from(CONTRACT), BOB.to_string(), 500, 2500).unwrap();
    assert_eq!(share_of(&storage, BOB), 250);
    assert_eq!(storage.state.total_share, 1250);
    assert_eq!(sum_of_shares(&storage), storage.state.total_share);
}

#[test]
fn stake_on_records() {
    let mut state = State { total_share: 1000, total_deposit: 100, ..blank_state() };
    let mut manager = TokenManager::new();
    // balance before the deposit: 2600 - 100 - 500 = 2000
    assert_eq!(stake(&mut state, &mut manager, 2600, 500), Ok(250));
    assert_eq!(manager.share, 250);
    assert_eq!(state.total_share, 1250);
    assert_eq!(state.total_deposit, 100);
}

#[test]
fn stake_with_shares_but_no_balance_mints_one_for_one() {
    let mut state = State { total_share: 1000, ..blank_state() };
    let mut manager = TokenManager::new();
    assert_eq!(stake(&mut state, &mut manager, 7, 7), Ok(7));
    assert_eq!(state.total_share, 1007);
}

#[test]
fn stake_is_refused() {
    let mut storage = ledger();
    let before = storage.clone();
    assert_eq!(
        stake_voting_tokens(&mut storage, &env(2, 2), &from(ALICE), ALICE.to_string(), 1000, 1000),
        Err(ContractError::Unauthorized)
    );
    assert_eq!(
        stake_voting_tokens(&mut storage, &env(2, 2), &from(CONTRACT), ALICE.to_string(), 0, 1000),
        Err(ContractError::InsufficientFunds)
    );
    // the ledger holds less than the deposit
    assert_eq!(
        stake_voting_tokens(&mut storage, &env(2, 2), &from(CONTRACT), ALICE.to_string(), 1000, 999),
        Err(ContractError::Underflow)
    );
    assert_eq!(storage, before);
}

#[test]
fn stake_overflow_is_reported() {
    let mut state = State { total_share: u128::MAX, ..blank_state() };
    let mut manager = TokenManager::new();
    assert_eq!(stake(&mut state, &mut manager, 10, 10), Err(ContractError::Overflow));
    assert_eq!(state.total_share, u128::MAX);
    assert_eq!(manager.share, 0);
    let mut state = State { total_deposit: u128::MAX, ..blank_state() };
    assert_eq!(stake(&mut state, &mut manager, 10, 10), Err(ContractError::Overflow));
    // the ratio itself does not fit: 2 * MAX / 1
    let mut state = State { total_share: u128::MAX, ..blank_state() };
    assert_eq!(stake(&mut state, &mut manager, 3, 2), Err(ContractError::Overflow));
}

#[test]
fn total_share_is_the_sum_of_shares_after_every_command() {
    let mut storage = ledger();
    let contract = from(CONTRACT);
    stake_voting_tokens(&mut storage, &env(2, 2), &contract, ALICE.to_string(), 1000, 1000).unwrap();
    assert_eq!(sum_of_shares(&storage), storage.state.total_share);
    stake_voting_tokens(&mut storage, &env(3, 3), &contract, BOB.to_string(), 333, 1500).unwrap();
    assert_eq!(sum_of_shares(&storage), storage.state.total_share);
    stake_voting_tokens(&mut storage, &env(4, 4), &contract, ALICE.to_string(), 77, 1577).unwrap();
    assert_eq!(sum_of_shares(&storage), storage.state.total_share);
    withdraw_voting_tokens(&mut storage, &env(5, 5), &contract, BOB.to_string(), Some(100), 1577).unwrap();
    assert_eq!(sum_of_shares(&storage), storage.state.total_share);
    withdraw_voting_tokens(&mut storage, &env(6, 6), &contract, ALICE.to_string(), None, 1577).unwrap();
    assert_eq!(sum_of_shares(&storage), storage.state.total_share);
    assert_eq!(share_of(&storage, ALICE), 0);
    unlock_voting_tokens(&mut storage, &env(2000, 2000), &from(ALICE), None).unwrap();
    assert_eq!(sum_of_shares(&storage), storage.state.total_share);
    // a refused command leaves the sum alone as well
    let before = storage.clone();
    assert!(withdraw_voting_tokens(&mut storage, &env(7, 7), &contract, ALICE.to_string(), None, 1577).is_err());
    assert_eq!(storage, before);
}

#[test]
fn round_trip_gives_the_deposit_back() {
    // empty pool: exact
    let mut storage = ledger();
    let contract = from(CONTRACT);
    stake_voting_tokens(&mut storage, &env(2, 2), &contract, ALICE.to_string(), 1000, 1000).unwrap();
    withdraw_voting_tokens(&mut storage, &env(2, 2), &contract, ALICE.to_string(), None, 1000).unwrap();
    assert_eq!(storage.bank[0].claims, vec![(0, TokenClaim { time: 1002, amount: 1000 })]);

    // a pool at the ratio 3:7 shares to tokens: short by rounding only
    let mut storage = ledger();
    stake_voting_tokens(&mut storage, &env(2, 2), &contract, ALICE.to_string(), 3, 3).unwrap();
    // the pool now holds 7 tokens for 3 shares, and 10 arrive
    stake_voting_tokens(&mut storage, &env(3, 3), &contract, BOB.to_string(), 10, 17).unwrap();
    assert_eq!(share_of(&storage, BOB), 4); // 10 * 3 / 7
    withdraw_voting_tokens(&mut storage, &env(3, 3), &contract, BOB.to_string(), None, 17).unwrap();
    // 4 * 17 / 7 = 9: one token short of 10, less than the worth of one share plus one
    assert_eq!(storage.bank[1].claims, vec![(0, TokenClaim { time: 1003, amount: 9 })]);
}

#[test]
fn withdraw_of_an_amount_burns_its_worth_in_shares() {
    let mut storage = ledger();
    let contract = from(CONTRACT);
    stake_voting_tokens(&mut storage, &env(2, 2), &contract, ALICE.to_string(), 1000, 1000).unwrap();
    // the pool has doubled: 2000 tokens for 1000 shares
    let response =
        withdraw_voting_tokens(&mut storage, &env(5, 50), &contract, ALICE.to_string(), Some(500), 2000).unwrap();
    assert_eq!(share_of(&storage, ALICE), 750);
    assert_eq!(storage.state.total_share, 750);
    assert_eq!(storage.state.total_unbondings, 500);
    assert_eq!(storage.bank[0].manager.latest_claim_id, 1);
    assert_eq!(storage.bank[0].claims, vec![(0, TokenClaim { time: 1050, amount: 500 })]);
    assert_eq!(response.attributes[1].value, AttributeValue::Number(500));
    assert_eq!(response.attributes[2].value, AttributeValue::Number(0));
    assert!(response.messages.is_empty());
    // a request that is worth less than one share burns one share
    withdraw_voting_tokens(&mut storage, &env(5, 50), &contract, ALICE.to_string(), Some(1), 2000).unwrap();
    assert_eq!(share_of(&storage, ALICE), 749);
    assert_eq!(storage.bank[0].claims[1], (1, TokenClaim { time: 1050, amount: 1 }));
}

#[test]
fn withdraw_is_refused() {
    let mut storage = ledger();
    let contract = from(CONTRACT);
    assert_eq!(
        withdraw_voting_tokens(&mut storage, &env(2, 2), &contract, ALICE.to_string(), None, 0),
        Err(ContractError::NothingStaked)
    );
    stake_voting_tokens(&mut storage, &env(2, 2), &contract, ALICE.to_string(), 1000, 1000).unwrap();
    assert_eq!(
        withdraw_voting_tokens(&mut storage, &env(2, 2), &from(ALICE), ALICE.to_string(), None, 1000),
        Err(ContractError::Unauthorized)
    );
    assert_eq!(
        withdraw_voting_tokens(&mut storage, &env(2, 2), &contract, ALICE.to_string(), Some(1001), 1000),
        Err(ContractError::InvalidWithdrawAmount)
    );
    // shares without a balance behind them cannot be priced
    assert_eq!(
        withdraw_voting_tokens(&mut storage, &env(2, 2), &contract, ALICE.to_string(), None, 0),
        Err(ContractError::DivideByZero)
    );
    // a staker with a record and no share
    withdraw_voting_tokens(&mut storage, &env(2, 2), &contract, ALICE.to_string(), None, 1000).unwrap();
    assert_eq!(
        withdraw_voting_tokens(&mut storage, &env(2, 2), &contract, ALICE.to_string(), None, 1000),
        Err(ContractError::NothingStaked)
    );
    // the time of maturity does not fit
    stake_voting_tokens(&mut storage, &env(3, 3), &contract, BOB.to_string(), 10, 1010).unwrap();
    assert_eq!(
        withdraw_voting_tokens(&mut storage, &env(3, u64::MAX), &contract, BOB.to_string(), None, 1010),
        Err(ContractError::Overflow)
    );
}

#[test]
fn votes_in_two_polls_lock_once() {
    let mut storage = ledger();
    let contract = from(CONTRACT);
    stake_voting_tokens(&mut storage, &env(2, 2), &contract, ALICE.to_string(), 1000, 1000).unwrap();
    // two polls, each with a deposit of 100
    create(&mut storage, &env(10, 10), OWNER.to_string(), 100, "one".to_string(), PollCategory::Core, "first".to_string(), None, None).unwrap();
    create(&mut storage, &env(10, 10), OWNER.to_string(), 100, "two".to_string(), PollCategory::Core, "second".to_string(), None, None).unwrap();
    // the full balance goes to both
    cast_vote(&mut storage, &env(11, 11), &from(ALICE), 0, VoteOption::Yes, 1000, 1200).unwrap();
    cast_vote(&mut storage, &env(11, 11), &from(ALICE), 1, VoteOption::No, 1000, 1200).unwrap();
    assert_eq!(storage.bank[0].manager.locked_balance.len(), 2);

    let before = storage.clone();
    assert_eq!(
        withdraw_voting_tokens(&mut storage, &env(12, 12), &contract, ALICE.to_string(), Some(1000), 1200),
        Err(ContractError::InvalidWithdrawAmount)
    );
    assert_eq!(storage, before);
    // everything that is not locked: nothing, but the request stands
    withdraw_voting_tokens(&mut storage, &env(12, 12), &contract, ALICE.to_string(), None, 1200).unwrap();
    assert_eq!(storage.bank[0].claims, vec![(0, TokenClaim { time: 1012, amount: 0 })]);
    assert_eq!(share_of(&storage, ALICE), 1000);
}

#[test]
fn the_lock_is_the_largest_vote_not_the_sum() {
    let mut storage = ledger();
    let contract = from(CONTRACT);
    stake_voting_tokens(&mut storage, &env(2, 2), &contract, ALICE.to_string(), 1000, 1000).unwrap();
    create(&mut storage, &env(10, 10), OWNER.to_string(), 100, "one".to_string(), PollCategory::Core, "first".to_string(), None, None).unwrap();
    create(&mut storage, &env(10, 10), OWNER.to_string(), 100, "two".to_string(), PollCategory::Core, "second".to_string(), None, None).unwrap();
    cast_vote(&mut storage, &env(11, 11), &from(ALICE), 0, VoteOption::Yes, 400, 1200).unwrap();
    cast_vote(&mut storage, &env(11, 11), &from(ALICE), 1, VoteOption::Yes, 700, 1200).unwrap();
    // 700 are locked, not 1100: 300 can go, 301 cannot
    assert_eq!(
        withdraw_voting_tokens(&mut storage, &env(12, 12), &contract, ALICE.to_string(), Some(301), 1200),
        Err(ContractError::InvalidWithdrawAmount)
    );
    withdraw_voting_tokens(&mut storage, &env(12, 12), &contract, ALICE.to_string(), Some(300), 1200).unwrap();
    assert_eq!(share_of(&storage, ALICE), 700);
    assert_eq!(storage.bank[0].claims, vec![(0, TokenClaim { time: 1012, amount: 300 })]);
    // once the second poll has ended, 400 stay locked; its deposit has left
    // escrow, and the pool holds 700 tokens for 700 shares beside the deposit
    // of the first poll
    end(&mut storage, &env(111, 111), 1, 900).unwrap();
    withdraw_voting_tokens(&mut storage, &env(112, 112), &contract, ALICE.to_string(), None, 800).unwrap();
    assert_eq!(share_of(&storage, ALICE), 400);
    // and the lock on the ended poll is gone from the staker's record
    assert_eq!(
        storage.bank[0].manager.locked_balance,
        vec![(0, VoterInfo { vote: VoteOption::Yes, balance: 400 })]
    );
}

#[test]
fn locks_on_ended_polls_are_dropped() {
    let polls = vec![
        poll_with_status(0, PollStatus::InProgress),
        poll_with_status(1, PollStatus::Passed),
        poll_with_status(2, PollStatus::InProgress),
        poll_with_status(3, PollStatus::Rejected),
    ];
    let yes = |balance| VoterInfo { vote: VoteOption::Yes, balance };
    let mut manager = TokenManager {
        share: 10,
        latest_claim_id: 0,
        last_unlocked_claim_id: 0,
        locked_balance: vec![(1, yes(90)), (0, yes(5)), (3, yes(70)), (2, yes(8)), (9, yes(99))],
    };
    let scan = scan_locks(&polls, &manager.locked_balance);
    assert_eq!(scan.locked, 8);
    assert_eq!(scan.live, vec![(0, yes(5)), (2, yes(8))]);
    assert_eq!(scan.ended, vec![1, 3, 9]);
    let (locked, ended) = compute_locked_balance(&polls, &mut manager);
    assert_eq!(locked, 8);
    assert_eq!(ended, vec![1, 3, 9]);
    assert_eq!(manager.locked_balance, vec![(0, yes(5)), (2, yes(8))]);
    assert_eq!(manager.share, 10);
    // nothing locked
    let mut manager = TokenManager::new();
    assert_eq!(compute_locked_balance(&polls, &mut manager), (0, vec![]));
}

#[test]
fn withdraw_on_records_with_a_lock() {
    let polls = vec![poll_with_status(0, PollStatus::InProgress)];
    let mut state = State { total_share: 100, total_deposit: 10, ..blank_state() };
    let mut manager = TokenManager {
        share: 50,
        latest_claim_id: 3,
        last_unlocked_claim_id: 1,
        locked_balance: vec![(0, VoterInfo { vote: VoteOption::No, balance: 40 })],
    };
    // balance 210 - 10 = 200: the lock of 40 tokens is 20 shares, so 30 of
    // the 50 shares can go; 62 tokens are 31 shares, 61 tokens are 30
    assert_eq!(
        withdraw(&mut state, &mut manager, &polls, 210, 500, 60, Some(62)),
        Err(ContractError::InvalidWithdrawAmount)
    );
    assert_eq!(state.total_share, 100);
    assert_eq!(manager.share, 50);
    assert_eq!(
        withdraw(&mut state, &mut manager, &polls, 210, 500, 60, Some(61)),
        Ok((3, TokenClaim { time: 560, amount: 61 }))
    );
    assert_eq!(manager.share, 20);
    assert_eq!(manager.latest_claim_id, 4);
    assert_eq!(manager.last_unlocked_claim_id, 1);
    assert_eq!(state.total_share, 70);
    assert_eq!(state.total_unbondings, 61);
}

#[test]
fn unlock_is_first_in_first_out() {
    let mut state = State { total_unbondings: 600, ..blank_state() };
    let mut manager = TokenManager { share: 0, latest_claim_id: 4, last_unlocked_claim_id: 0, locked_balance: vec![] };
    let mut claims = vec![
        (0, TokenClaim { time: 10, amount: 100 }),
        (1, TokenClaim { time: 20, amount: 200 }),
        (2, TokenClaim { time: 99, amount: 50 }),
        (3, TokenClaim { time: 15, amount: 250 }),
    ];
    // the third claim has not matured: the fourth waits behind it although it has
    assert_eq!(unlock(&mut state, &mut manager, &mut claims, 30), Ok(300));
    assert_eq!(manager.last_unlocked_claim_id, 1);
    assert_eq!(manager.latest_claim_id, 4);
    assert_eq!(claims, vec![(2, TokenClaim { time: 99, amount: 50 }), (3, TokenClaim { time: 15, amount: 250 })]);
    assert_eq!(state.total_unbondings, 300);
    // nothing has matured: nothing changes
    assert_eq!(unlock(&mut state, &mut manager, &mut claims, 98), Ok(0));
    assert_eq!(manager.last_unlocked_claim_id, 1);
    assert_eq!(claims.len(), 2);
    assert_eq!(state.total_unbondings, 300);
    // a claim matures at its time, not before
    assert_eq!(unlock(&mut state, &mut manager, &mut claims, 99), Ok(300));
    assert_eq!(manager.last_unlocked_claim_id, 3);
    assert!(claims.is_empty());
    assert_eq!(state.total_unbondings, 0);
    assert!(manager.last_unlocked_claim_id <= manager.latest_claim_id);
}

#[test]
fn unlock_takes_a_hundred_claims_at_most() {
    let mut state = State { total_unbondings: 150, ..blank_state() };
    let mut manager = TokenManager { share: 0, latest_claim_id: 150, last_unlocked_claim_id: 0, locked_balance: vec![] };
    let mut claims: Vec<(u64, TokenClaim)> = (0..150).map(|id| (id, TokenClaim { time: 5, amount: 1 })).collect();
    assert_eq!(unlock(&mut state, &mut manager, &mut claims, 5), Ok(100));
    assert_eq!(manager.last_unlocked_claim_id, 99);
    assert_eq!(claims.len(), 50);
    assert_eq!(claims[0].0, 100);
    assert_eq!(unlock(&mut state, &mut manager, &mut claims, 5), Ok(50));
    assert_eq!(manager.last_unlocked_claim_id, 149);
}

#[test]
fn unlock_is_refused() {
    let mut state = blank_state();
    let mut manager = TokenManager::new();
    let mut claims = vec![];
    assert_eq!(unlock(&mut state, &mut manager, &mut claims, 5), Err(ContractError::Unauthorized));
    // more is unlocked than was noted as unbonding
    let mut manager = TokenManager { share: 0, latest_claim_id: 1, last_unlocked_claim_id: 0, locked_balance: vec![] };
    let mut claims = vec![(0, TokenClaim { time: 1, amount: 5 })];
    assert_eq!(unlock(&mut state, &mut manager, &mut claims, 5), Err(ContractError::Underflow));
    assert_eq!(claims.len(), 1);
    // the sum does not fit
    let mut manager = TokenManager { share: 0, latest_claim_id: 2, last_unlocked_claim_id: 0, locked_balance: vec![] };
    let mut claims = vec![(0, TokenClaim { time: 1, amount: u128::MAX }), (1, TokenClaim { time: 1, amount: 1 })];
    assert_eq!(unlock(&mut state, &mut manager, &mut claims, 5), Err(ContractError::Overflow));
    assert_eq!(claims.len(), 2);
    assert_eq!(manager.last_unlocked_claim_id, 0);
}

#[test]
fn unlock_on_the_ledger() {
    let mut storage = ledger();
    let contract = from(CONTRACT);
    stake_voting_tokens(&mut storage, &env(2, 2), &contract, ALICE.to_string(), 1000, 1000).unwrap();
    // never withdrew
    assert_eq!(unlock_voting_tokens(&mut storage, &env(3, 3), &from(ALICE), None), Err(ContractError::Unauthorized));
    // no record at all
    assert_eq!(unlock_voting_tokens(&mut storage, &env(3, 3), &from(BOB), None), Err(ContractError::Unauthorized));
    withdraw_voting_tokens(&mut storage, &env(5, 100), &contract, ALICE.to_string(), Some(300), 1000).unwrap();
    withdraw_voting_tokens(&mut storage, &env(6, 200), &contract, ALICE.to_string(), Some(200), 1000).unwrap();
    assert_eq!(storage.state.total_unbondings, 500);

    // nothing has matured: nothing changes, and nothing is transferred
    let before = storage.clone();
    let response = unlock_voting_tokens(&mut storage, &env(7, 1099), &from(ALICE), None).unwrap();
    assert_eq!(storage, before);
    assert_eq!(
        response.messages,
        vec![Message::Transfer { token: TOKEN.to_string(), recipient: ALICE.to_string(), amount: 0 }]
    );

    // the first claim matures at 1100; anybody may unlock for a staker
    let response = unlock_voting_tokens(&mut storage, &env(8, 1100), &from(BOB), Some(ALICE.to_string())).unwrap();
    assert_eq!(
        response.messages,
        vec![Message::Transfer { token: TOKEN.to_string(), recipient: ALICE.to_string(), amount: 300 }]
    );
    assert_eq!(storage.bank[0].manager.last_unlocked_claim_id, 0);
    assert_eq!(storage.bank[0].claims, vec![(1, TokenClaim { time: 1200, amount: 200 })]);
    assert_eq!(storage.state.total_unbondings, 200);

    let response = unlock_voting_tokens(&mut storage, &env(9, 5000), &from(ALICE), None).unwrap();
    assert_eq!(
        response.messages,
        vec![Message::Transfer { token: TOKEN.to_string(), recipient: ALICE.to_string(), amount: 200 }]
    );
    assert_eq!(storage.bank[0].manager.last_unlocked_claim_id, 1);
    assert_eq!(storage.bank[0].manager.latest_claim_id, 2);
    assert!(storage.bank[0].claims.is_empty());
    assert_eq!(storage.state.total_unbondings, 0);
}

#[test]
fn send_tokens_asks_for_one_transfer() {
    let response = send_tokens(&TOKEN.to_string(), &ALICE.to_string(), 42, "unlock");
    assert_eq!(
        response.messages,
        vec![Message::Transfer { token: TOKEN.to_string(), recipient: ALICE.to_string(), amount: 42 }]
    );
    assert_eq!(response.attributes.len(), 3);
    assert_eq!(response.attributes[0].value, AttributeValue::Text("unlock".to_string()));
    assert_eq!(response.attributes[1].value, AttributeValue::Text(ALICE.to_string()));
    assert_eq!(response.attributes[2].value, AttributeValue::Number(42));
}
