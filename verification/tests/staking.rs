use pylon_gov::error::ContractError;
use pylon_gov::math::Decimal;
use pylon_gov::staking::contract::{
    arrive, bond, bond_outcome, compute_reward, compute_staker_reward, decrease_bond_amount, execute,
    increase_bond_amount, instantiate, leave_legacy, migrate, migrate_staking, query, query_config,
    query_staker_info, query_state, receive_cw20, scheduled, slot_amount, slot_reward, truncate, unbond,
    unbond_outcome, withdraw, withdraw_outcome, LegacyExit, QueryResponse,
};
use pylon_gov::staking::msg::{
    Cw20HookMsg, Cw20ReceiveMsg, ExecuteMsg, InstantiateMsg, QueryMsg, StateResponse, Transfer,
};
use pylon_gov::staking::state::{
    current_version, fresh_state, read_config, read_staker_info, read_state, remove_staker_info,
    store_config, store_staker_info, store_state, stored_staker_info, upgrade_staker_info, ConfigV1, ConfigV2,
    StakerInfoV1, StakerInfoV2, StateV1, StateV2, Storage,
};

#[test]
fn migration_test() {
    let msg = InstantiateMsg {
        governance: "gov0000".to_string(),
        pylon_token: "reward0000".to_string(),
        staking_token: "staking0000".to_string(),
        distribution_schedule: vec![
            (3585500, 8491943, 750000000000000u128),
            (8491943, 13398386, 250000000000000u128),
            (13398386, 18304829, 250000000000000u128),
            (18304829, 23211272, 250000000000000u128),
        ],
    };

    let mut deps = instantiate(12_345, msg);

    execute(
        &mut deps,
        3585500u64,
        "staking0000".to_string(),
        ExecuteMsg::Receive(Cw20ReceiveMsg {
            sender: "addr0000".to_string(),
            amount: 1000u128,
            msg: Some(Cw20HookMsg::Bond),
        }),
    )
    .unwrap();

    let msg = ExecuteMsg::MigrateStaking { new_staking_contract: "staking0001".to_string() };

    let _res = execute(&mut deps, 6135105u64, "gov0000".to_string(), msg).unwrap();

    println!("{:?}", read_config(&deps));
    println!("{:?}", read_state(&deps, 0).unwrap());
    println!("{:?}", read_state(&deps, 1).unwrap());
    println!("{:?}", query_staker_info(&deps, "addr0000".to_string(), Some(6135105u64)));

    let resp = execute(
        &mut deps,
        6135105u64,
        "staking0001".to_string(),
        ExecuteMsg::Receive(Cw20ReceiveMsg {
            sender: "addr0000".to_string(),
            amount: 1000u128,
            msg: Some(Cw20HookMsg::Bond),
        }),
    )
    .unwrap();
    println!("{:?}", resp);

    let resp = query_staker_info(&deps, "addr0000".to_string(), Some(8491943u64)).unwrap();
    println!("{:?}", resp);
}

const GOV: &str = "gov";
const REWARD: &str = "reward";
const LP: &str = "lp";
const LP2: &str = "lp2";
const ALICE: &str = "alice";
const BOB: &str = "bob";

/// A pool that hands out 1000 over the blocks 100 to 200 and 300 over the
/// blocks 200 to 500, created at height 50.
fn pool() -> Storage {
    instantiate(
        50,
        InstantiateMsg {
            governance: GOV.to_string(),
            pylon_token: REWARD.to_string(),
            staking_token: LP.to_string(),
            distribution_schedule: vec![(100, 200, 1000), (200, 500, 300)],
        },
    )
}

fn info(storage: &Storage, owner: &str) -> StakerInfoV2 {
    read_staker_info(storage, &owner.to_string()).unwrap()
}

fn transfer(token: &str, recipient: &str, amount: u128) -> Transfer {
    Transfer { token: token.to_string(), recipient: recipient.to_string(), amount }
}

#[test]
fn a_pool_starts_empty() {
    let storage = pool();
    assert_eq!(storage.config.staking_token, vec![LP.to_string()]);
    assert_eq!(storage.states, vec![fresh_state(50)]);
    assert_eq!(
        fresh_state(50),
        StateV2 {
            halted: false,
            started_at: 50,
            last_distributed: 50,
            total_bond_amount: 0,
            global_reward_index: Decimal::zero(),
        }
    );
    assert!(storage.stakers.is_empty());
    assert_eq!(current_version(&storage.config), Ok(0));
}

#[test]
fn slots_pay_by_the_block() {
    // ten per block
    assert_eq!(slot_amount((100, 200, 1000), 7), Ok(70));
    // a third per block, rounded down after multiplying
    assert_eq!(slot_amount((0, 3, 1), 2), Ok(0));
    assert_eq!(slot_amount((0, 3, 10), 2), Ok(6));
    assert_eq!(slot_amount((5, 5, 10), 0), Err(ContractError::DivideByZero));
    assert_eq!(slot_amount((6, 5, 10), 0), Err(ContractError::Underflow));
    assert_eq!(slot_amount((0, 1, u128::MAX), 1), Err(ContractError::Overflow));

    let slot = (100, 200, 1000);
    assert_eq!(slot_reward(slot, 100, 150), Ok(500));
    assert_eq!(slot_reward(slot, 50, 150), Ok(500));
    assert_eq!(slot_reward(slot, 120, 130), Ok(100));
    assert_eq!(slot_reward(slot, 150, 900), Ok(500));
    assert_eq!(slot_reward(slot, 0, 99), Ok(0));
    assert_eq!(slot_reward(slot, 201, 900), Ok(0));
    assert_eq!(slot_reward(slot, 200, 900), Ok(0));
    assert_eq!(slot_reward(slot, 100, 100), Ok(0));
    // the height lies before the last distribution
    assert_eq!(slot_reward(slot, 150, 120), Err(ContractError::Underflow));
}

#[test]
fn rewards_raise_the_index() {
    let config = pool().config;
    let mut state = StateV2 { total_bond_amount: 10, last_distributed: 100, ..fresh_state(50) };
    // 500 from the first slot, for ten bonded tokens
    compute_reward(&config, &mut state, 150).unwrap();
    assert_eq!(state.last_distributed, 150);
    assert_eq!(state.global_reward_index, Decimal::from_ratio(50, 1).unwrap());
    // the rest of the first slot and 100 blocks of the second: 500 + 100
    compute_reward(&config, &mut state, 300).unwrap();
    assert_eq!(state.global_reward_index, Decimal::from_ratio(110, 1).unwrap());
    // nothing bonded: the height advances and the rewards are gone
    let mut idle = StateV2 { last_distributed: 100, ..fresh_state(50) };
    compute_reward(&config, &mut idle, 400).unwrap();
    assert_eq!(idle, StateV2 { last_distributed: 400, ..fresh_state(50) });
    // halted: nothing moves
    let mut halted = StateV2 { halted: true, total_bond_amount: 10, ..fresh_state(50) };
    compute_reward(&config, &mut halted, 400).unwrap();
    assert_eq!(halted, StateV2 { halted: true, total_bond_amount: 10, ..fresh_state(50) });
    // a failure changes nothing
    let before = state;
    assert_eq!(compute_reward(&config, &mut state, 200), Err(ContractError::Underflow));
    assert_eq!(state, before);
    let broken = ConfigV2 { distribution_schedule: vec![(100, 200, 1000), (300, 300, 5)], ..config };
    assert_eq!(compute_reward(&broken, &mut state, 400), Err(ContractError::DivideByZero));
    assert_eq!(state, before);
}

#[test]
fn stakers_are_credited_with_the_rise() {
    let state = StateV2 { global_reward_index: Decimal::percent(250), total_bond_amount: 100, ..fresh_state(0) };
    let mut staker = StakerInfoV2 {
        reward_index: Decimal::percent(100),
        bond_amount: 10,
        pending_reward: 3,
        staking_token_version: 0,
    };
    compute_staker_reward(&state, &mut staker).unwrap();
    // 3 + 10 * 2.5 - 10 * 1.0
    assert_eq!(
        staker,
        StakerInfoV2 { reward_index: Decimal::percent(250), bond_amount: 10, pending_reward: 18, staking_token_version: 0 }
    );
    compute_staker_reward(&state, &mut staker).unwrap();
    assert_eq!(staker.pending_reward, 18);
    // each product is rounded down on its own: 3 * 1.5 = 4, 3 * 0.5 = 1
    let state = StateV2 { global_reward_index: Decimal::percent(150), ..state };
    let mut odd = StakerInfoV2 { reward_index: Decimal::percent(50), bond_amount: 3, pending_reward: 0, staking_token_version: 0 };
    compute_staker_reward(&state, &mut odd).unwrap();
    assert_eq!(odd.pending_reward, 3);
    let mut ahead = StakerInfoV2 { reward_index: Decimal::percent(900), bond_amount: 3, pending_reward: 0, staking_token_version: 0 };
    assert_eq!(compute_staker_reward(&state, &mut ahead), Err(ContractError::Underflow));
    assert_eq!(ahead.reward_index, Decimal::percent(900));
    let mut full = StakerInfoV2 { reward_index: Decimal::zero(), bond_amount: 2, pending_reward: u128::MAX, staking_token_version: 0 };
    assert_eq!(compute_staker_reward(&state, &mut full), Err(ContractError::Overflow));
    let mut huge = StakerInfoV2 { reward_index: Decimal::zero(), bond_amount: u128::MAX, pending_reward: 0, staking_token_version: 0 };
    assert_eq!(compute_staker_reward(&state, &mut huge), Err(ContractError::Overflow));
}

#[test]
fn bond_amounts_move_together() {
    let mut state = StateV2 { total_bond_amount: 10, ..fresh_state(0) };
    let mut staker = StakerInfoV2 { reward_index: Decimal::zero(), bond_amount: 4, pending_reward: 0, staking_token_version: 0 };
    increase_bond_amount(&mut state, &mut staker, 5).unwrap();
    assert_eq!((state.total_bond_amount, staker.bond_amount), (15, 9));
    decrease_bond_amount(&mut state, &mut staker, 9).unwrap();
    assert_eq!((state.total_bond_amount, staker.bond_amount), (6, 0));
    assert_eq!(decrease_bond_amount(&mut state, &mut staker, 1), Err(ContractError::Underflow));
    assert_eq!(increase_bond_amount(&mut state, &mut staker, u128::MAX), Err(ContractError::Overflow));
    assert_eq!((state.total_bond_amount, staker.bond_amount), (6, 0));
}

#[test]
fn bonding_and_unbonding() {
    let mut storage = pool();
    let response = bond(&mut storage, 100, ALICE.to_string(), 10).unwrap();
    assert!(response.messages.is_empty());
    bond(&mut storage, 150, BOB.to_string(), 30).unwrap();
    // Alice was alone for 50 blocks at ten per block
    assert_eq!(storage.states[0].global_reward_index, Decimal::from_ratio(50, 1).unwrap());
    assert_eq!(storage.states[0].total_bond_amount, 40);
    assert_eq!(info(&storage, BOB).reward_index, Decimal::from_ratio(50, 1).unwrap());
    assert_eq!(info(&storage, BOB).pending_reward, 0);
    assert_eq!(info(&storage, ALICE).pending_reward, 0);

    let before = storage.clone();
    assert_eq!(unbond(&mut storage, 200, ALICE.to_string(), 11), Err(ContractError::InvalidUnbondAmount));
    assert_eq!(unbond(&mut storage, 200, "nobody".to_string(), 1), Err(ContractError::InvalidUnbondAmount));
    assert_eq!(storage, before);
    // 50 more blocks at ten per block for 40 bonded: the index rises by 12.5
    let response = unbond(&mut storage, 200, ALICE.to_string(), 4).unwrap();
    assert_eq!(response.messages, vec![transfer(LP, ALICE, 4)]);
    assert_eq!(
        info(&storage, ALICE),
        StakerInfoV2 {
            reward_index: Decimal::percent(6250),
            bond_amount: 6,
            pending_reward: 625,
            staking_token_version: 0,
        }
    );
    assert_eq!(storage.states[0].total_bond_amount, 36);
    assert_eq!(storage.states[0].last_distributed, 200);

    // the reward is paid in the reward token
    let response = withdraw(&mut storage, 200, ALICE.to_string()).unwrap();
    assert_eq!(response.messages, vec![transfer(REWARD, ALICE, 625)]);
    assert_eq!(info(&storage, ALICE).pending_reward, 0);
    assert_eq!(info(&storage, ALICE).bond_amount, 6);
    // Bob: 30 * 12.5
    let response = withdraw(&mut storage, 200, BOB.to_string()).unwrap();
    assert_eq!(response.messages, vec![transfer(REWARD, BOB, 375)]);
    // nothing pending, nothing bonded: the record goes
    unbond(&mut storage, 200, ALICE.to_string(), 6).unwrap();
    assert_eq!(storage.stakers.len(), 1);
    assert_eq!(storage.stakers[0].0, BOB);
    // a staker without a record withdraws nothing
    let response = withdraw(&mut storage, 200, ALICE.to_string()).unwrap();
    assert_eq!(response.messages, vec![transfer(REWARD, ALICE, 0)]);
    assert_eq!(storage.stakers.len(), 1);
}

#[test]
fn unbonding_more_than_is_bonded_is_refused_before_anything_is_settled() {
    // the rewards of this schedule cannot be settled: its rate does not fit
    let mut storage = instantiate(
        0,
        InstantiateMsg {
            governance: GOV.to_string(),
            pylon_token: REWARD.to_string(),
            staking_token: LP.to_string(),
            distribution_schedule: vec![(0, 1, u128::MAX)],
        },
    );
    bond(&mut storage, 0, ALICE.to_string(), 1).unwrap();
    let before = storage.clone();
    assert_eq!(unbond(&mut storage, 1, ALICE.to_string(), 2), Err(ContractError::InvalidUnbondAmount));
    assert_eq!(unbond(&mut storage, 1, BOB.to_string(), 1), Err(ContractError::InvalidUnbondAmount));
    // what is bonded can only go once the rewards are settled
    assert_eq!(unbond(&mut storage, 1, ALICE.to_string(), 1), Err(ContractError::Overflow));
    assert_eq!(storage, before);
    // a halted version settles nothing, and still the amount is looked at first
    let states = vec![StateV2 { halted: true, total_bond_amount: 0, ..fresh_state(0) }];
    let staker = StakerInfoV2 { reward_index: Decimal::zero(), bond_amount: 1, pending_reward: 0, staking_token_version: 0 };
    assert_eq!(unbond_outcome(&storage.config, &states, staker, 1, 2), Err(ContractError::InvalidUnbondAmount));
    assert_eq!(unbond_outcome(&storage.config, &states, staker, 1, 1), Err(ContractError::Underflow));
    // the version and its totals come first
    assert_eq!(unbond_outcome(&storage.config, &vec![], staker, 1, 2), Err(ContractError::NotFound));
}

#[test]
fn only_the_staking_token_bonds() {
    let mut storage = pool();
    let deposit = |msg| Cw20ReceiveMsg { sender: ALICE.to_string(), amount: 10, msg };
    assert_eq!(
        receive_cw20(&mut storage, 100, &ALICE.to_string(), deposit(Some(Cw20HookMsg::Bond))),
        Err(ContractError::Unauthorized)
    );
    assert_eq!(
        receive_cw20(&mut storage, 100, &LP.to_string(), deposit(None)),
        Err(ContractError::DataShouldBeGiven)
    );
    receive_cw20(&mut storage, 100, &LP.to_string(), deposit(Some(Cw20HookMsg::Bond))).unwrap();
    assert_eq!(info(&storage, ALICE).bond_amount, 10);
    // after a migration the old token is no longer taken
    migrate_staking(&mut storage, 150, &GOV.to_string(), LP2.to_string()).unwrap();
    assert_eq!(
        receive_cw20(&mut storage, 150, &LP.to_string(), deposit(Some(Cw20HookMsg::Bond))),
        Err(ContractError::Unauthorized)
    );
}

#[test]
fn the_schedule_ends_at_a_migration() {
    // a slot that has ended, one that is running, one that has not started
    let schedule = vec![(0, 50, 70), (100, 200, 1000), (200, 500, 300), (150, 150, 9)];
    assert_eq!(truncate(&schedule, 150), Ok((vec![(0, 50, 70), (100, 150, 500)], 570)));
    assert_eq!(truncate(&schedule, 100), Ok((vec![(0, 50, 70)], 70)));
    assert_eq!(truncate(&schedule, 0), Ok((vec![], 0)));
    assert_eq!(truncate(&schedule, 50), Ok((vec![(0, 50, 70)], 70)));
    // a slot without a block that lies behind counts as ended
    assert_eq!(truncate(&schedule, 151), Ok((vec![(0, 50, 70), (100, 151, 510), (150, 150, 9)], 589)));
    assert_eq!(truncate(&vec![(0, 9, u128::MAX), (1, 9, 5)], 10), Err(ContractError::Overflow));
    // the rate of a running slot does not fit
    assert_eq!(truncate(&vec![(0, 200, u128::MAX)], 100), Err(ContractError::Overflow));
    assert_eq!(scheduled(&schedule), Some(1379));
    assert_eq!(scheduled(&vec![]), Some(0));
    assert_eq!(scheduled(&vec![(0, 1, u128::MAX), (0, 1, 1)]), None);
}

#[test]
fn migrating_the_staking_token() {
    let mut storage = pool();
    bond(&mut storage, 100, ALICE.to_string(), 10).unwrap();
    let before = storage.clone();
    assert_eq!(
        migrate_staking(&mut storage, 150, &ALICE.to_string(), LP2.to_string()),
        Err(ContractError::Unauthorized)
    );
    assert_eq!(storage, before);
    let response = migrate_staking(&mut storage, 150, &GOV.to_string(), LP2.to_string()).unwrap();
    assert_eq!(response.attributes[1].value, pylon_gov::common::AttributeValue::Number(500));
    assert_eq!(response.attributes[2].value, pylon_gov::common::AttributeValue::Number(800));
    assert_eq!(storage.config.staking_token, vec![LP.to_string(), LP2.to_string()]);
    assert_eq!(storage.config.distribution_schedule, vec![(100, 150, 500)]);
    assert_eq!(
        storage.states,
        vec![
            StateV2 {
                halted: true,
                started_at: 50,
                last_distributed: 150,
                total_bond_amount: 10,
                global_reward_index: Decimal::from_ratio(50, 1).unwrap(),
            },
            fresh_state(150),
        ]
    );
    assert_eq!(current_version(&storage.config), Ok(1));

    // the old version stands still
    assert_eq!(
        query_state(&storage, Some(0), Some(400)).unwrap().global_reward_index,
        Decimal::from_ratio(50, 1).unwrap()
    );
    assert_eq!(query_staker_info(&storage, ALICE.to_string(), Some(400)).unwrap().pending_reward, 500);

    // on the next bond the staker is moved out of the old version
    let response = bond(&mut storage, 160, ALICE.to_string(), 7).unwrap();
    assert_eq!(response.messages, vec![transfer(LP, ALICE, 10)]);
    assert_eq!(
        info(&storage, ALICE),
        StakerInfoV2 { reward_index: Decimal::zero(), bond_amount: 7, pending_reward: 500, staking_token_version: 1 }
    );
    assert_eq!(storage.states[0].total_bond_amount, 0);
    assert_eq!(storage.states[1].total_bond_amount, 7);
    assert_eq!(storage.states[1].last_distributed, 160);
    // unbonding pays in the token of the staker's version
    let response = unbond(&mut storage, 170, ALICE.to_string(), 7).unwrap();
    assert_eq!(response.messages, vec![transfer(LP2, ALICE, 7)]);
    // the reward stays until it is withdrawn
    assert_eq!(info(&storage, ALICE).pending_reward, 500);
    assert_eq!(withdraw(&mut storage, 170, ALICE.to_string()).unwrap().messages, vec![transfer(REWARD, ALICE, 500)]);
    assert!(storage.stakers.is_empty());
}

#[test]
fn every_command_moves_a_lagging_staker() {
    let lagging = || {
        let mut storage = pool();
        bond(&mut storage, 100, ALICE.to_string(), 10).unwrap();
        migrate_staking(&mut storage, 150, &GOV.to_string(), LP2.to_string()).unwrap();
        storage
    };
    // withdrawing gives the old stake back, and the reward of the old version
    let mut storage = lagging();
    let response = withdraw(&mut storage, 160, ALICE.to_string()).unwrap();
    assert_eq!(response.messages, vec![transfer(LP, ALICE, 10), transfer(REWARD, ALICE, 500)]);
    assert_eq!(storage.states[0].total_bond_amount, 0);
    assert_eq!(storage.states[1].last_distributed, 160);
    assert!(storage.stakers.is_empty());

    // so does unbonding; nothing is bonded in the new staking token then
    let mut storage = lagging();
    let before = storage.clone();
    assert_eq!(unbond(&mut storage, 160, ALICE.to_string(), 1), Err(ContractError::InvalidUnbondAmount));
    assert_eq!(storage, before);
    let response = unbond(&mut storage, 160, ALICE.to_string(), 0).unwrap();
    assert_eq!(response.messages, vec![transfer(LP, ALICE, 10), transfer(LP2, ALICE, 0)]);
    assert_eq!(
        info(&storage, ALICE),
        StakerInfoV2 { reward_index: Decimal::zero(), bond_amount: 0, pending_reward: 500, staking_token_version: 1 }
    );
    assert_eq!(storage.states[0].total_bond_amount, 0);
    // a staker of the current version is not moved
    let response = withdraw(&mut storage, 170, ALICE.to_string()).unwrap();
    assert_eq!(response.messages, vec![transfer(REWARD, ALICE, 500)]);
}

#[test]
fn leaving_a_replaced_version() {
    let states = vec![
        StateV2 { halted: true, total_bond_amount: 40, global_reward_index: Decimal::percent(300), ..fresh_state(0) },
        fresh_state(9),
    ];
    let staker = StakerInfoV2 { reward_index: Decimal::one(), bond_amount: 10, pending_reward: 1, staking_token_version: 0 };
    assert_eq!(leave_legacy(&states, staker, 0), Ok((None, staker)));
    assert_eq!(
        leave_legacy(&states, staker, 1),
        Ok((
            Some(LegacyExit {
                version: 0,
                state: StateV2 { total_bond_amount: 30, ..states[0] },
                returned: 10,
            }),
            StakerInfoV2 { reward_index: Decimal::percent(300), bond_amount: 0, pending_reward: 21, staking_token_version: 1 },
        ))
    );
    let lost = StakerInfoV2 { staking_token_version: 5, ..staker };
    assert_eq!(leave_legacy(&states, lost, 1), Err(ContractError::NotFound));
    let too_much = StakerInfoV2 { bond_amount: 41, ..staker };
    assert_eq!(leave_legacy(&states, too_much, 1), Err(ContractError::Underflow));

    let config = ConfigV2 {
        governance: GOV.to_string(),
        pylon_token: REWARD.to_string(),
        staking_token: vec![LP.to_string(), LP2.to_string()],
        distribution_schedule: vec![],
    };
    let outcome = bond_outcome(&config, &states, staker, 20, 5).unwrap();
    assert_eq!(outcome.version, 1);
    assert_eq!(outcome.state, StateV2 { last_distributed: 20, total_bond_amount: 5, ..fresh_state(9) });
    assert_eq!(outcome.staker_info.bond_amount, 5);
    assert_eq!(outcome.staker_info.pending_reward, 21);
    assert_eq!(outcome.legacy.map(|exit| exit.returned), Some(10));
    let arrived = arrive(&config, &states, staker, 20).unwrap();
    assert_eq!(arrived.staker_info.bond_amount, 0);
    assert_eq!(arrived.staker_info.staking_token_version, 1);
    assert_eq!(arrived.state, StateV2 { last_distributed: 20, ..fresh_state(9) });
    let (paid, reward) = withdraw_outcome(&config, &states, staker, 20).unwrap();
    assert_eq!((paid.staker_info.pending_reward, reward), (0, 21));
    assert_eq!(unbond_outcome(&config, &states, staker, 20, 1), Err(ContractError::InvalidUnbondAmount));
    assert_eq!(unbond_outcome(&config, &states, staker, 20, 0).map(|o| o.legacy.is_some()), Ok(true));
    // the token of the old version is not known
    let one_token = ConfigV2 { staking_token: vec![LP2.to_string()], ..config.clone() };
    let lost = StakerInfoV2 { staking_token_version: 1, bond_amount: 0, ..staker };
    assert_eq!(arrive(&one_token, &states, lost, 20), Err(ContractError::NotFound));
    let no_token = ConfigV2 { staking_token: vec![], ..config };
    assert_eq!(bond_outcome(&no_token, &states, staker, 20, 5), Err(ContractError::NotFound));
}

#[test]
fn queries_project_to_a_height() {
    let mut storage = pool();
    bond(&mut storage, 100, ALICE.to_string(), 10).unwrap();
    assert_eq!(
        query_state(&storage, None, None),
        Ok(StateResponse {
            halted: false,
            started_at: 50,
            last_distributed: 100,
            total_bond_amount: 10,
            global_reward_index: Decimal::zero(),
        })
    );
    assert_eq!(
        query_state(&storage, None, Some(130)),
        Ok(StateResponse {
            halted: false,
            started_at: 50,
            last_distributed: 130,
            total_bond_amount: 10,
            global_reward_index: Decimal::from_ratio(30, 1).unwrap(),
        })
    );
    assert_eq!(query_state(&storage, Some(1), None), Err(ContractError::NotFound));
    let shown = query_staker_info(&storage, ALICE.to_string(), Some(130)).unwrap();
    assert_eq!((shown.bond_amount, shown.pending_reward, shown.staking_token_version), (10, 300, 0));
    assert_eq!(shown.staker, ALICE);
    let stored = query_staker_info(&storage, ALICE.to_string(), None).unwrap();
    assert_eq!(stored.pending_reward, 0);
    let nobody = query_staker_info(&storage, "nobody".to_string(), Some(130)).unwrap();
    assert_eq!((nobody.bond_amount, nobody.pending_reward), (0, 0));
    // the queries change nothing
    assert_eq!(storage.states[0].last_distributed, 100);
    let config = query_config(&storage);
    assert_eq!(config.pylon_token, REWARD);
    assert_eq!(config.staking_token, vec![LP.to_string()]);
    assert_eq!(config.distribution_schedule, vec![(100, 200, 1000), (200, 500, 300)]);
    assert!(matches!(query(&storage, QueryMsg::Config), Ok(QueryResponse::Config(_))));
    assert!(matches!(
        query(&storage, QueryMsg::State { token_version: None, block_height: None }),
        Ok(QueryResponse::State(s)) if s.total_bond_amount == 10
    ));
    assert!(matches!(
        query(&storage, QueryMsg::StakerInfo { staker: ALICE.to_string(), block_height: Some(110) }),
        Ok(QueryResponse::StakerInfo(s)) if s.pending_reward == 100
    ));
}

#[test]
fn commands_of_the_pool() {
    let mut storage = pool();
    let deposit = Cw20ReceiveMsg { sender: ALICE.to_string(), amount: 10, msg: Some(Cw20HookMsg::Bond) };
    execute(&mut storage, 100, LP.to_string(), ExecuteMsg::Receive(deposit)).unwrap();
    let response = execute(&mut storage, 110, ALICE.to_string(), ExecuteMsg::Unbond { amount: 5 }).unwrap();
    assert_eq!(response.messages, vec![transfer(LP, ALICE, 5)]);
    let response = execute(&mut storage, 110, ALICE.to_string(), ExecuteMsg::Withdraw).unwrap();
    assert_eq!(response.messages, vec![transfer(REWARD, ALICE, 100)]);
    assert_eq!(
        execute(&mut storage, 110, ALICE.to_string(), ExecuteMsg::MigrateStaking { new_staking_contract: LP2.to_string() }),
        Err(ContractError::Unauthorized)
    );
}

#[test]
fn records_in_both_shapes() {
    let old = StakerInfoV1 { reward_index: Decimal::one(), bond_amount: 1, pending_reward: 2, staking_token_version: None };
    let new = upgrade_staker_info(&old);
    assert_eq!(new, StakerInfoV2 { reward_index: Decimal::one(), bond_amount: 1, pending_reward: 2, staking_token_version: 0 });
    let versioned = StakerInfoV2 { staking_token_version: 3, ..new };
    assert_eq!(stored_staker_info(&versioned).staking_token_version, Some(3));
    assert_eq!(upgrade_staker_info(&stored_staker_info(&versioned)), versioned);

    let storage = migrate(
        ConfigV1 {
            pylon_token: REWARD.to_string(),
            staking_token: LP.to_string(),
            distribution_schedule: vec![(100, 200, 1000)],
        },
        StateV1 { last_distributed: 120, total_bond_amount: 1, global_reward_index: Decimal::one() },
        vec![(ALICE.to_string(), old)],
        GOV.to_string(),
    )
    .unwrap();
    assert_eq!(storage.config.governance, GOV);
    assert_eq!(storage.config.staking_token, vec![LP.to_string()]);
    assert_eq!(
        storage.states,
        vec![StateV2 {
            halted: false,
            started_at: 100,
            last_distributed: 120,
            total_bond_amount: 1,
            global_reward_index: Decimal::one(),
        }]
    );
    assert_eq!(info(&storage, ALICE), new);
    let empty = ConfigV1 { pylon_token: REWARD.to_string(), staking_token: LP.to_string(), distribution_schedule: vec![] };
    let legacy_state = StateV1 { last_distributed: 0, total_bond_amount: 0, global_reward_index: Decimal::zero() };
    assert_eq!(migrate(empty, legacy_state, vec![], GOV.to_string()), Err(ContractError::NotFound));
}

#[test]
fn storage_of_the_pool() {
    let mut storage = pool();
    let other = fresh_state(77);
    assert_eq!(store_state(&mut storage, 2, &other), Err(ContractError::NotFound));
    assert_eq!(store_state(&mut storage, 1, &other), Ok(()));
    assert_eq!(read_state(&storage, 1), Ok(other));
    assert_eq!(store_state(&mut storage, 0, &other), Ok(()));
    assert_eq!(read_state(&storage, 0), Ok(other));
    assert_eq!(read_state(&storage, 2), Err(ContractError::NotFound));

    let alice = ALICE.to_string();
    let record = StakerInfoV2 { reward_index: Decimal::one(), bond_amount: 1, pending_reward: 2, staking_token_version: 0 };
    assert_eq!(info(&storage, ALICE), StakerInfoV2 { reward_index: Decimal::zero(), bond_amount: 0, pending_reward: 0, staking_token_version: 0 });
    store_staker_info(&mut storage, &alice, &record);
    store_staker_info(&mut storage, &BOB.to_string(), &StakerInfoV2 { bond_amount: 9, ..record });
    store_staker_info(&mut storage, &alice, &StakerInfoV2 { bond_amount: 5, ..record });
    assert_eq!(storage.stakers.len(), 2);
    assert_eq!(info(&storage, ALICE).bond_amount, 5);
    assert_eq!(info(&storage, BOB).bond_amount, 9);
    remove_staker_info(&mut storage, &alice);
    remove_staker_info(&mut storage, &alice);
    assert_eq!(storage.stakers.len(), 1);
    assert_eq!(info(&storage, ALICE).bond_amount, 0);
    assert_eq!(info(&storage, BOB).bond_amount, 9);

    let config = ConfigV2 {
        governance: "g".to_string(),
        pylon_token: "p".to_string(),
        staking_token: vec![],
        distribution_schedule: vec![],
    };
    store_config(&mut storage, config.clone());
    assert_eq!(read_config(&storage), &config);
    assert_eq!(current_version(&config), Err(ContractError::NotFound));
    assert_eq!(read_staker_info(&storage, &alice), Err(ContractError::NotFound));
}
