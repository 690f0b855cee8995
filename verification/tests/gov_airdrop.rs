use pylon_gov::common::{attr, attr_number, BlockInfo};
use pylon_gov::error::ContractError;
use pylon_gov::gov::airdrop::{
    calculate_reward_per_token, calculate_rewards, credit, reward_per_token_at, settle, updated,
};
use pylon_gov::gov::entrypoints::execute;
use pylon_gov::gov::executions::airdrop::{allocate, claim, claim_internal, contains, deallocate, update};
use pylon_gov::gov::executions::instantiate;
use pylon_gov::gov::msg::{
    AirdropMsg, Cw20HookMsg, Cw20ReceiveMsg, Env, ExecuteMsg, InstantiateMsg, Message, MessageInfo, Response,
    StakingMsg,
};
use pylon_gov::gov::states::{
    load_reward, save_reward, Airdrop, AirdropConfig, AirdropState, Reward, Storage,
};
use pylon_gov::math::Decimal;

const CONTRACT: &str = "gov";
const TEST_TOKEN: &str = "token";
const TEST_CREATOR: &str = "creator";
const TEST_VOTER: &str = "voter";
const TEST_VOTER_2: &str = "voter2";
const REWARD_TOKEN: &str = "reward";

fn mock_env() -> Env {
    Env { block: BlockInfo { height: 12_345, time: 1_571_797_419 }, contract_address: CONTRACT.to_string() }
}

fn env_at(time: u64) -> Env {
    Env { block: BlockInfo { height: time, time }, contract_address: CONTRACT.to_string() }
}

fn mock_info(sender: &str) -> MessageInfo {
    MessageInfo { sender: sender.to_string() }
}

/// A ledger that `TEST_CREATOR` owns.
fn mock_deps() -> Storage {
    instantiate(
        &mock_env(),
        &mock_info(TEST_CREATOR),
        InstantiateMsg {
            voting_token: TEST_TOKEN.to_string(),
            quorum: Decimal::percent(10),
            threshold: Decimal::percent(50),
            voting_period: 20_000,
            timelock_period: 10_000,
            proposal_deposit: 10_000_000_000,
            snapshot_period: 10,
            unstaking_period: 1_000,
        },
    )
    .unwrap()
}

/// An airdrop of `amount` of `token` that starts with the block of
/// `mock_env` and runs for an hour.
fn airdrop_instantiate(deps: &mut Storage, token: &str, amount: u128) {
    let env = mock_env();
    pylon_gov::gov::executions::airdrop::instantiate(
        deps,
        &env,
        &mock_info(TEST_CREATOR),
        env.block.time,
        3_600,
        token.to_string(),
        amount,
    )
    .unwrap();
}

fn exec(
    deps: &mut Storage,
    env: Env,
    info: MessageInfo,
    airdrop_id: u64,
    recipient: String,
    allocate_amount: u128,
) -> Result<Response, ContractError> {
    allocate(deps, &env, &info, airdrop_id, recipient, allocate_amount)
}

fn reward_of(deps: &Storage, address: &str, airdrop_id: u64) -> Reward {
    match deps.bank.iter().find(|s| s.address == address) {
        Some(staker) => load_reward(&staker.rewards, airdrop_id),
        None => Reward::new(),
    }
}

/// Runs a command and then, in their order, the commands that it asks the
/// ledger to send to itself. Returns the transfers that were asked for.
fn run(deps: &mut Storage, env: &Env, sender: &str, msg: ExecuteMsg, balance: u128) -> Vec<Message> {
    let response = execute(deps, env, &mock_info(sender), msg, balance).unwrap();
    let mut transfers = vec![];
    for message in response.messages {
        match message {
            Message::Execute { msg } => transfers.extend(run(deps, env, CONTRACT, msg, balance)),
            other => transfers.push(other),
        }
    }
    transfers
}

fn stake(deps: &mut Storage, env: &Env, staker: &str, amount: u128, balance: u128) {
    let transfers = run(
        deps,
        env,
        TEST_TOKEN,
        ExecuteMsg::Receive(Cw20ReceiveMsg { sender: staker.to_string(), amount, msg: Some(Cw20HookMsg::Stake) }),
        balance,
    );
    assert!(transfers.is_empty());
}

#[test]
fn airdrop_allocate_success() {
    let mut deps = mock_deps();
    airdrop_instantiate(&mut deps, TEST_TOKEN, 1000);

    let response =
        exec(&mut deps, mock_env(), mock_info(TEST_CREATOR), 0, TEST_VOTER.to_string(), 1234u128).unwrap();
    assert_eq!(
        response.attributes,
        vec![
            attr("action", "airdrop_allocate"),
            attr_number("airdrop_id", 0),
            attr("recipient", TEST_VOTER),
            attr_number("amount", 1234u128),
        ]
    );

    let reward = reward_of(&deps, TEST_VOTER, 0);
    assert_eq!(reward.reward, 1234u128);
}

#[test]
fn fail_unauthorized() {
    let mut deps = mock_deps();
    airdrop_instantiate(&mut deps, TEST_TOKEN, 1000);

    match exec(&mut deps, mock_env(), mock_info(TEST_VOTER), 0, TEST_VOTER.to_string(), 1234u128) {
        Ok(_) => panic!("Must return error"),
        Err(ContractError::Unauthorized {}) => (),
        Err(e) => panic!("Unexpected error: {:?}", e),
    }
}

#[test]
fn allocate_and_deallocate() {
    let mut deps = mock_deps();
    airdrop_instantiate(&mut deps, TEST_TOKEN, 1000);
    airdrop_instantiate(&mut deps, REWARD_TOKEN, 1000);
    let owner = mock_info(TEST_CREATOR);
    let before = deps.clone();
    assert_eq!(
        allocate(&mut deps, &mock_env(), &owner, 2, TEST_VOTER.to_string(), 1),
        Err(ContractError::AirdropNotFound)
    );
    assert_eq!(
        deallocate(&mut deps, &mock_env(), &owner, 1, TEST_VOTER.to_string(), 1),
        Err(ContractError::Underflow)
    );
    assert_eq!(
        deallocate(&mut deps, &mock_env(), &mock_info(TEST_VOTER), 1, TEST_VOTER.to_string(), 0),
        Err(ContractError::Unauthorized)
    );
    assert_eq!(deps, before);
    allocate(&mut deps, &mock_env(), &owner, 1, TEST_VOTER.to_string(), 10).unwrap();
    allocate(&mut deps, &mock_env(), &owner, 1, TEST_VOTER.to_string(), 5).unwrap();
    assert_eq!(reward_of(&deps, TEST_VOTER, 1).reward, 15);
    assert_eq!(reward_of(&deps, TEST_VOTER, 0).reward, 0);
    assert_eq!(reward_of(&deps, TEST_VOTER_2, 1).reward, 0);
    deallocate(&mut deps, &mock_env(), &owner, 1, TEST_VOTER.to_string(), 6).unwrap();
    assert_eq!(reward_of(&deps, TEST_VOTER, 1).reward, 9);
    assert_eq!(
        deallocate(&mut deps, &mock_env(), &owner, 1, TEST_VOTER.to_string(), 10),
        Err(ContractError::Underflow)
    );
    allocate(&mut deps, &mock_env(), &owner, 1, TEST_VOTER.to_string(), u128::MAX - 9).unwrap();
    assert_eq!(
        allocate(&mut deps, &mock_env(), &owner, 1, TEST_VOTER.to_string(), 1),
        Err(ContractError::Overflow)
    );
    // a recipient needs no share, and gets none
    assert_eq!(deps.state.total_share, 0);
    assert_eq!(deps.bank[0].manager.share, 0);
}

#[test]
fn instantiate_sets_the_rate() {
    let mut deps = mock_deps();
    let env = mock_env();
    let owner = mock_info(TEST_CREATOR);
    let open = |deps: &mut Storage, info: &MessageInfo, period: u64, amount: u128| {
        pylon_gov::gov::executions::airdrop::instantiate(deps, &env, info, 100, period, REWARD_TOKEN.to_string(), amount)
    };
    assert_eq!(open(&mut deps, &mock_info(TEST_VOTER), 10, 5), Err(ContractError::Unauthorized));
    assert_eq!(open(&mut deps, &owner, 0, 5), Err(ContractError::DivideByZero));
    assert_eq!(open(&mut deps, &owner, 1, u128::MAX), Err(ContractError::Overflow));
    assert!(deps.airdrops.is_empty());
    open(&mut deps, &owner, 4, 10).unwrap();
    open(&mut deps, &owner, 3, 1).unwrap();
    assert_eq!(deps.state.total_airdrop_count, 2);
    assert_eq!(deps.state.airdrop_update_candidates, vec![0, 1]);
    assert_eq!(
        deps.airdrops[0],
        Airdrop {
            config: AirdropConfig {
                start: 100,
                period: 4,
                reward_token: REWARD_TOKEN.to_string(),
                reward_rate: Decimal { atomics: 2_500_000_000_000_000_000 },
            },
            state: AirdropState { last_update_time: 100, reward_per_token_stored: Decimal::zero() },
        }
    );
    assert_eq!(deps.airdrops[1].config.reward_rate, Decimal { atomics: 333_333_333_333_333_333 });
    assert_eq!(deps.airdrops[0].finish(), 104);
    assert_eq!(deps.airdrops[0].applicable_time(50), 50);
    assert_eq!(deps.airdrops[0].applicable_time(104), 104);
    assert_eq!(deps.airdrops[0].applicable_time(105), 104);
}

fn stream() -> Airdrop {
    // one token per second from 100 to 1100
    Airdrop {
        config: AirdropConfig {
            start: 100,
            period: 1000,
            reward_token: REWARD_TOKEN.to_string(),
            reward_rate: Decimal::one(),
        },
        state: AirdropState { last_update_time: 100, reward_per_token_stored: Decimal::zero() },
    }
}

#[test]
fn accrual_formulas() {
    // rate * elapsed / total_share
    assert_eq!(calculate_reward_per_token(600, 1000, Decimal::one(), 100), Ok(Decimal::percent(50)));
    assert_eq!(calculate_reward_per_token(103, 3, Decimal::one(), 100), Ok(Decimal::one()));
    assert_eq!(
        calculate_reward_per_token(101, 3, Decimal::one(), 100),
        Ok(Decimal { atomics: 333_333_333_333_333_333 })
    );
    // nobody staked, or no time has passed
    assert_eq!(calculate_reward_per_token(600, 0, Decimal::one(), 100), Ok(Decimal::zero()));
    assert_eq!(calculate_reward_per_token(100, 1000, Decimal::one(), 100), Ok(Decimal::zero()));
    assert_eq!(calculate_reward_per_token(50, 1000, Decimal::one(), 100), Ok(Decimal::zero()));
    assert_eq!(
        calculate_reward_per_token(u64::MAX, 1, Decimal::raw(u128::MAX), 0),
        Err(ContractError::Overflow)
    );

    let airdrop = stream();
    assert_eq!(reward_per_token_at(&airdrop, 600, 1000), Ok(Decimal::percent(50)));
    let reward = Reward { reward: 7, reward_per_token_paid: Decimal::percent(10) };
    // 7 + 300 * (0.5 - 0.1)
    assert_eq!(calculate_rewards(600, 1000, 300, &airdrop, &reward), Ok(127));
    assert_eq!(credit(reward, Decimal::percent(50), 300), Ok(Reward { reward: 127, reward_per_token_paid: Decimal::percent(50) }));
    assert_eq!(credit(reward, Decimal::percent(9), 300), Err(ContractError::Underflow));
    assert_eq!(
        credit(Reward { reward: u128::MAX, reward_per_token_paid: Decimal::zero() }, Decimal::one(), 1),
        Err(ContractError::Overflow)
    );
    assert_eq!(credit(Reward::new(), Decimal::percent(200), u128::MAX), Err(ContractError::Overflow));
}

#[test]
fn update_stops_at_the_finish() {
    let mut airdrop = stream();
    // before the start nothing moves
    assert_eq!(updated(&airdrop, 1000, 50), Ok(airdrop.state));
    assert_eq!(
        updated(&airdrop, 1000, 600),
        Ok(AirdropState { last_update_time: 600, reward_per_token_stored: Decimal::percent(50) })
    );
    pylon_gov::gov::airdrop::update(&mut airdrop, 1000, 600).unwrap();
    assert_eq!(airdrop.state.last_update_time, 600);
    // time without a staker pays nothing, and is gone
    pylon_gov::gov::airdrop::update(&mut airdrop, 0, 700).unwrap();
    assert_eq!(airdrop.state, AirdropState { last_update_time: 700, reward_per_token_stored: Decimal::percent(50) });
    // past the finish at 1100 the update goes up to the finish
    pylon_gov::gov::airdrop::update(&mut airdrop, 1000, 5000).unwrap();
    assert_eq!(airdrop.state, AirdropState { last_update_time: 1100, reward_per_token_stored: Decimal::percent(90) });
    // and then the stored value stays for good
    let finished = airdrop.clone();
    pylon_gov::gov::airdrop::update(&mut airdrop, 1, 9000).unwrap();
    assert_eq!(airdrop, finished);

    let mut reward = Reward::new();
    settle(&mut reward, &airdrop, 10).unwrap();
    assert_eq!(reward, Reward { reward: 9, reward_per_token_paid: Decimal::percent(90) });
    // settling again credits nothing
    settle(&mut reward, &airdrop, 10).unwrap();
    assert_eq!(reward.reward, 9);
}

#[test]
fn stakers_share_an_airdrop_by_share_and_time() {
    let mut deps = mock_deps();
    // 1000 reward tokens over 1000 seconds from 100
    pylon_gov::gov::executions::airdrop::instantiate(
        &mut deps,
        &env_at(10),
        &mock_info(TEST_CREATOR),
        100,
        1000,
        REWARD_TOKEN.to_string(),
        1000,
    )
    .unwrap();
    stake(&mut deps, &env_at(100), TEST_VOTER, 1000, 1000);
    // the first staker is alone for 500 seconds
    stake(&mut deps, &env_at(600), TEST_VOTER_2, 1000, 2000);
    assert_eq!(deps.airdrops[0].state.reward_per_token_stored, Decimal::percent(50));
    assert_eq!(reward_of(&deps, TEST_VOTER_2, 0), Reward { reward: 0, reward_per_token_paid: Decimal::percent(50) });
    // then they share for 500 seconds
    update(&mut deps, &env_at(2000), &mock_info(TEST_VOTER), Some(TEST_VOTER.to_string())).unwrap();
    assert_eq!(deps.airdrops[0].state.last_update_time, 1100);
    assert_eq!(deps.airdrops[0].state.reward_per_token_stored, Decimal::percent(75));
    assert_eq!(reward_of(&deps, TEST_VOTER, 0).reward, 750);
    // an update without a target credits nobody
    let before = deps.clone();
    update(&mut deps, &env_at(3000), &mock_info(TEST_VOTER), None).unwrap();
    assert_eq!(deps, before);

    // claiming credits first, then pays
    let transfers = run(&mut deps, &env_at(3000), TEST_VOTER_2, ExecuteMsg::Airdrop(AirdropMsg::Claim { target: None }), 2000);
    assert_eq!(
        transfers,
        vec![Message::Transfer { token: REWARD_TOKEN.to_string(), recipient: TEST_VOTER_2.to_string(), amount: 250 }]
    );
    assert_eq!(reward_of(&deps, TEST_VOTER_2, 0), Reward { reward: 0, reward_per_token_paid: Decimal::percent(75) });
    // nothing is paid twice
    let transfers = run(&mut deps, &env_at(4000), TEST_VOTER_2, ExecuteMsg::Airdrop(AirdropMsg::Claim { target: None }), 2000);
    assert_eq!(
        transfers,
        vec![Message::Transfer { token: REWARD_TOKEN.to_string(), recipient: TEST_VOTER_2.to_string(), amount: 0 }]
    );
    let transfers = run(
        &mut deps,
        &env_at(4000),
        TEST_VOTER_2,
        ExecuteMsg::Airdrop(AirdropMsg::Claim { target: Some(TEST_VOTER.to_string()) }),
        2000,
    );
    assert_eq!(
        transfers,
        vec![Message::Transfer { token: REWARD_TOKEN.to_string(), recipient: TEST_VOTER.to_string(), amount: 750 }]
    );
}

#[test]
fn unstaking_credits_at_the_old_share() {
    let mut deps = mock_deps();
    pylon_gov::gov::executions::airdrop::instantiate(
        &mut deps,
        &env_at(10),
        &mock_info(TEST_CREATOR),
        100,
        1000,
        REWARD_TOKEN.to_string(),
        1000,
    )
    .unwrap();
    stake(&mut deps, &env_at(100), TEST_VOTER, 1000, 1000);
    let transfers = run(
        &mut deps,
        &env_at(300),
        TEST_VOTER,
        ExecuteMsg::Staking(StakingMsg::Unstake { amount: Some(600) }),
        1000,
    );
    assert!(transfers.is_empty());
    assert_eq!(deps.bank[0].manager.share, 400);
    // 200 seconds at one token per second for all 1000 shares
    assert_eq!(reward_of(&deps, TEST_VOTER, 0), Reward { reward: 200, reward_per_token_paid: Decimal::percent(20) });
    assert_eq!(deps.bank[0].claims.len(), 1);
}

#[test]
fn claim_asks_for_an_update_and_one_payment_per_airdrop() {
    let mut deps = mock_deps();
    airdrop_instantiate(&mut deps, TEST_TOKEN, 1000);
    airdrop_instantiate(&mut deps, REWARD_TOKEN, 1000);
    let response = claim(&deps, &mock_env(), &mock_info(TEST_VOTER), None).unwrap();
    let internal = |airdrop_id| Message::Execute {
        msg: ExecuteMsg::Airdrop(AirdropMsg::ClaimInternal { sender: TEST_VOTER.to_string(), airdrop_id }),
    };
    assert_eq!(
        response.messages,
        vec![
            Message::Execute { msg: ExecuteMsg::Airdrop(AirdropMsg::Update { target: Some(TEST_VOTER.to_string()) }) },
            internal(0),
            internal(1),
        ]
    );
    // only the ledger pays out
    assert_eq!(
        claim_internal(&mut deps, &mock_env(), &mock_info(TEST_VOTER), TEST_VOTER.to_string(), 0),
        Err(ContractError::Unauthorized)
    );
    assert_eq!(
        claim_internal(&mut deps, &mock_env(), &mock_info(CONTRACT), TEST_VOTER.to_string(), 2),
        Err(ContractError::AirdropNotFound)
    );
    allocate(&mut deps, &mock_env(), &mock_info(TEST_CREATOR), 1, TEST_VOTER.to_string(), 40).unwrap();
    let response = claim_internal(&mut deps, &mock_env(), &mock_info(CONTRACT), TEST_VOTER.to_string(), 1).unwrap();
    assert_eq!(
        response.messages,
        vec![Message::Transfer { token: REWARD_TOKEN.to_string(), recipient: TEST_VOTER.to_string(), amount: 40 }]
    );
    assert_eq!(reward_of(&deps, TEST_VOTER, 1).reward, 0);
}

#[test]
fn update_fails_as_a_whole() {
    let mut deps = mock_deps();
    airdrop_instantiate(&mut deps, TEST_TOKEN, 1000);
    airdrop_instantiate(&mut deps, REWARD_TOKEN, 1000);
    stake(&mut deps, &mock_env(), TEST_VOTER, 10, 10);
    // the second airdrop cannot take more
    deps.airdrops[1].state.reward_per_token_stored = Decimal::raw(u128::MAX);
    let before = deps.clone();
    let later = env_at(mock_env().block.time + 100);
    assert_eq!(update(&mut deps, &later, &mock_info(TEST_VOTER), None), Err(ContractError::Overflow));
    assert_eq!(deps, before);
    // an airdrop that is not on the list is left alone
    deps.state.airdrop_update_candidates = vec![0];
    update(&mut deps, &later, &mock_info(TEST_VOTER), Some(TEST_VOTER.to_string())).unwrap();
    assert_eq!(deps.airdrops[0].state.last_update_time, later.block.time);
    assert_eq!(deps.airdrops[1], before.airdrops[1]);
    assert_eq!(reward_of(&deps, TEST_VOTER, 1), Reward::new());
}

#[test]
fn reward_records_stand_at_the_airdrop_id() {
    let mut rewards = vec![];
    assert_eq!(load_reward(&rewards, 3), Reward::new());
    let reward = Reward { reward: 5, reward_per_token_paid: Decimal::one() };
    save_reward(&mut rewards, 2, reward);
    assert_eq!(load_reward(&rewards, 2), reward);
    assert_eq!(load_reward(&rewards, 0), Reward::new());
    assert_eq!(load_reward(&rewards, 1), Reward::new());
    assert_eq!(load_reward(&rewards, 3), Reward::new());
    save_reward(&mut rewards, 0, reward);
    assert_eq!(load_reward(&rewards, 0), reward);
    assert_eq!(load_reward(&rewards, 2), reward);
    assert!(contains(&vec![1, 5, 9], 5));
    assert!(!contains(&vec![1, 5, 9], 4));
    assert!(!contains(&vec![], 0));
}
