use pylon_gov::collector;
use pylon_gov::error::ContractError;
use pylon_gov::treasury::entrypoints::{
    authorized, execute, harvest_split, instantiate, migrate, query_config, query_state, simulate_swap,
};
use pylon_gov::treasury::instructions::{
    Action, Asset, AssetInfo, ExecuteMsg, InstantiateMsg, MigrateMsg, Queried, StateResponse,
};
use pylon_gov::treasury::states::{Config, State};

const SELF: &str = "treasury";
const CONTROLLER: &str = "controller";
const GOVERNANCE: &str = "governance";
const STRANGER: &str = "stranger";

fn treasury() -> (Config, State) {
    instantiate(
        1000,
        InstantiateMsg {
            mine: "mine".to_string(),
            controller: CONTROLLER.to_string(),
            gas_reserve: 10,
            pylon_collector: "collector".to_string(),
            pylon_governance: GOVERNANCE.to_string(),
            anchor_moneymarket: "market".to_string(),
            astroport_pair: "pair".to_string(),
            astroport_generator: "generator".to_string(),
        },
    )
}

fn queried() -> Queried {
    Queried { balance: 1011, after_tax: 90, self_mine_balance: 5000, pair_mine_balance: 300, pair_ust_balance: 100 }
}

fn run(sender: &str, msg: ExecuteMsg) -> Result<Vec<Action>, ContractError> {
    let (config, mut state) = treasury();
    execute(&config, &mut state, 2000, &SELF.to_string(), &sender.to_string(), msg, queried())
}

fn own(msg: ExecuteMsg) -> Action {
    Action::Execute { msg }
}

#[test]
fn a_harvest_is_split_in_half_and_quarters() {
    assert_eq!(harvest_split(1010, 10), Ok((500, 250, 250)));
    assert_eq!(harvest_split(1011, 10), Ok((500, 250, 250)));
    assert_eq!(harvest_split(13, 10), Ok((1, 0, 0)));
    assert_eq!(harvest_split(10, 10), Ok((0, 0, 0)));
    assert_eq!(harvest_split(9, 10), Err(ContractError::Underflow));
    assert_eq!(harvest_split(u128::MAX, 0), Ok((u128::MAX / 2, u128::MAX / 4, u128::MAX / 4)));
}

#[test]
fn harvest_sweeps_and_then_splits() {
    let (config, mut state) = treasury();
    assert_eq!(state.prev_harvest_time, 1000);
    let actions =
        execute(&config, &mut state, 2000, &SELF.to_string(), &CONTROLLER.to_string(), ExecuteMsg::Harvest, queried())
            .unwrap();
    assert_eq!(
        actions,
        vec![Action::Collect { collector: "collector".to_string() }, own(ExecuteMsg::HarvestInternal)]
    );
    assert_eq!(state.prev_harvest_time, 2000);
    let refused =
        execute(&config, &mut state, 3000, &SELF.to_string(), &STRANGER.to_string(), ExecuteMsg::Harvest, queried());
    assert_eq!(refused, Err(ContractError::Unauthorized));
    assert_eq!(state.prev_harvest_time, 2000);

    assert_eq!(
        run(SELF, ExecuteMsg::HarvestInternal),
        Ok(vec![
            own(ExecuteMsg::StrategyAnchor { amount: 500 }),
            own(ExecuteMsg::StrategyProvideLiquidity { amount: 250 }),
            own(ExecuteMsg::StrategyBuyback { amount: 250 }),
        ])
    );
    assert_eq!(run(CONTROLLER, ExecuteMsg::HarvestInternal), Err(ContractError::Unauthorized));
}

#[test]
fn strategies_spend_what_is_left_after_tax() {
    assert_eq!(
        run(SELF, ExecuteMsg::StrategyAnchor { amount: 100 }),
        Ok(vec![Action::DepositStable { market: "market".to_string(), funds: 90 }])
    );
    assert_eq!(
        run(CONTROLLER, ExecuteMsg::StrategyBuyback { amount: 100 }),
        Ok(vec![Action::Swap { pair: "pair".to_string(), offer_amount: 90, to: GOVERNANCE.to_string() }])
    );
    // three governance tokens per unit in the pair
    assert_eq!(
        run(SELF, ExecuteMsg::StrategyProvideLiquidity { amount: 100 }),
        Ok(vec![
            Action::IncreaseAllowance { token: "mine".to_string(), spender: "pair".to_string(), amount: 5000 },
            Action::ProvideLiquidity {
                pair: "pair".to_string(),
                native_amount: 90,
                token: "mine".to_string(),
                token_amount: 270,
                receiver: SELF.to_string(),
            },
        ])
    );
    for msg in [
        ExecuteMsg::StrategyAnchor { amount: 1 },
        ExecuteMsg::StrategyProvideLiquidity { amount: 1 },
        ExecuteMsg::StrategyBuyback { amount: 1 },
    ] {
        assert_eq!(run(STRANGER, msg.clone()), Err(ContractError::Unauthorized));
        assert_eq!(run(GOVERNANCE, msg), Err(ContractError::Unauthorized));
    }
    // an empty pair has no price
    let (config, mut state) = treasury();
    let empty = Queried { pair_ust_balance: 0, ..queried() };
    assert_eq!(
        execute(
            &config,
            &mut state,
            2000,
            &SELF.to_string(),
            &SELF.to_string(),
            ExecuteMsg::StrategyProvideLiquidity { amount: 1 },
            empty
        ),
        Err(ContractError::DivideByZero)
    );
}

#[test]
fn withdrawals_go_to_the_sender() {
    let token = Asset { info: AssetInfo::Token { contract_addr: "mine".to_string() }, amount: 5 };
    let native = Asset { info: AssetInfo::NativeToken { denom: "uusd".to_string() }, amount: 6 };
    assert_eq!(
        run(GOVERNANCE, ExecuteMsg::Withdraw { target: token.clone() }),
        Ok(vec![Action::Transfer { token: "mine".to_string(), recipient: GOVERNANCE.to_string(), amount: 5 }])
    );
    assert_eq!(
        run(CONTROLLER, ExecuteMsg::Withdraw { target: native }),
        Ok(vec![Action::Send { to_address: CONTROLLER.to_string(), denom: "uusd".to_string(), amount: 6 }])
    );
    assert_eq!(run(SELF, ExecuteMsg::Withdraw { target: token.clone() }), Err(ContractError::Unauthorized));
    assert_eq!(run(STRANGER, ExecuteMsg::Withdraw { target: token }), Err(ContractError::Unauthorized));
    let (config, _) = treasury();
    assert!(authorized(&config, &SELF.to_string(), &CONTROLLER.to_string(), &ExecuteMsg::Harvest));
    assert!(!authorized(&config, &SELF.to_string(), &SELF.to_string(), &ExecuteMsg::Harvest));
}

#[test]
fn treasury_queries() {
    let (config, state) = treasury();
    let shown = query_config(&config);
    assert_eq!((shown.mine.as_str(), shown.controller.as_str(), shown.gas_reserve), ("mine", CONTROLLER, 10));
    assert_eq!(shown.astroport_generator, "generator");
    assert_eq!(query_state(&state, 55), StateResponse { prev_harvest_time: 1000, pending_ust: 55 });
    assert_eq!(simulate_swap(90, 3), Ok(93));
    assert_eq!(simulate_swap(u128::MAX, 1), Err(ContractError::Overflow));
    assert_eq!(migrate(config.clone(), state, MigrateMsg::General), (config, state));
}

#[test]
fn the_collector_pays_the_treasury() {
    let config = collector::instantiate(collector::InstantiateMsg { gov: "gov".to_string(), treasury: SELF.to_string() });
    let response = collector::execute(&config, &SELF.to_string(), collector::ExecuteMsg::Collect, 77).unwrap();
    assert_eq!(response.messages, vec![collector::Send { to_address: SELF.to_string(), amount: 77 }]);
    assert_eq!(
        collector::execute(&config, &"gov".to_string(), collector::ExecuteMsg::Collect, 77),
        Err(ContractError::Unauthorized)
    );
    let shown = collector::query(&config, collector::QueryMsg::Config);
    assert_eq!((shown.gov.as_str(), shown.treasury.as_str()), ("gov", SELF));
    let moved = collector::migrate(collector::MigrateMsg { gov: "g2".to_string(), treasury: "t2".to_string() });
    assert_eq!((moved.gov.as_str(), moved.treasury.as_str()), ("g2", "t2"));
    assert_eq!(collector::DENOM, "uusd");
}
