//! The operations of the treasury.

use crate::error::ContractError;
use crate::math::scale;
use crate::math::spec_scale;
use crate::treasury::instructions::Action;
use crate::treasury::instructions::AssetInfo;
use crate::treasury::instructions::ConfigResponse;
use crate::treasury::instructions::ExecuteMsg;
use crate::treasury::instructions::InstantiateMsg;
use crate::treasury::instructions::MigrateMsg;
use crate::treasury::instructions::Queried;
use crate::treasury::instructions::StateResponse;
use crate::treasury::states::Config;
use crate::treasury::states::State;

use vstd::prelude::*;

verus! {

/// Creates a treasury at time `now`.
pub fn instantiate(now: u64, msg: InstantiateMsg) -> (r: (Config, State))
    ensures
        r.0 == (Config {
            mine: msg.mine,
            controller: msg.controller,
            gas_reserve: msg.gas_reserve,
            pylon_collector: msg.pylon_collector,
            pylon_governance: msg.pylon_governance,
            anchor_moneymarket: msg.anchor_moneymarket,
            astroport_pair: msg.astroport_pair,
            astroport_generator: msg.astroport_generator,
        }),
        r.1 == (State { prev_harvest_time: now }),
{
    (
        Config {
            mine: msg.mine,
            controller: msg.controller,
            gas_reserve: msg.gas_reserve,
            pylon_collector: msg.pylon_collector,
            pylon_governance: msg.pylon_governance,
            anchor_moneymarket: msg.anchor_moneymarket,
            astroport_pair: msg.astroport_pair,
            astroport_generator: msg.astroport_generator,
        },
        State { prev_harvest_time: now },
    )
}

/// The parts into which a harvest splits what the treasury holds beyond its
/// reserve: half for the money market, a quarter for liquidity, a quarter
/// for buying back, each rounded down.
pub open spec fn spec_harvest_split(balance: u128, gas_reserve: u128) -> Result<(u128, u128, u128), ContractError> {
    if balance < gas_reserve {
        Err(ContractError::Underflow)
    } else {
        Ok(
            (
                ((balance - gas_reserve) / 2) as u128,
                ((balance - gas_reserve) / 4) as u128,
                ((balance - gas_reserve) / 4) as u128,
            ),
        )
    }
}

/// The parts of a harvest.
pub fn harvest_split(balance: u128, gas_reserve: u128) -> (r: Result<(u128, u128, u128), ContractError>)
    ensures
        r == spec_harvest_split(balance, gas_reserve),
        r is Ok ==> r->Ok_0.0 + r->Ok_0.1 + r->Ok_0.2 <= balance - gas_reserve,
{
    match balance.checked_sub(gas_reserve) {
        Some(spendable) => Ok((spendable / 2, spendable / 4, spendable / 4)),
        None => Err(ContractError::Underflow),
    }
}

/// Whether `sender` may run the command: a harvest takes the controller,
/// the split takes the treasury itself, a strategy takes either, and a
/// withdrawal takes the controller or governance.
pub open spec fn spec_authorized(config: Config, contract: Seq<char>, sender: Seq<char>, msg: ExecuteMsg) -> bool {
    match msg {
        ExecuteMsg::Harvest => config.controller@ == sender,
        ExecuteMsg::HarvestInternal => contract == sender,
        ExecuteMsg::StrategyAnchor { .. } => sender == contract || sender == config.controller@,
        ExecuteMsg::StrategyProvideLiquidity { .. } => sender == contract || sender == config.controller@,
        ExecuteMsg::StrategyBuyback { .. } => sender == contract || sender == config.controller@,
        ExecuteMsg::Withdraw { .. } => sender == config.controller@ || sender == config.pylon_governance@,
    }
}

/// Whether `sender` may run the command.
pub fn authorized(config: &Config, contract: &String, sender: &String, msg: &ExecuteMsg) -> (r: bool)
    ensures
        r == spec_authorized(*config, contract@, sender@, *msg),
{
    match msg {
        ExecuteMsg::Harvest => config.controller == *sender,
        ExecuteMsg::HarvestInternal => *contract == *sender,
        ExecuteMsg::StrategyAnchor { .. } => *sender == *contract || *sender == config.controller,
        ExecuteMsg::StrategyProvideLiquidity { .. } => *sender == *contract || *sender == config.controller,
        ExecuteMsg::StrategyBuyback { .. } => *sender == *contract || *sender == config.controller,
        ExecuteMsg::Withdraw { .. } => *sender == config.controller || *sender == config.pylon_governance,
    }
}

/// Runs a command of `sender` at time `now`; `contract` is the address of
/// the treasury itself, and `queried` holds what the host has read for the
/// command. Returns what the host has to do, in this order. A harvest notes
/// its time, has the collector swept and then asks for the split; the split
/// hands what the treasury holds beyond its reserve to the three
/// strategies. Nothing else changes the state, and a refused command
/// changes nothing.
pub fn execute(
    config: &Config,
    state: &mut State,
    now: u64,
    contract: &String,
    sender: &String,
    msg: ExecuteMsg,
    queried: Queried,
) -> (r: Result<Vec<Action>, ContractError>)
    ensures
        !spec_authorized(*config, contract@, sender@, msg) ==> r == Err::<Vec<Action>, ContractError>(
            ContractError::Unauthorized,
        ),
        r is Err ==> *final(state) == *old(state),
        r is Ok ==> *final(state) == (if msg is Harvest { State { prev_harvest_time: now } } else { *old(state) }),
        spec_authorized(*config, contract@, sender@, msg) ==> match msg {
            ExecuteMsg::Harvest => {
                &&& r is Ok
                &&& r->Ok_0@.len() == 2
                &&& r->Ok_0@[0] == (Action::Collect { collector: config.pylon_collector })
                &&& r->Ok_0@[1] == (Action::Execute { msg: ExecuteMsg::HarvestInternal })
            },
            ExecuteMsg::HarvestInternal => match spec_harvest_split(queried.balance, config.gas_reserve) {
                Err(e) => r == Err::<Vec<Action>, ContractError>(e),
                Ok((anchor, liquidity, buyback)) => {
                    &&& r is Ok
                    &&& r->Ok_0@.len() == 3
                    &&& r->Ok_0@[0] == (Action::Execute { msg: ExecuteMsg::StrategyAnchor { amount: anchor } })
                    &&& r->Ok_0@[1] == (Action::Execute {
                        msg: ExecuteMsg::StrategyProvideLiquidity { amount: liquidity },
                    })
                    &&& r->Ok_0@[2] == (Action::Execute { msg: ExecuteMsg::StrategyBuyback { amount: buyback } })
                },
            },
            ExecuteMsg::StrategyAnchor { amount } => {
                &&& r is Ok
                &&& r->Ok_0@.len() == 1
                &&& r->Ok_0@[0] == (Action::DepositStable { market: config.anchor_moneymarket, funds: queried.after_tax })
            },
            ExecuteMsg::StrategyProvideLiquidity { amount } => match spec_scale(
                queried.after_tax,
                queried.pair_mine_balance,
                queried.pair_ust_balance,
            ) {
                Err(e) => r == Err::<Vec<Action>, ContractError>(e),
                Ok(token_amount) => {
                    &&& r is Ok
                    &&& r->Ok_0@.len() == 2
                    &&& r->Ok_0@[0] == (Action::IncreaseAllowance {
                        token: config.mine,
                        spender: config.astroport_pair,
                        amount: queried.self_mine_balance,
                    })
                    &&& r->Ok_0@[1] == (Action::ProvideLiquidity {
                        pair: config.astroport_pair,
                        native_amount: queried.after_tax,
                        token: config.mine,
                        token_amount,
                        receiver: *contract,
                    })
                },
            },
            ExecuteMsg::StrategyBuyback { amount } => {
                &&& r is Ok
                &&& r->Ok_0@.len() == 1
                &&& r->Ok_0@[0] == (Action::Swap {
                    pair: config.astroport_pair,
                    offer_amount: queried.after_tax,
                    to: config.pylon_governance,
                })
            },
            ExecuteMsg::Withdraw { target } => {
                &&& r is Ok
                &&& r->Ok_0@.len() == 1
                &&& r->Ok_0@[0] == (match target.info {
                    AssetInfo::Token { contract_addr } => Action::Transfer {
                        token: contract_addr,
                        recipient: *sender,
                        amount: target.amount,
                    },
                    AssetInfo::NativeToken { denom } => Action::Send {
                        to_address: *sender,
                        denom,
                        amount: target.amount,
                    },
                })
            },
        },
{
    if !authorized(config, contract, sender, &msg) {
        return Err(ContractError::Unauthorized);
    }
    let mut actions: Vec<Action> = Vec::new();
    match msg {
        ExecuteMsg::Harvest => {
            state.prev_harvest_time = now;
            actions.push(Action::Collect { collector: config.pylon_collector.clone() });
            actions.push(Action::Execute { msg: ExecuteMsg::HarvestInternal });
        },
        ExecuteMsg::HarvestInternal => {
            let (anchor, liquidity, buyback): (u128, u128, u128) = match harvest_split(
                queried.balance,
                config.gas_reserve,
            ) {
                Ok(v) => v,
                Err(e) => { return Err(e); },
            };
            actions.push(Action::Execute { msg: ExecuteMsg::StrategyAnchor { amount: anchor } });
            actions.push(Action::Execute { msg: ExecuteMsg::StrategyProvideLiquidity { amount: liquidity } });
            actions.push(Action::Execute { msg: ExecuteMsg::StrategyBuyback { amount: buyback } });
        },
        ExecuteMsg::StrategyAnchor { amount } => {
            actions.push(
                Action::DepositStable { market: config.anchor_moneymarket.clone(), funds: queried.after_tax },
            );
        },
        ExecuteMsg::StrategyProvideLiquidity { amount } => {
            let token_amount: u128 = match scale(
                queried.after_tax,
                queried.pair_mine_balance,
                queried.pair_ust_balance,
            ) {
                Ok(v) => v,
                Err(e) => { return Err(e); },
            };
            actions.push(
                Action::IncreaseAllowance {
                    token: config.mine.clone(),
                    spender: config.astroport_pair.clone(),
                    amount: queried.self_mine_balance,
                },
            );
            actions.push(
                Action::ProvideLiquidity {
                    pair: config.astroport_pair.clone(),
                    native_amount: queried.after_tax,
                    token: config.mine.clone(),
                    token_amount,
                    receiver: contract.clone(),
                },
            );
        },
        ExecuteMsg::StrategyBuyback { amount } => {
            actions.push(
                Action::Swap {
                    pair: config.astroport_pair.clone(),
                    offer_amount: queried.after_tax,
                    to: config.pylon_governance.clone(),
                },
            );
        },
        ExecuteMsg::Withdraw { target } => {
            match target.info {
                AssetInfo::Token { contract_addr } => {
                    actions.push(
                        Action::Transfer { token: contract_addr, recipient: sender.clone(), amount: target.amount },
                    );
                },
                AssetInfo::NativeToken { denom } => {
                    actions.push(Action::Send { to_address: sender.clone(), denom, amount: target.amount });
                },
            }
        },
    }
    Ok(actions)
}

/// The configuration.
pub fn query_config(config: &Config) -> (r: ConfigResponse)
    ensures
        r == (ConfigResponse {
            mine: config.mine,
            controller: config.controller,
            gas_reserve: config.gas_reserve,
            pylon_collector: config.pylon_collector,
            pylon_governance: config.pylon_governance,
            anchor_moneymarket: config.anchor_moneymarket,
            astroport_pair: config.astroport_pair,
            astroport_generator: config.astroport_generator,
        }),
{
    ConfigResponse {
        mine: config.mine.clone(),
        controller: config.controller.clone(),
        gas_reserve: config.gas_reserve,
        pylon_collector: config.pylon_collector.clone(),
        pylon_governance: config.pylon_governance.clone(),
        anchor_moneymarket: config.anchor_moneymarket.clone(),
        astroport_pair: config.astroport_pair.clone(),
        astroport_generator: config.astroport_generator.clone(),
    }
}

/// The state, with `pending_ust`, the balance that waits in the collector.
pub fn query_state(state: &State, pending_ust: u128) -> (r: StateResponse)
    ensures
        r == (StateResponse { prev_harvest_time: state.prev_harvest_time, pending_ust }),
{
    StateResponse { prev_harvest_time: state.prev_harvest_time, pending_ust }
}

/// What a simulated swap gives in all: what comes back, and the commission
/// that was taken from it.
pub fn simulate_swap(return_amount: u128, commission_amount: u128) -> (r: Result<u128, ContractError>)
    ensures
        r == (if return_amount + commission_amount > u128::MAX {
            Err::<u128, ContractError>(ContractError::Overflow)
        } else {
            Ok::<u128, ContractError>((return_amount + commission_amount) as u128)
        }),
{
    match return_amount.checked_add(commission_amount) {
        Some(v) => Ok(v),
        None => Err(ContractError::Overflow),
    }
}

/// Upgrades a treasury: nothing changes.
pub fn migrate(config: Config, state: State, msg: MigrateMsg) -> (r: (Config, State))
    ensures
        r == (config, state),
{
    (config, state)
}

} // verus!
