//! The commands and queries of the treasury.

use vstd::prelude::*;

verus! {

/// What the treasury is created with.
#[derive(Clone, Debug, PartialEq)]
pub struct InstantiateMsg {
    pub mine: String,
    pub controller: String,
    pub gas_reserve: u128,
    pub pylon_collector: String,
    pub pylon_governance: String,
    pub anchor_moneymarket: String,
    pub astroport_pair: String,
    pub astroport_generator: String,
}

/// What kind of asset an amount is of.
#[derive(Clone, Debug, PartialEq)]
pub enum AssetInfo {
    Token { contract_addr: String },
    NativeToken { denom: String },
}

/// An amount of an asset.
#[derive(Clone, Debug, PartialEq)]
pub struct Asset {
    pub info: AssetInfo,
    pub amount: u128,
}

/// The commands.
#[derive(Clone, Debug, PartialEq)]
pub enum ExecuteMsg {
    /// Sweep the collector, then run the strategies.
    Harvest,
    /// Split the balance among the strategies. Only the treasury sends this.
    HarvestInternal,
    /// Deposit `amount` in the money market.
    StrategyAnchor { amount: u128 },
    /// Provide `amount` and its worth in the governance token as liquidity.
    StrategyProvideLiquidity { amount: u128 },
    /// Buy the governance token for `amount` and send it to governance.
    StrategyBuyback { amount: u128 },
    /// Pay `target` out to the sender.
    Withdraw { target: Asset },
}

/// The queries.
#[derive(Clone, Copy, Debug, PartialEq, Eq, Structural)]
pub enum QueryMsg {
    Config,
    State,
}

#[derive(Clone, Debug, PartialEq)]
pub struct ConfigResponse {
    pub mine: String,
    pub controller: String,
    pub gas_reserve: u128,
    pub pylon_collector: String,
    pub pylon_governance: String,
    pub anchor_moneymarket: String,
    pub astroport_pair: String,
    pub astroport_generator: String,
}

#[derive(Clone, Copy, Debug, PartialEq, Eq, Structural)]
pub struct StateResponse {
    pub prev_harvest_time: u64,
    pub pending_ust: u128,
}

/// An upgrade of the treasury; there is none that changes anything.
#[derive(Clone, Copy, Debug, PartialEq, Eq, Structural)]
pub enum MigrateMsg {
    General,
}

/// What the treasury asks the host to do.
#[derive(Clone, Debug, PartialEq)]
pub enum Action {
    /// Have the collector send what it gathered.
    Collect { collector: String },
    /// Send `msg` to the treasury itself, as the treasury.
    Execute { msg: ExecuteMsg },
    /// Deposit `funds` in the money market.
    DepositStable { market: String, funds: u128 },
    /// Let `spender` take up to `amount` more of `token`.
    IncreaseAllowance { token: String, spender: String, amount: u128 },
    /// Provide `native_amount` and `token_amount` of `token` to the pair,
    /// with a slippage tolerance of one hundredth, and stake what comes
    /// back for `receiver`.
    ProvideLiquidity { pair: String, native_amount: u128, token: String, token_amount: u128, receiver: String },
    /// Swap `offer_amount` at the pair, with a spread of one hundredth at
    /// most, and send what comes back to `to`.
    Swap { pair: String, offer_amount: u128, to: String },
    /// Transfer `amount` of `token` to `recipient`.
    Transfer { token: String, recipient: String, amount: u128 },
    /// Pay `amount` of `denom` to `to_address`.
    Send { to_address: String, denom: String, amount: u128 },
}

/// What the host has read for the treasury before a command: balances, and
/// the amount of the command that is left after tax.
#[derive(Clone, Copy, Debug, PartialEq, Eq, Structural)]
pub struct Queried {
    /// The balance of the treasury.
    pub balance: u128,
    /// The amount of the command, less the tax on sending it.
    pub after_tax: u128,
    /// The governance tokens that the treasury holds.
    pub self_mine_balance: u128,
    /// The governance tokens that the pair holds.
    pub pair_mine_balance: u128,
    /// The balance of the pair.
    pub pair_ust_balance: u128,
}

} // verus!
