//! The collector: gathers protocol income and hands it to the treasury.

use crate::common::Attribute;
use crate::common::attr;
use crate::common::attr_number;
use crate::error::ContractError;

use crate::common::is_number;
use crate::common::is_text;
use vstd::prelude::*;

verus! {

/// The denomination that the collector gathers.
pub const DENOM: &'static str = "uusd";

/// What the collector is created with.
#[derive(Clone, Debug, PartialEq)]
pub struct InstantiateMsg {
    pub gov: String,
    pub treasury: String,
}

/// The commands.
#[derive(Clone, Copy, Debug, PartialEq, Eq, Structural)]
pub enum ExecuteMsg {
    /// Send everything that was gathered to the treasury.
    Collect,
}

/// The queries.
#[derive(Clone, Copy, Debug, PartialEq, Eq, Structural)]
pub enum QueryMsg {
    Config,
}

#[derive(Clone, Debug, PartialEq)]
pub struct ConfigResponse {
    pub gov: String,
    pub treasury: String,
}

/// What an upgrade sets.
#[derive(Clone, Debug, PartialEq)]
pub struct MigrateMsg {
    pub gov: String,
    pub treasury: String,
}

/// Who governs the collector, and where it sends what it gathers.
#[derive(Clone, Debug, PartialEq)]
pub struct Config {
    pub gov: String,
    pub treasury: String,
}

/// A payment of `amount` of the gathered denomination to `to_address`, for
/// the host to make.
#[derive(Clone, Debug, PartialEq)]
pub struct Send {
    pub to_address: String,
    pub amount: u128,
}

/// The outcome of a command.
#[derive(Clone, Debug, PartialEq)]
pub struct Response {
    pub messages: Vec<Send>,
    pub attributes: Vec<Attribute>,
}

/// Creates a collector.
pub fn instantiate(msg: InstantiateMsg) -> (r: Config)
    ensures
        r.gov == msg.gov,
        r.treasury == msg.treasury,
{
    Config { gov: msg.gov, treasury: msg.treasury }
}

/// Runs a command for `sender`. `Collect` may come from the treasury only;
/// it asks the host to pay `transferable` to the treasury, which is the
/// balance of the collector less the tax on the payment.
pub fn execute(
    config: &Config,
    sender: &String,
    msg: ExecuteMsg,
    transferable: u128,
) -> (r: Result<Response, ContractError>)
    ensures
        config.treasury@ != sender@ ==> r == Err::<Response, ContractError>(ContractError::Unauthorized),
        config.treasury@ == sender@ ==> {
            &&& r is Ok
            &&& r->Ok_0.messages@.len() == 1
            &&& r->Ok_0.messages@[0].to_address == config.treasury
            &&& r->Ok_0.messages@[0].amount == transferable
            &&& r->Ok_0.attributes@.len() == 2
            &&& is_text(r->Ok_0.attributes@[0], "action"@, "collect"@)
            &&& is_number(r->Ok_0.attributes@[1], "amount"@, transferable)
        },
{
    match msg {
        ExecuteMsg::Collect => {
            if config.treasury != *sender {
                return Err(ContractError::Unauthorized);
            }
            let mut messages: Vec<Send> = Vec::new();
            messages.push(Send { to_address: config.treasury.clone(), amount: transferable });
            let mut attributes: Vec<Attribute> = Vec::new();
            attributes.push(attr("action", "collect"));
            attributes.push(attr_number("amount", transferable));
            Ok(Response { messages, attributes })
        },
    }
}

/// Answers a query.
pub fn query(config: &Config, msg: QueryMsg) -> (r: ConfigResponse)
    ensures
        r.gov == config.gov,
        r.treasury == config.treasury,
{
    match msg {
        QueryMsg::Config => ConfigResponse { gov: config.gov.clone(), treasury: config.treasury.clone() },
    }
}

/// Upgrades a collector: the configuration is replaced by what `msg` holds.
pub fn migrate(msg: MigrateMsg) -> (r: Config)
    ensures
        r.gov == msg.gov,
        r.treasury == msg.treasury,
{
    Config { gov: msg.gov, treasury: msg.treasury }
}

} // verus!
