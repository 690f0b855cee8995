//! The commands of the ledger. Each runs to its end or changes nothing.

pub mod airdrop;
pub mod poll;
pub mod staking;

use crate::common::attr;
use crate::error::ContractError;
use crate::gov::msg::AirdropMsg;
use crate::gov::msg::Cw20HookMsg;
use crate::gov::msg::Cw20ReceiveMsg;
use crate::gov::msg::Env;
use crate::gov::msg::ExecuteMsg;
use crate::gov::msg::InstantiateMsg;
use crate::gov::msg::Message;
use crate::gov::msg::MessageInfo;
use crate::gov::msg::PollStatus;
use crate::gov::msg::Response;
use crate::gov::msg::StakingMsg;
use crate::gov::poll::spec_create;
use crate::gov::states::Config;
use crate::gov::states::Poll;
use crate::gov::states::State;
use crate::gov::states::Storage;
use crate::math::Decimal;

use crate::common::is_number;
use crate::common::is_text;
use vstd::prelude::*;

verus! {

/// What a command gives back.
pub type ExecuteResult = Result<Response, ContractError>;

/// The configuration that a ledger is created with by `info.sender`.
pub open spec fn spec_initial_config(info: MessageInfo, msg: InstantiateMsg) -> Config {
    Config {
        pylon_token: msg.voting_token,
        owner: info.sender,
        quorum: msg.quorum,
        threshold: msg.threshold,
        voting_period: msg.voting_period,
        timelock_period: msg.timelock_period,
        expiration_period: 0,
        proposal_deposit: msg.proposal_deposit,
        snapshot_period: msg.snapshot_period,
        unstaking_period: msg.unstaking_period,
    }
}

/// Creates a ledger that the sender owns: no staker, no poll, no airdrop,
/// and all totals zero. The quorum and the threshold have to be ratios.
pub fn instantiate(env: &Env, info: &MessageInfo, msg: InstantiateMsg) -> (r: Result<Storage, ContractError>)
    ensures
        match spec_initial_config(*info, msg).spec_validate() {
            Err(e) => r == Err::<Storage, ContractError>(e),
            Ok(_) => {
                &&& r is Ok
                &&& r->Ok_0.wf()
                &&& r->Ok_0.config.owner@ == info.sender@
                &&& r->Ok_0.config == (Config { owner: r->Ok_0.config.owner, ..spec_initial_config(*info, msg) })
                &&& r->Ok_0.state.poll_count == 0
                &&& r->Ok_0.state.total_share == 0
                &&& r->Ok_0.state.total_deposit == 0
                &&& r->Ok_0.state.total_unbondings == 0
                &&& r->Ok_0.state.total_airdrop_count == 0
                &&& r->Ok_0.state.airdrop_update_candidates@.len() == 0
                &&& r->Ok_0.bank@.len() == 0
                &&& r->Ok_0.polls@.len() == 0
                &&& r->Ok_0.airdrops@.len() == 0
                &&& r->Ok_0.tmp_poll_id is None
            },
        },
{
    let config = Config {
        pylon_token: msg.voting_token,
        owner: info.sender.clone(),
        quorum: msg.quorum,
        threshold: msg.threshold,
        voting_period: msg.voting_period,
        timelock_period: msg.timelock_period,
        expiration_period: 0,
        proposal_deposit: msg.proposal_deposit,
        snapshot_period: msg.snapshot_period,
        unstaking_period: msg.unstaking_period,
    };
    match config.validate() {
        Ok(_) => {},
        Err(e) => { return Err(e); },
    }
    let state = State {
        poll_count: 0,
        total_share: 0,
        total_deposit: 0,
        total_unbondings: 0,
        total_airdrop_count: 0,
        airdrop_update_candidates: Vec::new(),
    };
    Ok(
        Storage {
            config,
            state,
            bank: Vec::new(),
            polls: Vec::new(),
            airdrops: Vec::new(),
            tmp_poll_id: None,
        },
    )
}

/// The two steps that staking takes, for the host to run in this order:
/// first an update of the airdrops that credits `sender` at the old share,
/// then the crediting of the deposit.
pub open spec fn spec_stake_steps(messages: Seq<Message>, sender: String, amount: u128) -> bool {
    &&& messages.len() == 2
    &&& messages[0] == (Message::Execute { msg: ExecuteMsg::Airdrop(AirdropMsg::Update { target: Some(sender) }) })
    &&& messages[1] == (Message::Execute { msg: ExecuteMsg::Staking(StakingMsg::StakeInternal { sender, amount }) })
}

/// What [`receive`] guarantees of its outcome `r` and of the ledger `after` it,
/// which was `before`.
pub open spec fn receive_ensures(
    before: Storage,
    after: Storage,
    env: Env,
    info: MessageInfo,
    cw20_msg: Cw20ReceiveMsg,
    r: ExecuteResult,
) -> bool {
    &&& before.wf() ==> after.wf()
    &&& r is Err ==> after.same_as(&before)
    &&& before.config.pylon_token@ != info.sender@ ==> r == Err::<Response, ContractError>(
        ContractError::Unauthorized,
    )
    &&& before.config.pylon_token@ == info.sender@ ==> match cw20_msg.msg {
        None => r == Err::<Response, ContractError>(ContractError::DataShouldBeGiven),
        Some(Cw20HookMsg::Stake) => r is Ok && after.same_as(&before) && r->Ok_0.attributes@.len() == 0
            && spec_stake_steps(r->Ok_0.messages@, cw20_msg.sender, cw20_msg.amount),
        Some(Cw20HookMsg::CreatePoll { title, category, description, link, execute_msgs }) => match spec_create(
            before.state,
            before.config,
            env.block.height,
            cw20_msg.amount,
        ) {
            Err(e) => r == Err::<Response, ContractError>(e),
            Ok(_) => {
                &&& r is Ok
                &&& r->Ok_0.messages@.len() == 0
                &&& r->Ok_0.attributes@.len() == 4
                &&& is_text(r->Ok_0.attributes@[0], "action"@, "create_poll"@)
                &&& is_text(r->Ok_0.attributes@[1], "creator"@, cw20_msg.sender@)
                &&& is_number(r->Ok_0.attributes@[2], "poll_id"@, before.state.poll_count as u128)
                &&& is_number(
                    r->Ok_0.attributes@[3],
                    "end_height"@,
                    (env.block.height + before.config.voting_period) as u128,
                )
                &&& after.polls@ == before.polls@.push(
                    Poll {
                        id: before.state.poll_count,
                        creator: cw20_msg.sender,
                        status: PollStatus::InProgress,
                        yes_votes: 0,
                        no_votes: 0,
                        end_height: (env.block.height + before.config.voting_period) as u64,
                        title,
                        category,
                        description,
                        link,
                        execute_data: execute_msgs,
                        deposit_amount: cw20_msg.amount,
                        total_balance_at_end_poll: None,
                        staked_amount: None,
                    },
                )
                &&& after.state == (State {
                    poll_count: (before.state.poll_count + 1) as u64,
                    total_deposit: (before.state.total_deposit + cw20_msg.amount) as u128,
                    ..before.state
                })
                &&& after.config == before.config
                &&& after.bank@ == before.bank@
                &&& after.airdrops@ == before.airdrops@
                &&& after.tmp_poll_id == before.tmp_poll_id
            },
        },
    }
}

/// Handles a transfer of the governance token to the ledger. Only the token
/// itself may report one. With the request `Stake` the deposit is staked in
/// two steps that the host runs afterwards; with `CreatePoll` a poll is
/// opened with the transfer as its deposit; without a request that can be
/// read the transfer is refused.
pub fn receive(storage: &mut Storage, env: &Env, info: &MessageInfo, cw20_msg: Cw20ReceiveMsg) -> (r: ExecuteResult)
    ensures
        receive_ensures(*old(storage), *final(storage), *env, *info, cw20_msg, r),
{
    if storage.config.pylon_token != info.sender {
        return Err(ContractError::Unauthorized);
    }
    match cw20_msg.msg {
        Some(Cw20HookMsg::Stake) => {
            let mut response = Response::new();
            response.messages.push(
                Message::Execute {
                    msg: ExecuteMsg::Airdrop(AirdropMsg::Update { target: Some(cw20_msg.sender.clone()) }),
                },
            );
            response.messages.push(
                Message::Execute {
                    msg: ExecuteMsg::Staking(
                        StakingMsg::StakeInternal { sender: cw20_msg.sender, amount: cw20_msg.amount },
                    ),
                },
            );
            Ok(response)
        },
        Some(Cw20HookMsg::CreatePoll { title, category, description, link, execute_msgs }) => {
            poll::create(
                storage,
                env,
                cw20_msg.sender,
                cw20_msg.amount,
                title,
                category,
                description,
                link,
                execute_msgs,
            )
        },
        None => Err(ContractError::DataShouldBeGiven),
    }
}

/// The configuration after an update: every field that is given replaces
/// the old one.
pub open spec fn spec_updated_config(
    config: Config,
    owner: Option<String>,
    quorum: Option<Decimal>,
    threshold: Option<Decimal>,
    voting_period: Option<u64>,
    timelock_period: Option<u64>,
    proposal_deposit: Option<u128>,
    snapshot_period: Option<u64>,
) -> Config {
    Config {
        owner: match owner {
            Some(v) => v,
            None => config.owner,
        },
        quorum: match quorum {
            Some(v) => v,
            None => config.quorum,
        },
        threshold: match threshold {
            Some(v) => v,
            None => config.threshold,
        },
        voting_period: match voting_period {
            Some(v) => v,
            None => config.voting_period,
        },
        timelock_period: match timelock_period {
            Some(v) => v,
            None => config.timelock_period,
        },
        proposal_deposit: match proposal_deposit {
            Some(v) => v,
            None => config.proposal_deposit,
        },
        snapshot_period: match snapshot_period {
            Some(v) => v,
            None => config.snapshot_period,
        },
        ..config
    }
}

/// What [`update_config`] guarantees of its outcome `r` and of the ledger `after`
/// it, which was `before`.
pub open spec fn update_config_ensures(
    before: Storage,
    after: Storage,
    info: MessageInfo,
    owner: Option<String>,
    quorum: Option<Decimal>,
    threshold: Option<Decimal>,
    voting_period: Option<u64>,
    timelock_period: Option<u64>,
    proposal_deposit: Option<u128>,
    snapshot_period: Option<u64>,
    r: ExecuteResult,
) -> bool {
    &&& before.wf() ==> after.wf()
    &&& before.config.owner@ != info.sender@ ==> r == Err::<Response, ContractError>(ContractError::Unauthorized)
        && after.same_as(&before)
    &&& before.config.owner@ == info.sender@ ==> {
        &&& r is Ok
        &&& r->Ok_0.messages@.len() == 0
        &&& r->Ok_0.attributes@.len() == 1
        &&& is_text(r->Ok_0.attributes@[0], "action"@, "update_config"@)
        &&& after.config == spec_updated_config(
            before.config,
            owner,
            quorum,
            threshold,
            voting_period,
            timelock_period,
            proposal_deposit,
            snapshot_period,
        )
        &&& after.state == before.state
        &&& after.bank == before.bank
        &&& after.polls == before.polls
        &&& after.airdrops == before.airdrops
        &&& after.tmp_poll_id == before.tmp_poll_id
    }
}

/// Changes the configuration, field by field. Only the owner may do this.
pub fn update_config(
    storage: &mut Storage,
    info: &MessageInfo,
    owner: Option<String>,
    quorum: Option<Decimal>,
    threshold: Option<Decimal>,
    voting_period: Option<u64>,
    timelock_period: Option<u64>,
    proposal_deposit: Option<u128>,
    snapshot_period: Option<u64>,
) -> (r: ExecuteResult)
    ensures
        update_config_ensures(
            *old(storage),
            *final(storage),
            *info,
            owner,
            quorum,
            threshold,
            voting_period,
            timelock_period,
            proposal_deposit,
            snapshot_period,
            r,
        ),
{
    if storage.config.owner != info.sender {
        return Err(ContractError::Unauthorized);
    }
    match owner {
        Some(v) => { storage.config.owner = v; },
        None => {},
    }
    match quorum {
        Some(v) => { storage.config.quorum = v; },
        None => {},
    }
    match threshold {
        Some(v) => { storage.config.threshold = v; },
        None => {},
    }
    match voting_period {
        Some(v) => { storage.config.voting_period = v; },
        None => {},
    }
    match timelock_period {
        Some(v) => { storage.config.timelock_period = v; },
        None => {},
    }
    match proposal_deposit {
        Some(v) => { storage.config.proposal_deposit = v; },
        None => {},
    }
    match snapshot_period {
        Some(v) => { storage.config.snapshot_period = v; },
        None => {},
    }
    let mut response = Response::new();
    response.attributes.push(attr("action", "update_config"));
    Ok(response)
}

} // verus!
