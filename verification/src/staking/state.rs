//! The records of reward staking, in both of their shapes.

use crate::error::ContractError;
use crate::math::Decimal;

use vstd::prelude::*;

verus! {

/// The configuration before staking tokens had versions.
#[derive(Clone, Debug, PartialEq)]
pub struct ConfigV1 {
    pub pylon_token: String,
    pub staking_token: String,
    pub distribution_schedule: Vec<(u64, u64, u128)>,
}

/// The configuration. `staking_token[v]` is the staking token of version
/// `v`; the last one is current. A slot `(start, end, amount)` of the
/// schedule hands out `amount` evenly over the blocks from `start` to `end`.
#[derive(Clone, Debug, PartialEq)]
pub struct ConfigV2 {
    pub governance: String,
    pub pylon_token: String,
    pub staking_token: Vec<String>,
    pub distribution_schedule: Vec<(u64, u64, u128)>,
}

/// The totals before staking tokens had versions.
#[derive(Clone, Copy, Debug, PartialEq, Eq, Structural)]
pub struct StateV1 {
    pub last_distributed: u64,
    pub total_bond_amount: u128,
    pub global_reward_index: Decimal,
}

/// The totals of one staking token version.
#[derive(Clone, Copy, Debug, PartialEq, Eq, Structural)]
pub struct StateV2 {
    /// Set when the version was replaced: its rewards stand still.
    pub halted: bool,
    pub started_at: u64,
    /// The height up to which rewards have been distributed.
    pub last_distributed: u64,
    pub total_bond_amount: u128,
    /// The reward that one bonded token has earned since the start.
    pub global_reward_index: Decimal,
}

/// A staker's record as it may still be stored: the version may be missing.
#[derive(Clone, Copy, Debug, PartialEq, Eq, Structural)]
pub struct StakerInfoV1 {
    pub reward_index: Decimal,
    pub bond_amount: u128,
    pub pending_reward: u128,
    pub staking_token_version: Option<u64>,
}

/// A staker's record.
#[derive(Clone, Copy, Debug, PartialEq, Eq, Structural)]
pub struct StakerInfoV2 {
    /// The global reward index at which the staker was last settled.
    pub reward_index: Decimal,
    pub bond_amount: u128,
    pub pending_reward: u128,
    pub staking_token_version: u64,
}

/// Everything that reward staking keeps.
#[derive(Clone, Debug, PartialEq)]
pub struct Storage {
    pub config: ConfigV2,
    /// The totals of each staking token version, at the index of the version.
    pub states: Vec<StateV2>,
    /// The records of the stakers, each under its owner's address.
    pub stakers: Vec<(String, StakerInfoV1)>,
}

/// The record of a version's totals at its start.
pub open spec fn spec_fresh_state(height: u64) -> StateV2 {
    StateV2 {
        halted: false,
        started_at: height,
        last_distributed: height,
        total_bond_amount: 0,
        global_reward_index: Decimal { atomics: 0 },
    }
}

/// The record of a version's totals at its start.
pub fn fresh_state(height: u64) -> (r: StateV2)
    ensures
        r == spec_fresh_state(height),
{
    StateV2 {
        halted: false,
        started_at: height,
        last_distributed: height,
        total_bond_amount: 0,
        global_reward_index: Decimal::zero(),
    }
}

/// The current shape of a stored staker record: a record without a version
/// belongs to version zero.
pub open spec fn spec_upgrade_staker_info(legacy: StakerInfoV1) -> StakerInfoV2 {
    StakerInfoV2 {
        reward_index: legacy.reward_index,
        bond_amount: legacy.bond_amount,
        pending_reward: legacy.pending_reward,
        staking_token_version: match legacy.staking_token_version {
            Some(v) => v,
            None => 0,
        },
    }
}

/// Reads a stored staker record in the current shape.
pub fn upgrade_staker_info(legacy: &StakerInfoV1) -> (r: StakerInfoV2)
    ensures
        r == spec_upgrade_staker_info(*legacy),
{
    StakerInfoV2 {
        reward_index: legacy.reward_index,
        bond_amount: legacy.bond_amount,
        pending_reward: legacy.pending_reward,
        staking_token_version: match legacy.staking_token_version {
            Some(v) => v,
            None => 0,
        },
    }
}

/// The shape in which a staker record is stored: with its version written
/// out.
pub open spec fn spec_stored_staker_info(info: StakerInfoV2) -> StakerInfoV1 {
    StakerInfoV1 {
        reward_index: info.reward_index,
        bond_amount: info.bond_amount,
        pending_reward: info.pending_reward,
        staking_token_version: Some(info.staking_token_version),
    }
}

/// The shape in which a staker record is stored.
pub fn stored_staker_info(info: &StakerInfoV2) -> (r: StakerInfoV1)
    ensures
        r == spec_stored_staker_info(*info),
        spec_upgrade_staker_info(r) == *info,
{
    StakerInfoV1 {
        reward_index: info.reward_index,
        bond_amount: info.bond_amount,
        pending_reward: info.pending_reward,
        staking_token_version: Some(info.staking_token_version),
    }
}

/// The configuration of an upgraded pool: the one staking token becomes
/// version zero, and `governance` is set.
pub fn upgrade_config(legacy: ConfigV1, governance: String) -> (r: ConfigV2)
    ensures
        r.governance == governance,
        r.pylon_token == legacy.pylon_token,
        r.staking_token@ == seq![legacy.staking_token],
        r.distribution_schedule == legacy.distribution_schedule,
{
    let mut staking_token: Vec<String> = Vec::new();
    staking_token.push(legacy.staking_token);
    ConfigV2 {
        governance,
        pylon_token: legacy.pylon_token,
        staking_token,
        distribution_schedule: legacy.distribution_schedule,
    }
}

/// The totals of version zero of an upgraded pool, which started at
/// `genesis`.
pub fn upgrade_state(legacy: &StateV1, genesis: u64) -> (r: StateV2)
    ensures
        r == (StateV2 {
            halted: false,
            started_at: genesis,
            last_distributed: legacy.last_distributed,
            total_bond_amount: legacy.total_bond_amount,
            global_reward_index: legacy.global_reward_index,
        }),
{
    StateV2 {
        halted: false,
        started_at: genesis,
        last_distributed: legacy.last_distributed,
        total_bond_amount: legacy.total_bond_amount,
        global_reward_index: legacy.global_reward_index,
    }
}

/// Whether a staker with the address has a record in `stakers`.
pub open spec fn has_info(stakers: Seq<(String, StakerInfoV1)>, owner: Seq<char>) -> bool {
    exists|i: int| 0 <= i < stakers.len() && (#[trigger] stakers[i]).0@ == owner
}

/// The place of the first record of the staker with the address.
pub open spec fn info_index(stakers: Seq<(String, StakerInfoV1)>, owner: Seq<char>) -> int {
    choose|i: int|
        0 <= i < stakers.len() && (#[trigger] stakers[i]).0@ == owner && forall|j: int|
            0 <= j < i ==> (#[trigger] stakers[j]).0@ != owner
}

/// Finds the record of the staker with the address.
pub fn find_info(stakers: &Vec<(String, StakerInfoV1)>, owner: &String) -> (r: Option<usize>)
    ensures
        r is Some == has_info(stakers@, owner@),
        r is Some ==> r->Some_0 == info_index(stakers@, owner@) && r->Some_0 < stakers.len() && stakers[r->Some_0 as int].0@
            == owner@,
        r is Some ==> forall|j: int| 0 <= j < r->Some_0 ==> (#[trigger] stakers[j]).0@ != owner@,
        r is None ==> forall|j: int| 0 <= j < stakers.len() ==> (#[trigger] stakers[j]).0@ != owner@,
{
    let mut i: usize = 0;
    while i < stakers.len()
        invariant
            i <= stakers.len(),
            forall|j: int| 0 <= j < i ==> (#[trigger] stakers[j]).0@ != owner@,
        decreases stakers.len() - i,
    {
        if stakers[i].0 == *owner {
            proof {
                let k = info_index(stakers@, owner@);
                assert(stakers@[i as int].0@ == owner@);
                assert(k == i) by {
                    if k < i {
                        assert(stakers@[k].0@ != owner@);
                    }
                    if k > i {
                        assert(stakers@[i as int].0@ != owner@);
                    }
                }
            }
            return Some(i);
        }
        i += 1;
    }
    None
}

/// The version of the current staking token: the last one.
pub open spec fn spec_current_version(config: ConfigV2) -> Result<u64, ContractError> {
    if config.staking_token@.len() == 0 || config.staking_token@.len() - 1 > u64::MAX {
        Err(ContractError::NotFound)
    } else {
        Ok((config.staking_token@.len() - 1) as u64)
    }
}

/// The version of the current staking token.
pub fn current_version(config: &ConfigV2) -> (r: Result<u64, ContractError>)
    ensures
        r == spec_current_version(*config),
{
    if config.staking_token.len() == 0 {
        Err(ContractError::NotFound)
    } else {
        Ok((config.staking_token.len() - 1) as u64)
    }
}

/// Replaces the configuration.
pub fn store_config(storage: &mut Storage, config: ConfigV2)
    ensures
        final(storage).config == config,
        final(storage).states == old(storage).states,
        final(storage).stakers == old(storage).stakers,
{
    storage.config = config;
}

/// The configuration.
pub fn read_config(storage: &Storage) -> (r: &ConfigV2)
    ensures
        *r == storage.config,
{
    &storage.config
}

/// Writes the totals of a version: over those that are stored for it, or
/// as those of the next version. A version beyond the next is refused.
pub fn store_state(storage: &mut Storage, token_version: u64, state: &StateV2) -> (r: Result<(), ContractError>)
    ensures
        final(storage).config == old(storage).config,
        final(storage).stakers == old(storage).stakers,
        token_version < old(storage).states.len() ==> r is Ok && final(storage).states@ == old(storage).states@.update(
            token_version as int,
            *state,
        ),
        token_version == old(storage).states.len() ==> r is Ok && final(storage).states@ == old(storage).states@.push(
            *state,
        ),
        token_version > old(storage).states.len() ==> r == Err::<(), ContractError>(ContractError::NotFound)
            && final(storage).states == old(storage).states,
{
    if token_version < storage.states.len() as u64 {
        storage.states[token_version as usize] = *state;
        Ok(())
    } else if token_version == storage.states.len() as u64 {
        storage.states.push(*state);
        Ok(())
    } else {
        Err(ContractError::NotFound)
    }
}

/// The totals of a version.
pub open spec fn spec_read_state(states: Seq<StateV2>, token_version: u64) -> Result<StateV2, ContractError> {
    if token_version < states.len() {
        Ok(states[token_version as int])
    } else {
        Err(ContractError::NotFound)
    }
}

/// The totals of a version.
pub fn read_state(storage: &Storage, token_version: u64) -> (r: Result<StateV2, ContractError>)
    ensures
        r == spec_read_state(storage.states@, token_version),
{
    if token_version < storage.states.len() as u64 {
        Ok(storage.states[token_version as usize])
    } else {
        Err(ContractError::NotFound)
    }
}

/// The record of the staker with the address; for one without a record, an
/// empty record of the given version.
pub open spec fn spec_read_staker_info(
    stakers: Seq<(String, StakerInfoV1)>,
    owner: Seq<char>,
    version: u64,
) -> StakerInfoV2 {
    if has_info(stakers, owner) {
        spec_upgrade_staker_info(stakers[info_index(stakers, owner)].1)
    } else {
        StakerInfoV2 {
            reward_index: Decimal { atomics: 0 },
            bond_amount: 0,
            pending_reward: 0,
            staking_token_version: version,
        }
    }
}

/// The record of the staker with the address; for one without a record, an
/// empty record of the current version.
pub fn read_staker_info(storage: &Storage, owner: &String) -> (r: Result<StakerInfoV2, ContractError>)
    ensures
        match spec_current_version(storage.config) {
            Err(e) => r == Err::<StakerInfoV2, ContractError>(e),
            Ok(version) => r == Ok::<StakerInfoV2, ContractError>(
                spec_read_staker_info(storage.stakers@, owner@, version),
            ),
        },
{
    let version: u64 = match current_version(&storage.config) {
        Ok(v) => v,
        Err(e) => { return Err(e); },
    };
    match find_info(&storage.stakers, owner) {
        Some(i) => Ok(upgrade_staker_info(&storage.stakers[i].1)),
        None => Ok(
            StakerInfoV2 {
                reward_index: Decimal::zero(),
                bond_amount: 0,
                pending_reward: 0,
                staking_token_version: version,
            },
        ),
    }
}

/// Writes the record of the staker with the address: over the first one
/// that is stored for the address, or as a new last one. Every other record
/// stays as and where it was.
pub fn store_staker_info(storage: &mut Storage, owner: &String, staker_info: &StakerInfoV2)
    ensures
        final(storage).config == old(storage).config,
        final(storage).states == old(storage).states,
        has_info(final(storage).stakers@, owner@),
        spec_upgrade_staker_info(final(storage).stakers@[info_index(final(storage).stakers@, owner@)].1)
            == *staker_info,
        has_info(old(storage).stakers@, owner@) ==> {
            let i = info_index(old(storage).stakers@, owner@);
            &&& final(storage).stakers@.len() == old(storage).stakers@.len()
            &&& info_index(final(storage).stakers@, owner@) == i
            &&& final(storage).stakers@[i].0 == old(storage).stakers@[i].0
            &&& final(storage).stakers@ == old(storage).stakers@.update(
                i,
                (old(storage).stakers@[i].0, spec_stored_staker_info(*staker_info)),
            )
        },
        !has_info(old(storage).stakers@, owner@) ==> {
            &&& final(storage).stakers@.len() == old(storage).stakers@.len() + 1
            &&& info_index(final(storage).stakers@, owner@) == old(storage).stakers@.len()
            &&& final(storage).stakers@.drop_last() == old(storage).stakers@
            &&& final(storage).stakers@.last().0@ == owner@
            &&& final(storage).stakers@.last().1 == spec_stored_staker_info(*staker_info)
        },
{
    let stored: StakerInfoV1 = stored_staker_info(staker_info);
    match find_info(&storage.stakers, owner) {
        Some(i) => {
            storage.stakers[i].1 = stored;
            proof {
                assert forall|j: int| 0 <= j < i implies (#[trigger] storage.stakers[j]).0@ != owner@ by {
                    assert(storage.stakers[j] == old(storage).stakers[j]);
                }
                lemma_first_info(storage.stakers@, owner@, i as int);
                assert(storage.stakers@ =~= old(storage).stakers@.update(
                    i as int,
                    (old(storage).stakers@[i as int].0, stored),
                ));
            }
        },
        None => {
            storage.stakers.push((owner.clone(), stored));
            proof {
                let n = old(storage).stakers@.len() as int;
                assert forall|j: int| 0 <= j < n implies (#[trigger] storage.stakers[j]).0@ != owner@ by {
                    assert(storage.stakers[j] == old(storage).stakers[j]);
                }
                lemma_first_info(storage.stakers@, owner@, n);
                assert(storage.stakers@.drop_last() =~= old(storage).stakers@);
            }
        },
    }
}

/// A record with the address and none with it before is the first one.
pub proof fn lemma_first_info(stakers: Seq<(String, StakerInfoV1)>, owner: Seq<char>, i: int)
    requires
        0 <= i < stakers.len(),
        stakers[i].0@ == owner,
        forall|j: int| 0 <= j < i ==> (#[trigger] stakers[j]).0@ != owner,
    ensures
        has_info(stakers, owner),
        info_index(stakers, owner) == i,
{
    let k = info_index(stakers, owner);
    if k < i {
        assert(stakers[k].0@ != owner);
    }
    if k > i {
        assert(stakers[i].0@ != owner);
    }
}

/// Removes the first record of the staker with the address, if there is
/// one.
pub fn remove_staker_info(storage: &mut Storage, owner: &String)
    ensures
        final(storage).config == old(storage).config,
        final(storage).states == old(storage).states,
        has_info(old(storage).stakers@, owner@) ==> final(storage).stakers@ == old(storage).stakers@.remove(
            info_index(old(storage).stakers@, owner@),
        ),
        !has_info(old(storage).stakers@, owner@) ==> final(storage).stakers == old(storage).stakers,
{
    match find_info(&storage.stakers, owner) {
        Some(i) => {
            let _ = storage.stakers.remove(i);
        },
        None => {},
    }
}

} // verus!
