//! Reward staking: bonded tokens earn rewards along an emission schedule.

pub mod contract;
pub mod msg;
pub mod state;
