//! Token-weighted governance and share-based staking: the accounting core.
//!
//! Holders deposit a token and get shares of the pool, vote those shares on
//! polls, and earn rewards from airdrops; a second pool pays rewards on
//! bonded tokens along an emission schedule, and a treasury splits income
//! among its strategies.
//!
//! Every amount is an unsigned 128-bit integer and every ratio is an 18-digit
//! fixed-point [`math::Decimal`]. No operation wraps or panics: where a sum, a
//! difference or a ratio does not fit, the operation fails and leaves its
//! arguments as they were. A command does not reach out of the library: what
//! it needs to know of the outside, such as a token balance or the time, is
//! handed to it, and what has to be done outside, such as a transfer or a
//! further command, is handed back in its response, in the order in which the
//! host has to do it.
//!
//! - [`math`]: ratios and decimals.
//! - [`common`]: blocks, attributes of responses, and the paging of lists.
//! - [`gov`]: the governance ledger. [`gov::staking`], [`gov::poll`] and
//!   [`gov::airdrop`] hold the rules on single records; [`gov::executions`]
//!   and [`gov::queries`] apply them to the ledger as a whole,
//!   [`gov::states::Storage`], and keep it consistent
//!   ([`gov::states::Storage::wf`]); [`gov::entrypoints`] takes commands,
//!   queries and upgrades as messages.
//! - [`staking`]: the pool that pays rewards on bonded tokens.
//! - [`treasury`] and [`collector`]: the split of income.

pub mod collector;
pub mod common;
pub mod error;
pub mod gov;
pub mod math;
pub mod staking;
pub mod treasury;
