//! Parametric climate insurance protocol: the rules of its contracts as a
//! verified library.
//!
//! - `common`: shared error codes, basis point math, storage lifetimes.
//! - `env`: the ledger, addresses and symbols as the contracts read them.
//! - `oracle_adapter`: publisher registry, signed observations, median.
//! - `risk_pool`, `policy`, `trigger_engine`, `payout_vault`: the other
//!   contracts' storage layouts, error codes and configuration.
//! - `test_utils`: fixtures shared by the contracts' tests.

pub mod common;
pub mod env;
pub mod oracle_adapter;
pub mod payout_vault;
pub mod policy;
pub mod risk_pool;
pub mod test_utils;
pub mod trigger_engine;
