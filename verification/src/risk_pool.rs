//! risk-pool: custody of premiums and tranche capital. The contract holds its
//! guardian admin; its storage layout names the pool configuration, tranche
//! balances and receipts, season state, treasury and solvency record.

use vstd::prelude::*;

use crate::env::{Address, Env};

verus! {

/// Capital tranche seniority. Junior absorbs losses first and earns more; the
/// senior tranche is paid down first on withdrawal.
#[derive(Clone, Copy, Debug, PartialEq, Eq)]
pub enum Tier {
    Junior,
    Senior,
}

/// Storage keys of the pool contract.
#[derive(Clone, Copy, Debug, PartialEq, Eq)]
pub enum DataKey {
    /// Guardian multisig configuration reference.
    Admin,
    /// Per pool configuration.
    PoolConfig(u64),
    /// Deposited amount and receipt supply for a pool tranche.
    Tranche(u64, Tier),
    /// A holder's receipt balance in a pool tranche.
    Receipt(u64, Tier, Address),
    /// Season state and running premium and payout totals.
    Season(u64, u64),
    /// Accrued protocol and publisher fees for a pool.
    Treasury(u64),
    /// Solvency record: reserves and committed payouts for a pool.
    Solvency(u64),
}

/// Errors for risk-pool. Codes 100 to 199 belong to this contract; codes 900
/// to 999 are the shared range.
#[derive(Clone, Copy, Debug, PartialEq, Eq, PartialOrd, Ord)]
pub enum Error {
    PoolNotFound,
    InsufficientReserves,
    SolvencyViolated,
    SeasonNotOpen,
    TrancheWithdrawBlocked,
    FeeCapExceeded,
    Unauthorized,
    TimelockPending,
    NotInitialized,
    Overflow,
}

impl Error {
    /// The numeric code of each error.
    pub open spec fn spec_code(self) -> u32 {
        match self {
            Error::PoolNotFound => 100,
            Error::InsufficientReserves => 101,
            Error::SolvencyViolated => 102,
            Error::SeasonNotOpen => 103,
            Error::TrancheWithdrawBlocked => 104,
            Error::FeeCapExceeded => 105,
            Error::Unauthorized => crate::common::error_codes::UNAUTHORIZED,
            Error::TimelockPending => crate::common::error_codes::TIMELOCK_PENDING,
            Error::NotInitialized => crate::common::error_codes::NOT_INITIALIZED,
            Error::Overflow => crate::common::error_codes::OVERFLOW,
        }
    }

    /// The numeric code of this error: its own range 100 to 199, or the
    /// shared range 900 to 999.
    pub fn code(&self) -> (c: u32)
        ensures
            c == self.spec_code(),
            (100 <= c <= 199) || (900 <= c <= 999),
    {
        match self {
            Error::PoolNotFound => 100,
            Error::InsufficientReserves => 101,
            Error::SolvencyViolated => 102,
            Error::SeasonNotOpen => 103,
            Error::TrancheWithdrawBlocked => 104,
            Error::FeeCapExceeded => 105,
            Error::Unauthorized => crate::common::error_codes::UNAUTHORIZED,
            Error::TimelockPending => crate::common::error_codes::TIMELOCK_PENDING,
            Error::NotInitialized => crate::common::error_codes::NOT_INITIALIZED,
            Error::Overflow => crate::common::error_codes::OVERFLOW,
        }
    }
}

/// No two errors of the pool contract share a code.
pub proof fn lemma_error_codes_distinct(a: Error, b: Error)
    requires
        a != b,
    ensures
        a.spec_code() != b.spec_code(),
{
}

/// The pool contract's instance storage: the guardian admin, once set.
#[derive(Clone, Copy, Debug)]
pub struct RiskPool {
    pub admin: Option<Address>,
}

impl RiskPool {
    /// Initialize the pool contract with its guardian admin. Runs once at
    /// deployment.
    pub fn new(env: &Env, admin: Address) -> (pool: Self)
        ensures
            pool.admin == Some(admin),
    {
        RiskPool { admin: Some(admin) }
    }

    /// The configured admin, or `NotInitialized` if the contract was never
    /// constructed.
    pub fn admin(&self) -> (r: Result<Address, Error>)
        ensures
            r == match self.admin {
                Some(a) => Ok::<Address, Error>(a),
                None => Err(Error::NotInitialized),
            },
    {
        match self.admin {
            Some(a) => Ok(a),
            None => Err(Error::NotInitialized),
        }
    }
}

} // verus!
