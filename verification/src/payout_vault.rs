//! payout-vault: resumable payouts to claimable balances. The contract holds
//! its guardian admin, the risk-pool address and the pause flag; its storage
//! layout names batch checkpoints and payout records.

use vstd::prelude::*;

use crate::env::{Address, Env, Symbol};

verus! {

/// Progress of a payout batch for a region and window.
#[derive(Clone, Copy, Debug, PartialEq, Eq)]
pub enum BatchState {
    /// Batch created, no payouts made yet.
    Open,
    /// Batch partially paid.
    InProgress,
    /// Every eligible policy has a payout entry.
    Complete,
}

/// Storage keys of the payout vault.
#[derive(Debug, PartialEq, Eq)]
pub enum DataKey {
    /// Guardian multisig configuration reference.
    Admin,
    /// Emergency pause flag.
    Paused,
    /// Resumable batch checkpoint for a region and window.
    Batch(Symbol, u64),
    /// A single policy's payout record.
    Payout(u64),
    /// The risk-pool address, source of committed funds.
    PoolRef,
}

/// Errors for payout-vault. Codes 500 to 599 belong to this contract; codes 900
/// to 999 are the shared range.
#[derive(Clone, Copy, Debug, PartialEq, Eq, PartialOrd, Ord)]
pub enum Error {
    Paused,
    BatchComplete,
    NoFinalizedTrigger,
    PayoutExists,
    Unauthorized,
    NotInitialized,
    Overflow,
}

impl Error {
    /// The numeric code of each error.
    pub open spec fn spec_code(self) -> u32 {
        match self {
            Error::Paused => 500,
            Error::BatchComplete => 501,
            Error::NoFinalizedTrigger => 502,
            Error::PayoutExists => 503,
            Error::Unauthorized => crate::common::error_codes::UNAUTHORIZED,
            Error::NotInitialized => crate::common::error_codes::NOT_INITIALIZED,
            Error::Overflow => crate::common::error_codes::OVERFLOW,
        }
    }

    /// The numeric code of this error: its own range 500 to 599, or the
    /// shared range 900 to 999.
    pub fn code(&self) -> (c: u32)
        ensures
            c == self.spec_code(),
            (500 <= c <= 599) || (900 <= c <= 999),
    {
        match self {
            Error::Paused => 500,
            Error::BatchComplete => 501,
            Error::NoFinalizedTrigger => 502,
            Error::PayoutExists => 503,
            Error::Unauthorized => crate::common::error_codes::UNAUTHORIZED,
            Error::NotInitialized => crate::common::error_codes::NOT_INITIALIZED,
            Error::Overflow => crate::common::error_codes::OVERFLOW,
        }
    }
}

/// No two errors of the payout-vault contract share a code.
pub proof fn lemma_error_codes_distinct(a: Error, b: Error)
    requires
        a != b,
    ensures
        a.spec_code() != b.spec_code(),
{
}

/// The vault's instance storage: admin, pool address and pause flag, once set.
#[derive(Clone, Copy, Debug)]
pub struct PayoutVault {
    pub admin: Option<Address>,
    pub pool: Option<Address>,
    pub paused: Option<bool>,
}

impl PayoutVault {
    /// Initialize the vault with its guardian admin and the risk-pool address.
    /// Runs once at deployment. Starts unpaused.
    pub fn new(env: &Env, admin: Address, pool: Address) -> (c: Self)
        ensures
            c.admin == Some(admin),
            c.pool == Some(pool),
            c.paused == Some(false),
    {
        PayoutVault { admin: Some(admin), pool: Some(pool), paused: Some(false) }
    }

    /// The configured admin, or `NotInitialized` if the contract was never
    /// constructed.
    pub fn admin(&self) -> (r: Result<Address, Error>)
        ensures
            r == match self.admin {
                Some(a) => Ok::<Address, Error>(a),
                None => Err(Error::NotInitialized),
            },
    {
        match self.admin {
            Some(a) => Ok(a),
            None => Err(Error::NotInitialized),
        }
    }

    /// Whether payouts are currently paused; a vault whose flag was never
    /// written counts as unpaused.
    pub fn is_paused(&self) -> (r: bool)
        ensures
            r == match self.paused {
                Some(p) => p,
                None => false,
            },
    {
        match self.paused {
            Some(p) => p,
            None => false,
        }
    }
}

} // verus!
