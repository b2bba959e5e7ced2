//! trigger-engine: index evaluation and the trigger lifecycle. The contract
//! holds its guardian admin; its storage layout names index definitions,
//! trigger states and evaluation cursors.

use vstd::prelude::*;

use crate::env::{Address, Env, Symbol};

verus! {

/// Trigger lifecycle for a region and window: Healthy, then Triggered, then
/// Finalized.
#[derive(Clone, Copy, Debug, PartialEq, Eq)]
pub enum TriggerStatus {
    /// No breach observed.
    Healthy,
    /// Breach observed at the given ledger timestamp; challenge window open.
    Triggered(u64),
    /// Finalized at the given timestamp with a severity in basis points.
    Finalized(u64, crate::common::Bps),
}

/// Storage keys of the trigger engine.
#[derive(Debug, PartialEq, Eq)]
pub enum DataKey {
    /// Guardian multisig configuration reference.
    Admin,
    /// An index definition keyed by its id.
    IndexDef(u64),
    /// Trigger state for a region and window.
    TriggerState(Symbol, u64),
    /// Last evaluated observation seq for a region and window.
    EvalCursor(Symbol, u64),
}

/// Errors for trigger-engine. Codes 400 to 499 belong to this contract; codes 900
/// to 999 are the shared range.
#[derive(Clone, Copy, Debug, PartialEq, Eq, PartialOrd, Ord)]
pub enum Error {
    IndexNotFound,
    StaleIndex,
    AlreadyFinalized,
    NotTriggered,
    NonDeterministicInput,
    Unauthorized,
    TimelockPending,
    NotInitialized,
    Overflow,
}

impl Error {
    /// The numeric code of each error.
    pub open spec fn spec_code(self) -> u32 {
        match self {
            Error::IndexNotFound => 400,
            Error::StaleIndex => 401,
            Error::AlreadyFinalized => 402,
            Error::NotTriggered => 403,
            Error::NonDeterministicInput => 404,
            Error::Unauthorized => crate::common::error_codes::UNAUTHORIZED,
            Error::TimelockPending => crate::common::error_codes::TIMELOCK_PENDING,
            Error::NotInitialized => crate::common::error_codes::NOT_INITIALIZED,
            Error::Overflow => crate::common::error_codes::OVERFLOW,
        }
    }

    /// The numeric code of this error: its own range 400 to 499, or the
    /// shared range 900 to 999.
    pub fn code(&self) -> (c: u32)
        ensures
            c == self.spec_code(),
            (400 <= c <= 499) || (900 <= c <= 999),
    {
        match self {
            Error::IndexNotFound => 400,
            Error::StaleIndex => 401,
            Error::AlreadyFinalized => 402,
            Error::NotTriggered => 403,
            Error::NonDeterministicInput => 404,
            Error::Unauthorized => crate::common::error_codes::UNAUTHORIZED,
            Error::TimelockPending => crate::common::error_codes::TIMELOCK_PENDING,
            Error::NotInitialized => crate::common::error_codes::NOT_INITIALIZED,
            Error::Overflow => crate::common::error_codes::OVERFLOW,
        }
    }
}

/// No two errors of the trigger-engine contract share a code.
pub proof fn lemma_error_codes_distinct(a: Error, b: Error)
    requires
        a != b,
    ensures
        a.spec_code() != b.spec_code(),
{
}

/// The trigger engine's instance storage: the guardian admin, once set.
#[derive(Clone, Copy, Debug)]
pub struct TriggerEngine {
    pub admin: Option<Address>,
}

impl TriggerEngine {
    /// Initialize the trigger engine with its guardian admin. Runs once at
    /// deployment.
    pub fn new(env: &Env, admin: Address) -> (c: Self)
        ensures
            c.admin == Some(admin),
    {
        TriggerEngine { admin: Some(admin) }
    }

    /// The configured admin, or `NotInitialized` if the contract was never
    /// constructed.
    pub fn admin(&self) -> (r: Result<Address, Error>)
        ensures
            r == match self.admin {
                Some(a) => Ok::<Address, Error>(a),
                None => Err(Error::NotInitialized),
            },
    {
        match self.admin {
            Some(a) => Ok(a),
            None => Err(Error::NotInitialized),
        }
    }
}

} // verus!
