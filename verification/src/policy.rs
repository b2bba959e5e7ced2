//! policy: the user facing policy certificate and its lifecycle. The contract
//! holds its guardian admin; its storage layout names the policy counter,
//! policy records, off chain references and transferability flags.

use vstd::prelude::*;

use crate::env::{Address, Env};

verus! {

/// Lifecycle state of a policy certificate.
#[derive(Clone, Copy, Debug, PartialEq, Eq)]
pub enum PolicyState {
    Active,
    Triggered,
    Paid,
    Expired,
    Cancelled,
}

/// Storage keys of the policy contract.
#[derive(Clone, Copy, Debug, PartialEq, Eq)]
pub enum DataKey {
    /// Guardian multisig configuration reference.
    Admin,
    /// Monotonic source of policy ids.
    PolicyCounter,
    /// A policy record keyed by its id.
    Policy(u64),
    /// Opaque off chain reference for a policy (no personal data on chain).
    MetaPointer(u64),
    /// Whether policies of a pool may be transferred (default false).
    Transferable(u64),
}

/// Errors for policy. Codes 200 to 299 belong to this contract; codes 900
/// to 999 are the shared range.
#[derive(Clone, Copy, Debug, PartialEq, Eq, PartialOrd, Ord)]
pub enum Error {
    PolicyNotFound,
    InvalidState,
    WindowStarted,
    NotTransferable,
    QuoteMismatch,
    Unauthorized,
    NotInitialized,
    Overflow,
}

impl Error {
    /// The numeric code of each error.
    pub open spec fn spec_code(self) -> u32 {
        match self {
            Error::PolicyNotFound => 200,
            Error::InvalidState => 201,
            Error::WindowStarted => 202,
            Error::NotTransferable => 203,
            Error::QuoteMismatch => 204,
            Error::Unauthorized => crate::common::error_codes::UNAUTHORIZED,
            Error::NotInitialized => crate::common::error_codes::NOT_INITIALIZED,
            Error::Overflow => crate::common::error_codes::OVERFLOW,
        }
    }

    /// The numeric code of this error: its own range 200 to 299, or the
    /// shared range 900 to 999.
    pub fn code(&self) -> (c: u32)
        ensures
            c == self.spec_code(),
            (200 <= c <= 299) || (900 <= c <= 999),
    {
        match self {
            Error::PolicyNotFound => 200,
            Error::InvalidState => 201,
            Error::WindowStarted => 202,
            Error::NotTransferable => 203,
            Error::QuoteMismatch => 204,
            Error::Unauthorized => crate::common::error_codes::UNAUTHORIZED,
            Error::NotInitialized => crate::common::error_codes::NOT_INITIALIZED,
            Error::Overflow => crate::common::error_codes::OVERFLOW,
        }
    }
}

/// No two errors of the policy contract share a code.
pub proof fn lemma_error_codes_distinct(a: Error, b: Error)
    requires
        a != b,
    ensures
        a.spec_code() != b.spec_code(),
{
}

/// The policy contract's instance storage: the guardian admin, once set.
#[derive(Clone, Copy, Debug)]
pub struct Policy {
    pub admin: Option<Address>,
}

impl Policy {
    /// Initialize the policy contract with its guardian admin. Runs once at
    /// deployment.
    pub fn new(env: &Env, admin: Address) -> (c: Self)
        ensures
            c.admin == Some(admin),
    {
        Policy { admin: Some(admin) }
    }

    /// The configured admin, or `NotInitialized` if the contract was never
    /// constructed.
    pub fn admin(&self) -> (r: Result<Address, Error>)
        ensures
            r == match self.admin {
                Some(a) => Ok::<Address, Error>(a),
                None => Err(Error::NotInitialized),
            },
    {
        match self.admin {
            Some(a) => Ok(a),
            None => Err(Error::NotInitialized),
        }
    }
}

} // verus!
