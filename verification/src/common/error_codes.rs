//! Shared error codes, reserved in the 900 to 999 range for cross cutting
//! concerns. Each contract's error enum maps these variants to exactly these
//! codes, so a code reads the same from any contract.

use vstd::prelude::*;

verus! {

/// Caller lacks the required authorization.
pub const UNAUTHORIZED: u32 = 900;

/// A timelocked change has been proposed but its delay has not elapsed.
pub const TIMELOCK_PENDING: u32 = 901;

/// The contract has not been initialized.
pub const NOT_INITIALIZED: u32 = 902;

/// A checked arithmetic operation overflowed.
pub const OVERFLOW: u32 = 903;

} // verus!
