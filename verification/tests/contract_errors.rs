use mvua::common::error_codes;
use mvua::{payout_vault, policy, risk_pool, trigger_engine};

#[test]
fn test_error_codes_match_contract_range() {
    // risk-pool
    assert_eq!(risk_pool::Error::PoolNotFound.code(), 100);
    assert_eq!(risk_pool::Error::InsufficientReserves.code(), 101);
    assert_eq!(risk_pool::Error::SolvencyViolated.code(), 102);
    assert_eq!(risk_pool::Error::FeeCapExceeded.code(), 105);
    assert_eq!(risk_pool::Error::Unauthorized.code(), error_codes::UNAUTHORIZED);
    assert_eq!(risk_pool::Error::NotInitialized.code(), error_codes::NOT_INITIALIZED);
    assert_eq!(risk_pool::Error::Overflow.code(), error_codes::OVERFLOW);

    // policy
    assert_eq!(policy::Error::PolicyNotFound.code(), 200);
    assert_eq!(policy::Error::InvalidState.code(), 201);
    assert_eq!(policy::Error::WindowStarted.code(), 202);
    assert_eq!(policy::Error::NotTransferable.code(), 203);
    assert_eq!(policy::Error::QuoteMismatch.code(), 204);
    assert_eq!(policy::Error::Unauthorized.code(), error_codes::UNAUTHORIZED);
    assert_eq!(policy::Error::NotInitialized.code(), error_codes::NOT_INITIALIZED);
    assert_eq!(policy::Error::Overflow.code(), error_codes::OVERFLOW);

    // trigger-engine
    assert_eq!(trigger_engine::Error::IndexNotFound.code(), 400);
    assert_eq!(trigger_engine::Error::StaleIndex.code(), 401);
    assert_eq!(trigger_engine::Error::AlreadyFinalized.code(), 402);
    assert_eq!(trigger_engine::Error::NotTriggered.code(), 403);
    assert_eq!(trigger_engine::Error::NonDeterministicInput.code(), 404);
    assert_eq!(trigger_engine::Error::Unauthorized.code(), error_codes::UNAUTHORIZED);
    assert_eq!(trigger_engine::Error::NotInitialized.code(), error_codes::NOT_INITIALIZED);
    assert_eq!(trigger_engine::Error::Overflow.code(), error_codes::OVERFLOW);

    // payout-vault
    assert_eq!(payout_vault::Error::Paused.code(), 500);
    assert_eq!(payout_vault::Error::BatchComplete.code(), 501);
    assert_eq!(payout_vault::Error::NoFinalizedTrigger.code(), 502);
    assert_eq!(payout_vault::Error::PayoutExists.code(), 503);
    assert_eq!(payout_vault::Error::Unauthorized.code(), error_codes::UNAUTHORIZED);
    assert_eq!(payout_vault::Error::NotInitialized.code(), error_codes::NOT_INITIALIZED);
    assert_eq!(payout_vault::Error::Overflow.code(), error_codes::OVERFLOW);
}

#[test]
fn remaining_shared_codes() {
    assert_eq!(risk_pool::Error::TimelockPending.code(), error_codes::TIMELOCK_PENDING);
    assert_eq!(trigger_engine::Error::TimelockPending.code(), error_codes::TIMELOCK_PENDING);
    assert_eq!(risk_pool::Error::SeasonNotOpen.code(), 103);
    assert_eq!(risk_pool::Error::TrancheWithdrawBlocked.code(), 104);
}
