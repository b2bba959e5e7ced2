use mvua::payout_vault::PayoutVault;
use mvua::policy::Policy;
use mvua::risk_pool::RiskPool;
use mvua::test_utils::{new_env, random_address};
use mvua::trigger_engine::TriggerEngine;

#[test]
fn constructor_sets_admin_and_starts_unpaused() {
    let mut env = new_env();
    let admin = random_address(&mut env);
    let pool = random_address(&mut env);
    let vault = PayoutVault::new(&env, admin, pool);
    assert_eq!(vault.admin(), Ok(admin));
    assert!(!vault.is_paused());
}

#[test]
fn test_constructor_sets_admin() {
    let mut env = new_env();
    let admin = random_address(&mut env);
    assert_eq!(Policy::new(&env, admin).admin(), Ok(admin));
    assert_eq!(RiskPool::new(&env, admin).admin(), Ok(admin));
    assert_eq!(TriggerEngine::new(&env, admin).admin(), Ok(admin));
}

#[test]
fn unconstructed_contracts_report_not_initialized() {
    let pool = RiskPool { admin: None };
    assert_eq!(pool.admin(), Err(mvua::risk_pool::Error::NotInitialized));
    let policy = Policy { admin: None };
    assert_eq!(policy.admin(), Err(mvua::policy::Error::NotInitialized));
    let engine = TriggerEngine { admin: None };
    assert_eq!(engine.admin(), Err(mvua::trigger_engine::Error::NotInitialized));
    let vault = PayoutVault { admin: None, pool: None, paused: None };
    assert_eq!(vault.admin(), Err(mvua::payout_vault::Error::NotInitialized));
    assert!(!vault.is_paused());
    let paused = PayoutVault { admin: None, pool: None, paused: Some(true) };
    assert!(paused.is_paused());
}
