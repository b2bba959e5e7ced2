use ed25519_dalek::{Signer, SigningKey};
use mvua::env::{Address, Symbol};
use mvua::oracle_adapter::ObservationPayload;
use mvua::oracle_adapter::rings::Ring;
use mvua::oracle_adapter::{Error, Head, Observation, OracleAdapter, PendingRegistry, PublisherInfo};
use mvua::test_utils::new_env;

fn sym(s: &str) -> Symbol {
    Symbol::new(s.as_bytes()).unwrap()
}

fn obs(value: i128, timestamp: u64, key: u8) -> Observation {
    Observation { value, timestamp, publisher: [key; 32], accepted: true }
}

fn ring(region: &str, metric: &str, head: Head, values: &[(i128, u8)]) -> Ring {
    let mut slots = [None; 16];
    for (i, (v, k)) in values.iter().enumerate() {
        slots[i] = Some(obs(*v, 0, *k));
    }
    Ring { region: sym(region), metric: sym(metric), head, slots, challenges: [None; 16] }
}

#[test]
fn load_rebuilds_the_stored_entries() {
    let admin = Address { id: [9; 32] };
    let publishers = vec![
        ([1u8; 32], PublisherInfo { active: true, added_at: 5 }),
        ([2u8; 32], PublisherInfo { active: false, added_at: 6 }),
        // A later entry for a key replaces the earlier one.
        ([1u8; 32], PublisherInfo { active: true, added_at: 7 }),
    ];
    let pending = vec![([3u8; 32], PendingRegistry { add: true, eta: 100 })];
    let rings = vec![ring("nairobi", "rain_mm", Head { next_seq: 3, count: 3 }, &[(10, 1), (20, 2), (30, 1)])];
    let oracle = OracleAdapter::load(Some(admin), 48, &publishers, &pending, rings).unwrap();
    assert_eq!(oracle.admin(), Ok(admin));
    assert_eq!(oracle.staleness_bound(), 48);
    assert!(oracle.is_publisher(&[1; 32]));
    assert!(!oracle.is_publisher(&[2; 32]));
    assert_eq!(oracle.publisher_info(&[1; 32]).unwrap().added_at, 7);
    assert_eq!(oracle.pending_publisher(&[3; 32]), Ok(PendingRegistry { add: true, eta: 100 }));
    assert_eq!(oracle.head(&sym("nairobi"), &sym("rain_mm")), Head { next_seq: 3, count: 3 });
    assert_eq!(oracle.observation(&sym("nairobi"), &sym("rain_mm"), 2).unwrap().value, 30);
    let env = new_env();
    assert_eq!(oracle.median(&env, &sym("nairobi"), &sym("rain_mm")), Ok(20));
}

#[test]
fn load_refuses_malformed_rings() {
    // A count that disagrees with the cursor.
    let bad_count = ring("r", "m", Head { next_seq: 2, count: 1 }, &[(1, 1)]);
    assert!(OracleAdapter::load(None, 48, &vec![], &vec![], vec![bad_count]).is_none());
    // An observation beyond the count.
    let extra = ring("r", "m", Head { next_seq: 1, count: 1 }, &[(1, 1), (2, 2)]);
    assert!(OracleAdapter::load(None, 48, &vec![], &vec![], vec![extra]).is_none());
    // A negative stored value.
    let negative = ring("r", "m", Head { next_seq: 1, count: 1 }, &[(-1, 1)]);
    assert!(OracleAdapter::load(None, 48, &vec![], &vec![], vec![negative]).is_none());
    // An unconstructed contract loads, and reports it.
    let empty = OracleAdapter::load(None, 48, &vec![], &vec![], vec![]).unwrap();
    assert_eq!(empty.admin(), Err(Error::NotInitialized));
}

#[test]
fn guardian_calls_need_a_configured_admin() {
    let env = new_env();
    let mut oracle = OracleAdapter::load(None, 48, &vec![], &vec![], vec![]).unwrap();
    assert_eq!(oracle.propose_publisher(&env, &[1; 32], true), Err(Error::NotInitialized));
    assert_eq!(oracle.execute_publisher(&env, &[1; 32]), Err(Error::NotInitialized));
    assert_eq!(oracle.cancel_publisher(&[1; 32]), Err(Error::NotInitialized));
    assert_eq!(oracle.challenge(&sym("r"), &sym("m"), 0, 1), Err(Error::NotInitialized));
    assert_eq!(oracle.unchallenge(&sym("r"), &sym("m"), 0), Err(Error::NotInitialized));
}

#[test]
fn wide_staleness_bound_overflows_and_sums_overflow() {
    let env = new_env();
    let rings = vec![ring("r", "m", Head { next_seq: 2, count: 2 }, &[(1, 1), (2, 2)])];
    let wide = OracleAdapter::load(Some(Address { id: [0; 32] }), u64::MAX, &vec![], &vec![], rings).unwrap();
    assert_eq!(wide.median(&env, &sym("r"), &sym("m")), Err(Error::Overflow));

    let big = vec![ring("r", "m", Head { next_seq: 2, count: 2 }, &[(i128::MAX, 1), (i128::MAX - 1, 2)])];
    let oracle = OracleAdapter::load(None, 48, &vec![], &vec![], big).unwrap();
    assert_eq!(oracle.median(&env, &sym("r"), &sym("m")), Err(Error::Overflow));

    let odd = vec![ring("r", "m", Head { next_seq: 3, count: 3 }, &[(i128::MAX, 1), (i128::MAX, 2), (0, 1)])];
    let oracle = OracleAdapter::load(None, 48, &vec![], &vec![], odd).unwrap();
    assert_eq!(oracle.median(&env, &sym("r"), &sym("m")), Ok(i128::MAX));
}

#[test]
fn cursor_at_its_limit_refuses_more_writes() {
    let env = new_env();
    let sk = SigningKey::from_bytes(&[7; 32]);
    let pk = sk.verifying_key().to_bytes();
    let values: Vec<(i128, u8)> = (0..16).map(|i| (i as i128, 1u8)).collect();
    let rings = vec![ring("r", "m", Head { next_seq: u32::MAX, count: 16 }, &values)];
    let publishers = vec![(pk, PublisherInfo { active: true, added_at: 0 })];
    let mut oracle = OracleAdapter::load(None, 48, &publishers, &vec![], rings).unwrap();
    let payload = ObservationPayload { region: sym("r"), metric: sym("m"), timestamp: 0, value: 1 };
    let sig = sk.sign(&payload.to_xdr()).to_bytes();
    assert_eq!(oracle.submit(&env, &sym("r"), &sym("m"), 0, 1, &pk, &sig), Err(Error::Overflow));
    assert_eq!(oracle.head(&sym("r"), &sym("m")).next_seq, u32::MAX);
}
