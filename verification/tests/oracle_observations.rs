use ed25519_dalek::{Signer, SigningKey};
use mvua::env::{Env, Symbol};
use mvua::oracle_adapter::table::PublisherKey;
use mvua::oracle_adapter::median::{contains_publisher, sort_ascending};
use mvua::oracle_adapter::{Error, ObservationPayload, OracleAdapter};
use mvua::test_utils::{advance_time, new_env, random_address};

const TIMELOCK: u64 = 7 * 24 * 60 * 60;

fn signer(seed: u8) -> SigningKey {
    SigningKey::from_bytes(&[seed; 32])
}

fn pubkey(sk: &SigningKey) -> PublisherKey {
    sk.verifying_key().to_bytes()
}

fn sym(s: &str) -> Symbol {
    Symbol::new(s.as_bytes()).unwrap()
}

// Sign the XDR of the exact payload the contract rebuilds in `submit`.
fn sign(sk: &SigningKey, region: &Symbol, metric: &Symbol, timestamp: u64, value: i128) -> [u8; 64] {
    let payload = ObservationPayload {
        region: region.duplicate(),
        metric: metric.duplicate(),
        timestamp,
        value,
    };
    let message = payload.to_xdr();
    sk.sign(&message).to_bytes()
}

fn setup() -> (Env, OracleAdapter) {
    let mut env = new_env();
    let admin = random_address(&mut env);
    let oracle = OracleAdapter::new(&env, admin);
    (env, oracle)
}

fn register(env: &mut Env, oracle: &mut OracleAdapter, pk: &PublisherKey) {
    oracle.propose_publisher(env, pk, true).unwrap();
    advance_time(env, TIMELOCK + 1);
    oracle.execute_publisher(env, pk).unwrap();
}

fn submit_from(
    env: &Env,
    oracle: &mut OracleAdapter,
    sk: &SigningKey,
    region: &Symbol,
    metric: &Symbol,
    value: i128,
) -> u32 {
    let pk = pubkey(sk);
    let ts = env.timestamp();
    let sig = sign(sk, region, metric, ts, value);
    oracle.submit(env, region, metric, ts, value, &pk, &sig).unwrap()
}

#[test]
fn submit_by_unknown_publisher_is_rejected() {
    let (env, mut oracle) = setup();
    let region = sym("nairobi");
    let metric = sym("rain_mm");
    let sk = signer(7);
    let pk = pubkey(&sk);
    let ts = env.timestamp();
    let sig = sign(&sk, &region, &metric, ts, 100);
    assert_eq!(
        oracle.submit(&env, &region, &metric, ts, 100, &pk, &sig),
        Err(Error::UnknownPublisher)
    );
}

#[test]
fn submit_stores_observation_and_advances_ring() {
    let (mut env, mut oracle) = setup();
    let region = sym("nairobi");
    let metric = sym("rain_mm");
    let sk = signer(8);
    let pk = pubkey(&sk);
    register(&mut env, &mut oracle, &pk);

    let ts = env.timestamp();
    let sig = sign(&sk, &region, &metric, ts, 125);
    let slot = oracle.submit(&env, &region, &metric, ts, 125, &pk, &sig).unwrap();
    assert_eq!(slot, 0);

    let head = oracle.head(&region, &metric);
    assert_eq!(head.next_seq, 1);
    assert_eq!(head.count, 1);

    let obs = oracle.observation(&region, &metric, 0).unwrap();
    assert_eq!(obs.value, 125);
    assert_eq!(obs.publisher, pk);
    assert!(obs.accepted);
}

#[test]
fn submit_rejects_invalid_value_and_future_timestamp() {
    let (mut env, mut oracle) = setup();
    let region = sym("nairobi");
    let metric = sym("rain_mm");
    let sk = signer(9);
    let pk = pubkey(&sk);
    register(&mut env, &mut oracle, &pk);

    let ts = env.timestamp();
    let neg = sign(&sk, &region, &metric, ts, -1);
    assert_eq!(
        oracle.submit(&env, &region, &metric, ts, -1, &pk, &neg),
        Err(Error::InvalidObservation)
    );

    let future = ts + 10;
    let sig = sign(&sk, &region, &metric, future, 10);
    assert_eq!(
        oracle.submit(&env, &region, &metric, future, 10, &pk, &sig),
        Err(Error::InvalidObservation)
    );
}

#[test]
fn forged_signature_traps() {
    let (mut env, mut oracle) = setup();
    let region = sym("nairobi");
    let metric = sym("rain_mm");
    let sk = signer(10);
    let pk = pubkey(&sk);
    register(&mut env, &mut oracle, &pk);

    let ts = env.timestamp();
    // Sign with a different key than the claimed publisher.
    let forged = sign(&signer(11), &region, &metric, ts, 50);
    // A forged signature traps (no contract error), so try_submit reports
    // the trap.
    assert!(oracle.try_submit(&env, &region, &metric, ts, 50, &pk, &forged).is_none());
}

#[test]
fn forged_signature_traps_and_writes_nothing() {
    let (mut env, mut oracle) = setup();
    let region = sym("nairobi");
    let metric = sym("rain_mm");
    let sk = signer(16);
    let pk = pubkey(&sk);
    register(&mut env, &mut oracle, &pk);
    let ts = env.timestamp();
    let forged = sign(&signer(17), &region, &metric, ts, 50);
    assert_eq!(oracle.try_submit(&env, &region, &metric, ts, 50, &pk, &forged), None);
    // A signature over a different value does not verify either.
    let other_value = sign(&sk, &region, &metric, ts, 51);
    assert_eq!(oracle.try_submit(&env, &region, &metric, ts, 50, &pk, &other_value), None);
    // Before the signature is checked, the other errors come first.
    assert_eq!(
        oracle.try_submit(&env, &region, &metric, ts, -1, &pk, &forged),
        Some(Err(Error::InvalidObservation))
    );
    assert_eq!(
        oracle.try_submit(&env, &region, &metric, ts, 50, &pubkey(&signer(99)), &forged),
        Some(Err(Error::UnknownPublisher))
    );
    assert_eq!(oracle.head(&region, &metric).next_seq, 0);
    assert_eq!(oracle.observation(&region, &metric, 0), Err(Error::InvalidObservation));
    // A valid signature goes through try_submit as through submit.
    let good = sign(&sk, &region, &metric, ts, 50);
    assert_eq!(oracle.try_submit(&env, &region, &metric, ts, 50, &pk, &good), Some(Ok(0)));
    assert_eq!(oracle.observation(&region, &metric, 0).unwrap().value, 50);
}

#[test]
fn median_requires_min_distinct_publishers() {
    let (mut env, mut oracle) = setup();
    let region = sym("nairobi");
    let metric = sym("rain_mm");
    let sk1 = signer(20);
    let sk2 = signer(21);
    register(&mut env, &mut oracle, &pubkey(&sk1));
    register(&mut env, &mut oracle, &pubkey(&sk2));

    // One publisher is not enough: the index stays stale.
    submit_from(&env, &mut oracle, &sk1, &region, &metric, 100);
    assert_eq!(oracle.median(&env, &region, &metric), Err(Error::ObservationStale));

    // A second distinct publisher makes the index available.
    submit_from(&env, &mut oracle, &sk2, &region, &metric, 200);
    assert_eq!(oracle.median(&env, &region, &metric), Ok(150));
}

#[test]
fn median_of_odd_count_is_the_middle() {
    let (mut env, mut oracle) = setup();
    let region = sym("nairobi");
    let metric = sym("rain_mm");
    let sk1 = signer(30);
    let sk2 = signer(31);
    let sk3 = signer(32);
    register(&mut env, &mut oracle, &pubkey(&sk1));
    register(&mut env, &mut oracle, &pubkey(&sk2));
    register(&mut env, &mut oracle, &pubkey(&sk3));

    submit_from(&env, &mut oracle, &sk1, &region, &metric, 10);
    submit_from(&env, &mut oracle, &sk2, &region, &metric, 30);
    submit_from(&env, &mut oracle, &sk3, &region, &metric, 20);
    assert_eq!(oracle.median(&env, &region, &metric), Ok(20));
}

#[test]
fn challenge_excludes_slot_from_median() {
    let (mut env, mut oracle) = setup();
    let region = sym("nairobi");
    let metric = sym("rain_mm");
    let sk1 = signer(40);
    let sk2 = signer(41);
    let sk3 = signer(42);
    register(&mut env, &mut oracle, &pubkey(&sk1));
    register(&mut env, &mut oracle, &pubkey(&sk2));
    register(&mut env, &mut oracle, &pubkey(&sk3));

    submit_from(&env, &mut oracle, &sk1, &region, &metric, 10);
    submit_from(&env, &mut oracle, &sk2, &region, &metric, 20);
    let outlier = submit_from(&env, &mut oracle, &sk3, &region, &metric, 30);
    assert_eq!(oracle.median(&env, &region, &metric), Ok(20));

    // Flagging the outlier drops it: [10, 20] over two publishers averages 15.
    oracle.challenge(&region, &metric, outlier, 1).unwrap();
    assert!(oracle.is_challenged(&region, &metric, outlier));
    assert_eq!(oracle.median(&env, &region, &metric), Ok(15));

    // Re-challenging is rejected; clearing restores the value.
    assert_eq!(oracle.challenge(&region, &metric, outlier, 1), Err(Error::Challenged));
    oracle.unchallenge(&region, &metric, outlier).unwrap();
    assert_eq!(oracle.median(&env, &region, &metric), Ok(20));
}

#[test]
fn challenge_unknown_slot_is_rejected() {
    let (_env, mut oracle) = setup();
    let region = sym("nairobi");
    let metric = sym("rain_mm");
    assert_eq!(oracle.challenge(&region, &metric, 0, 1), Err(Error::InvalidObservation));
    assert_eq!(oracle.challenge(&region, &metric, 99, 1), Err(Error::InvalidObservation));
    // Clearing an unflagged slot is an idempotent no-op.
    assert_eq!(oracle.unchallenge(&region, &metric, 0), Ok(()));
    assert!(!oracle.is_challenged(&region, &metric, 0));
}

#[test]
fn stale_observations_are_excluded() {
    let (mut env, mut oracle) = setup();
    let region = sym("nairobi");
    let metric = sym("rain_mm");
    let sk1 = signer(50);
    let sk2 = signer(51);
    register(&mut env, &mut oracle, &pubkey(&sk1));
    register(&mut env, &mut oracle, &pubkey(&sk2));

    submit_from(&env, &mut oracle, &sk1, &region, &metric, 10);
    submit_from(&env, &mut oracle, &sk2, &region, &metric, 20);
    assert_eq!(oracle.median(&env, &region, &metric), Ok(15));

    // Past the 48h staleness bound, both drop out and the index is stale.
    advance_time(&mut env, 49 * 3_600);
    assert_eq!(oracle.median(&env, &region, &metric), Err(Error::ObservationStale));
}

#[test]
fn median_with_no_observations_is_stale() {
    let (env, oracle) = setup();
    let region = sym("nairobi");
    let metric = sym("rain_mm");
    assert_eq!(oracle.median(&env, &region, &metric), Err(Error::ObservationStale));
}

#[test]
fn exactly_at_the_staleness_bound_still_counts() {
    let (mut env, mut oracle) = setup();
    let region = sym("kisumu");
    let metric = sym("rain_mm");
    let sk1 = signer(60);
    let sk2 = signer(61);
    register(&mut env, &mut oracle, &pubkey(&sk1));
    register(&mut env, &mut oracle, &pubkey(&sk2));
    submit_from(&env, &mut oracle, &sk1, &region, &metric, 7);
    submit_from(&env, &mut oracle, &sk2, &region, &metric, 8);
    advance_time(&mut env, 48 * 3_600);
    // (7 + 8) / 2 rounds toward zero.
    assert_eq!(oracle.median(&env, &region, &metric), Ok(7));
    advance_time(&mut env, 1);
    assert_eq!(oracle.median(&env, &region, &metric), Err(Error::ObservationStale));
}

#[test]
fn ring_wraps_after_sixteen_writes() {
    let (mut env, mut oracle) = setup();
    let region = sym("nakuru");
    let metric = sym("rain_mm");
    let sk1 = signer(70);
    let sk2 = signer(71);
    register(&mut env, &mut oracle, &pubkey(&sk1));
    register(&mut env, &mut oracle, &pubkey(&sk2));
    for i in 0..16u32 {
        let sk = if i % 2 == 0 { &sk1 } else { &sk2 };
        let slot = submit_from(&env, &mut oracle, sk, &region, &metric, i as i128);
        assert_eq!(slot, i);
    }
    let head = oracle.head(&region, &metric);
    assert_eq!(head.next_seq, 16);
    assert_eq!(head.count, 16);
    // Values 0..=15: the two middle values are 7 and 8.
    assert_eq!(oracle.median(&env, &region, &metric), Ok(7));

    // The seventeenth write reuses slot 0 and clears its challenge.
    oracle.challenge(&region, &metric, 0, 9).unwrap();
    let slot = submit_from(&env, &mut oracle, &sk1, &region, &metric, 100);
    assert_eq!(slot, 0);
    assert!(!oracle.is_challenged(&region, &metric, 0));
    let head = oracle.head(&region, &metric);
    assert_eq!(head.next_seq, 17);
    assert_eq!(head.count, 16);
    assert_eq!(oracle.observation(&region, &metric, 0).unwrap().value, 100);
    // Values 1..=15 and 100: the middle pair is 8 and 9.
    assert_eq!(oracle.median(&env, &region, &metric), Ok(8));
}

#[test]
fn rings_of_different_metrics_are_separate() {
    let (mut env, mut oracle) = setup();
    let region = sym("nairobi");
    let sk1 = signer(80);
    let sk2 = signer(81);
    register(&mut env, &mut oracle, &pubkey(&sk1));
    register(&mut env, &mut oracle, &pubkey(&sk2));
    submit_from(&env, &mut oracle, &sk1, &region, &sym("rain_mm"), 10);
    submit_from(&env, &mut oracle, &sk2, &region, &sym("rain_mm"), 12);
    submit_from(&env, &mut oracle, &sk1, &region, &sym("temp_c"), 30);
    assert_eq!(oracle.median(&env, &region, &sym("rain_mm")), Ok(11));
    assert_eq!(oracle.median(&env, &region, &sym("temp_c")), Err(Error::ObservationStale));
    assert_eq!(oracle.head(&region, &sym("temp_c")).count, 1);
}

#[test]
fn removed_publisher_cannot_submit() {
    let (mut env, mut oracle) = setup();
    let region = sym("nairobi");
    let metric = sym("rain_mm");
    let sk = signer(90);
    let pk = pubkey(&sk);
    register(&mut env, &mut oracle, &pk);
    oracle.propose_publisher(&env, &pk, false).unwrap();
    advance_time(&mut env, TIMELOCK + 1);
    oracle.execute_publisher(&env, &pk).unwrap();
    let ts = env.timestamp();
    let sig = sign(&sk, &region, &metric, ts, 5);
    assert_eq!(
        oracle.submit(&env, &region, &metric, ts, 5, &pk, &sig),
        Err(Error::UnknownPublisher)
    );
}

#[test]
fn sort_ascending_orders_the_prefix_only() {
    let mut values = [5i128, 3, 9, 1, 7, 0, 0, 0, 0, 0, 0, 0, 0, 0, 0, -4];
    sort_ascending(&mut values, 5);
    assert_eq!(values, [1i128, 3, 5, 7, 9, 0, 0, 0, 0, 0, 0, 0, 0, 0, 0, -4]);
    let mut all = [16i128, 15, 14, 13, 12, 11, 10, 9, 8, 7, 6, 5, 4, 3, 2, 1];
    sort_ascending(&mut all, 16);
    assert_eq!(all, [1i128, 2, 3, 4, 5, 6, 7, 8, 9, 10, 11, 12, 13, 14, 15, 16]);
    let mut none = [3i128; 16];
    sort_ascending(&mut none, 0);
    assert_eq!(none, [3i128; 16]);
}

#[test]
fn contains_publisher_finds_exact_keys() {
    let seen = vec![[1u8; 32], [2u8; 32]];
    assert!(contains_publisher(&seen, &[2u8; 32]));
    assert!(!contains_publisher(&seen, &[3u8; 32]));
    assert!(!contains_publisher(&Vec::new(), &[1u8; 32]));
}

#[test]
fn one_publisher_alone_never_sets_the_index() {
    let (mut env, mut oracle) = setup();
    let region = sym("garissa");
    let metric = sym("rain_mm");
    let sk = signer(95);
    register(&mut env, &mut oracle, &pubkey(&sk));
    submit_from(&env, &mut oracle, &sk, &region, &metric, 10);
    submit_from(&env, &mut oracle, &sk, &region, &metric, 20);
    submit_from(&env, &mut oracle, &sk, &region, &metric, 30);
    assert_eq!(oracle.head(&region, &metric).count, 3);
    assert_eq!(oracle.median(&env, &region, &metric), Err(Error::ObservationStale));
}

#[test]
fn submitting_and_challenging_leave_the_registry_alone() {
    let (mut env, mut oracle) = setup();
    let region = sym("garissa");
    let metric = sym("rain_mm");
    let sk = signer(96);
    let pk = pubkey(&sk);
    register(&mut env, &mut oracle, &pk);
    let before = oracle.publisher_info(&pk).unwrap();
    let slot = submit_from(&env, &mut oracle, &sk, &region, &metric, 10);
    oracle.challenge(&region, &metric, slot, 3).unwrap();
    oracle.unchallenge(&region, &metric, slot).unwrap();
    assert_eq!(oracle.publisher_info(&pk), Ok(before));
    assert_eq!(oracle.pending_publisher(&pk), Err(Error::NoPendingChange));
}
