use mvua::test_utils::{advance_sequence, advance_time, new_env, random_address};

#[test]
fn time_and_sequence_advance() {
    let mut env = new_env();
    let t0 = env.timestamp();
    let s0 = env.sequence();
    advance_time(&mut env, 3_600);
    advance_sequence(&mut env, 10);
    assert_eq!(env.timestamp(), t0 + 3_600);
    assert_eq!(env.sequence(), s0 + 10);
}

#[test]
fn addresses_are_distinct() {
    let mut env = new_env();
    assert_ne!(random_address(&mut env), random_address(&mut env));
}

#[test]
fn clock_and_sequence_saturate() {
    let mut env = new_env();
    advance_time(&mut env, u64::MAX - 5);
    advance_time(&mut env, 10);
    assert_eq!(env.timestamp(), u64::MAX);
    advance_sequence(&mut env, u32::MAX);
    advance_sequence(&mut env, 1);
    assert_eq!(env.sequence(), u32::MAX);
}

#[test]
fn generated_addresses_count_up_big_endian() {
    let mut env = new_env();
    let a = random_address(&mut env);
    let mut expected = [0u8; 32];
    expected[31] = 1;
    assert_eq!(a.id, expected);
    for _ in 0..255 {
        random_address(&mut env);
    }
    let b = random_address(&mut env);
    expected[31] = 1;
    expected[30] = 1;
    assert_eq!(b.id, expected);
    assert_eq!(env.generated_addresses, 257);
}
