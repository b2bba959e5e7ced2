use mvua::env::Symbol;
use mvua::oracle_adapter::ObservationPayload;
use soroban_sdk::xdr::ToXdr;
use soroban_sdk::IntoVal;

fn payload(region: &str, metric: &str, timestamp: u64, value: i128) -> ObservationPayload {
    ObservationPayload {
        region: Symbol::new(region.as_bytes()).unwrap(),
        metric: Symbol::new(metric.as_bytes()).unwrap(),
        timestamp,
        value,
    }
}

// The same payload built as a contract map through the contract SDK's own
// host and encoded by it.
fn host_encoding(region: &str, metric: &str, timestamp: u64, value: i128) -> Vec<u8> {
    let env = soroban_sdk::Env::default();
    let mut m: soroban_sdk::Map<soroban_sdk::Symbol, soroban_sdk::Val> = soroban_sdk::Map::new(&env);
    m.set(
        soroban_sdk::Symbol::new(&env, "region"),
        soroban_sdk::Symbol::new(&env, region).into_val(&env),
    );
    m.set(
        soroban_sdk::Symbol::new(&env, "metric"),
        soroban_sdk::Symbol::new(&env, metric).into_val(&env),
    );
    m.set(soroban_sdk::Symbol::new(&env, "timestamp"), timestamp.into_val(&env));
    m.set(soroban_sdk::Symbol::new(&env, "value"), value.into_val(&env));
    m.to_xdr(&env).iter().collect()
}

#[test]
fn payload_bytes_match_the_host_encoding() {
    for (region, metric, ts, value) in [
        ("nairobi", "rain_mm", 0u64, 125i128),
        ("kisumu", "temp_c", 1_725_029_869u64, 0i128),
        ("a_region_with_a_long_name_32chr", "m", u64::MAX, i128::MAX),
        ("x", "y", 42u64, -7i128),
    ] {
        assert_eq!(payload(region, metric, ts, value).to_xdr(), host_encoding(region, metric, ts, value));
    }
}

#[test]
fn payload_bytes_depend_on_every_field() {
    let base = payload("nairobi", "rain_mm", 10, 125).to_xdr();
    assert_ne!(base, payload("kisumu", "rain_mm", 10, 125).to_xdr());
    assert_ne!(base, payload("nairobi", "temp_c", 10, 125).to_xdr());
    assert_ne!(base, payload("nairobi", "rain_mm", 11, 125).to_xdr());
    assert_ne!(base, payload("nairobi", "rain_mm", 10, 126).to_xdr());
    // An XDR map (tag 17) with one present entry vector of four entries.
    assert_eq!(&base[0..12], &[0, 0, 0, 17, 0, 0, 0, 1, 0, 0, 0, 4]);
}
