//! Fixtures and helpers shared by the contracts' tests: a fresh ledger,
//! fresh addresses, moving the clock, and expected values.

use vstd::prelude::*;

use crate::common::apply_bps;
use crate::env::{Address, Env};

verus! {

/// A fresh environment: the ledger starts at time zero and sequence zero,
/// and no address has been generated yet.
pub fn new_env() -> (env: Env)
    ensures
        env.timestamp == 0,
        env.sequence_number == 0,
        env.generated_addresses == 0,
{
    Env { timestamp: 0, sequence_number: 0, generated_addresses: 0 }
}

/// Byte `i` (counting from the most significant) of the big-endian encoding
/// of `n`.
pub open spec fn be_byte(n: u64, i: int) -> u8 {
    ((n >> ((7 - i) * 8) as u64) & 0xff) as u8
}

/// The identifier of the `n`-th generated address: 24 zero bytes followed by
/// the big-endian bytes of `n`.
pub open spec fn generated_id(n: u64) -> Seq<u8> {
    Seq::new(32, |i: int| if i < 24 { 0u8 } else { be_byte(n, i - 24) })
}

/// Equal big-endian bytes mean equal numbers.
proof fn lemma_be_bytes_injective(a: u64, b: u64)
    requires
        forall|i: int| 0 <= i < 8 ==> #[trigger] be_byte(a, i) == be_byte(b, i),
    ensures
        a == b,
{
    assert(be_byte(a, 0) == be_byte(b, 0) && be_byte(a, 1) == be_byte(b, 1) && be_byte(a, 2)
        == be_byte(b, 2) && be_byte(a, 3) == be_byte(b, 3) && be_byte(a, 4) == be_byte(b, 4)
        && be_byte(a, 5) == be_byte(b, 5) && be_byte(a, 6) == be_byte(b, 6) && be_byte(a, 7)
        == be_byte(b, 7));
    assert(a == b) by (bit_vector)
        requires
            ((a >> 56u64) & 0xff) as u8 == ((b >> 56u64) & 0xff) as u8,
            ((a >> 48u64) & 0xff) as u8 == ((b >> 48u64) & 0xff) as u8,
            ((a >> 40u64) & 0xff) as u8 == ((b >> 40u64) & 0xff) as u8,
            ((a >> 32u64) & 0xff) as u8 == ((b >> 32u64) & 0xff) as u8,
            ((a >> 24u64) & 0xff) as u8 == ((b >> 24u64) & 0xff) as u8,
            ((a >> 16u64) & 0xff) as u8 == ((b >> 16u64) & 0xff) as u8,
            ((a >> 8u64) & 0xff) as u8 == ((b >> 8u64) & 0xff) as u8,
            ((a >> 0u64) & 0xff) as u8 == ((b >> 0u64) & 0xff) as u8,
    ;
}

/// Two different counters give two different identifiers.
pub proof fn lemma_generated_id_injective(a: u64, b: u64)
    requires
        generated_id(a) == generated_id(b),
    ensures
        a == b,
{
    assert forall|i: int| 0 <= i < 8 implies #[trigger] be_byte(a, i) == be_byte(b, i) by {
        let j = 24 + i;
        assert(generated_id(a)[j] == generated_id(b)[j]);
        assert(generated_id(a)[j] == be_byte(a, j - 24));
        assert(generated_id(b)[j] == be_byte(b, j - 24));
    }
    lemma_be_bytes_injective(a, b);
}

/// Generate a fresh contract address: the environment's address counter
/// moves on by one and the address is the one that counter names.
pub fn random_address(env: &mut Env) -> (a: Address)
    requires
        old(env).generated_addresses < u64::MAX,
    ensures
        final(env).generated_addresses == old(env).generated_addresses + 1,
        final(env).timestamp == old(env).timestamp,
        final(env).sequence_number == old(env).sequence_number,
        a.id@ == generated_id(final(env).generated_addresses),
{
    let n: u64 = env.generated_addresses + 1;
    env.generated_addresses = n;
    let mut id: [u8; 32] = [0u8; 32];
    id[24] = ((n >> 56u64) & 0xff) as u8;
    id[25] = ((n >> 48u64) & 0xff) as u8;
    id[26] = ((n >> 40u64) & 0xff) as u8;
    id[27] = ((n >> 32u64) & 0xff) as u8;
    id[28] = ((n >> 24u64) & 0xff) as u8;
    id[29] = ((n >> 16u64) & 0xff) as u8;
    id[30] = ((n >> 8u64) & 0xff) as u8;
    id[31] = ((n >> 0u64) & 0xff) as u8;
    assert(id@ =~= generated_id(n));
    Address { id }
}

/// Addresses generated one after the other in the same environment are
/// distinct.
pub proof fn lemma_generated_addresses_distinct(first: u64, second: u64)
    requires
        first < second,
    ensures
        generated_id(first) != generated_id(second),
{
    if generated_id(first) == generated_id(second) {
        lemma_generated_id_injective(first, second);
    }
}

/// Advance the ledger timestamp by `delta_secs` seconds. Saturates at the
/// largest timestamp rather than wrapping, so the clock never rolls back.
pub fn advance_time(env: &mut Env, delta_secs: u64)
    ensures
        final(env).timestamp == if old(env).timestamp + delta_secs > u64::MAX {
            u64::MAX as int
        } else {
            old(env).timestamp + delta_secs
        },
        final(env).timestamp >= old(env).timestamp,
        final(env).sequence_number == old(env).sequence_number,
        final(env).generated_addresses == old(env).generated_addresses,
{
    env.timestamp = env.timestamp.saturating_add(delta_secs);
}

/// Advance the ledger sequence number by `delta` ledgers, saturating at the
/// largest sequence number.
pub fn advance_sequence(env: &mut Env, delta: u32)
    ensures
        final(env).sequence_number == if old(env).sequence_number + delta > u32::MAX {
            u32::MAX as int
        } else {
            old(env).sequence_number + delta
        },
        final(env).sequence_number >= old(env).sequence_number,
        final(env).timestamp == old(env).timestamp,
        final(env).generated_addresses == old(env).generated_addresses,
{
    env.sequence_number = env.sequence_number.saturating_add(delta);
}

/// Assert a contract error code equals the expected value. Error enums map
/// to `u32` codes, so tests compare codes directly; callers must pass equal
/// codes, and a verified caller is held to that.
pub fn assert_error_code(actual: u32, expected: u32)
    requires
        actual == expected,
{
    proof {
        assert(actual == expected);
    }
}

/// The expected result of applying a basis point fraction, by the shared
/// math in `common`: whenever `apply_bps` gives `Some(r)`, this gives `r`.
/// The inputs on which `apply_bps` overflows are refused, as the fixture
/// would fail on them.
pub fn expected_bps(amount: i128, bps: u32) -> (r: i128)
    requires
        crate::common::bps_result(amount, bps) is Some,
    ensures
        crate::common::bps_result(amount, bps) == Some(r),
        r == crate::common::bps_quotient(amount as int, bps as int),
{
    match apply_bps(amount, bps) {
        Some(v) => v,
        None => 0,
    }
}

} // verus!
