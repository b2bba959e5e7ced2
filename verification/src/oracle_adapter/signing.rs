//! The signed observation payload and its signature check. A publisher signs
//! the XDR encoding of the payload; the contract rebuilds the same bytes and
//! verifies an ed25519 signature over them.

use vstd::prelude::*;

use soroban_sdk::xdr::{Limits, ScMap, ScSymbol, ScVal, WriteXdr};

verus! {

/// The XDR bytes of an observation payload: the `ScVal` map from the field
/// names `metric`, `region`, `timestamp` and `value` (in that sorted order)
/// to the metric and region symbols, the `u64` timestamp and the `i128`
/// value, as the contract SDK encodes a contract type with those fields.
pub uninterp spec fn observation_payload_xdr(
    region: Seq<u8>,
    metric: Seq<u8>,
    timestamp: u64,
    value: i128,
) -> Seq<u8>;

/// Whether `signature` is a valid ed25519 signature by `public_key` over
/// `message` under strict verification (the public key must decode to a
/// curve point, and small order points and malleable signatures are
/// refused).
pub uninterp spec fn ed25519_strictly_verifies(
    public_key: Seq<u8>,
    message: Seq<u8>,
    signature: Seq<u8>,
) -> bool;

/// Encodes the payload map through the XDR library re-exported by
/// `soroban_sdk` (`ScMap::sorted_from`, then `WriteXdr::to_xdr` without
/// limits). Claimed: the bytes are a function of the four fields alone,
/// named `observation_payload_xdr`. Region and metric must be valid
/// symbols (at most 32 bytes, each `_`, a digit or an ASCII letter): longer
/// bytes fail the conversion to an XDR symbol, and other bytes fail the map
/// validation inside `sorted_from`; either would panic here.
#[verifier::external_body]
pub(crate) fn encode_observation_payload(
    region: &[u8],
    metric: &[u8],
    timestamp: u64,
    value: i128,
) -> (bytes: Vec<u8>)
    requires
        crate::env::valid_symbol(region@),
        crate::env::valid_symbol(metric@),
    ensures
        bytes@ == observation_payload_xdr(region@, metric@, timestamp, value),
{
    let map = ScMap::sorted_from(vec![
        (ScVal::Symbol(ScSymbol("metric".try_into().unwrap())), ScVal::Symbol(ScSymbol(metric.try_into().unwrap()))),
        (ScVal::Symbol(ScSymbol("region".try_into().unwrap())), ScVal::Symbol(ScSymbol(region.try_into().unwrap()))),
        (ScVal::Symbol(ScSymbol("timestamp".try_into().unwrap())), ScVal::U64(timestamp)),
        (ScVal::Symbol(ScSymbol("value".try_into().unwrap())), ScVal::from(value)),
    ]).unwrap();
    ScVal::Map(Some(map)).to_xdr(Limits::none()).unwrap()
}

/// Verifies with `ed25519_dalek` as the contract host does: the key is
/// decoded by `VerifyingKey::from_bytes` and the signature checked by
/// `verify_strict`. Claimed: the outcome is a function of the key, message
/// and signature bytes alone, named `ed25519_strictly_verifies`; a key that
/// does not decode verifies nothing.
#[verifier::external_body]
pub(crate) fn ed25519_verify_strict(
    public_key: &[u8; 32],
    message: &[u8],
    signature: &[u8; 64],
) -> (ok: bool)
    ensures
        ok == ed25519_strictly_verifies(public_key@, message@, signature@),
{
    match ed25519_dalek::VerifyingKey::from_bytes(public_key) {
        Ok(key) => key.verify_strict(message, &ed25519_dalek::Signature::from_bytes(signature)).is_ok(),
        Err(_) => false,
    }
}

} // verus!
