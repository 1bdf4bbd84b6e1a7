//! The fixed probe message toward the bridged network.

use bulletin_bridge::barrier::AllowUnpaidTransactsFrom;
use bulletin_bridge::dispatch::{send_dummy_message, xcm_lane, BridgeConfig};
use bulletin_bridge::location::{kawabunga_location, this_network};

fn test_config() -> BridgeConfig {
    BridgeConfig {
        local_network: this_network(),
        bridged_location: kawabunga_location(),
        lane: xcm_lane(),
        barrier: AllowUnpaidTransactsFrom { allowed_origins: vec![], allowed_calls: vec![] },
    }
}

#[test]
fn message_to_bulletin_chain_is_sent() {
    let cfg = test_config();
    let package = send_dummy_message(&cfg).unwrap();
    assert_eq!(package.lane, xcm_lane());
    // The payload carries the bridged destination's interior and the fixed
    // storage-write call.
    let call_bytes = bulletin_bridge::dispatch::dummy_call_bytes();
    assert!(package
        .payload
        .windows(call_bytes.len())
        .any(|w| w == call_bytes.as_slice()));
}
