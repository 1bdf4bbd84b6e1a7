//! Inbound dispatch scenarios and the outbound router.

use std::collections::HashMap;

use bulletin_bridge::barrier::AllowUnpaidTransactsFrom;
use bulletin_bridge::dispatch::{
    dispatch_outbound, outcome_of, xcm_lane, BridgeConfig, DispatchOutcome, ImmediateXcmDispatcher,
    InboundAction, RejectReason,
};
use bulletin_bridge::encode::encode_message;
use bulletin_bridge::location::{
    kawabunga_location, this_network, InteriorLocation, Junction, Location, NetworkId,
};
use bulletin_bridge::program::{
    Instruction, LocalCall, OriginKind, Program, ProgramV2, VersionedProgram, Weight,
};

fn test_storage_key() -> Vec<u8> {
    (*b"test_key").to_vec()
}

fn test_storage_value() -> Vec<u8> {
    (*b"test_value").to_vec()
}

fn set_storage_call() -> LocalCall {
    LocalCall::SetStorage(vec![(test_storage_key(), test_storage_value())])
}

fn test_weight() -> Weight {
    Weight { ref_time: 20_000_000_000, proof_size: 8000 }
}

fn test_config() -> BridgeConfig {
    BridgeConfig {
        local_network: this_network(),
        bridged_location: kawabunga_location(),
        lane: xcm_lane(),
        barrier: AllowUnpaidTransactsFrom {
            allowed_origins: vec![kawabunga_location()],
            allowed_calls: vec![set_storage_call()],
        },
    }
}

fn local_destination() -> InteriorLocation {
    bulletin_bridge::location::universal_location()
}

fn transact(call: &LocalCall) -> Instruction {
    Instruction::Transact {
        origin_kind: OriginKind::Superuser,
        require_weight_at_most: test_weight(),
        call: bulletin_bridge::encode::encode_call(call),
    }
}

fn encoded_xcm_message_from_bridge_hub_polkadot() -> Vec<u8> {
    let program = VersionedProgram::V3(Program { instructions: vec![transact(&set_storage_call())] });
    encode_message(&local_destination(), &program)
}

/// The mechanism side of the executor interface, as a test double: applies an
/// admitted call to an in-memory storage map and reports completion.
fn run_executor(action: &InboundAction, storage: &mut HashMap<Vec<u8>, Vec<u8>>) -> bool {
    match action {
        InboundAction::Execute { call, .. } => {
            match call {
                LocalCall::SetStorage(items) => {
                    for (k, v) in items {
                        storage.insert(k.clone(), v.clone());
                    }
                },
                LocalCall::Remark(_) => {},
            }
            true
        },
        InboundAction::Reject(_) => false,
    }
}

#[test]
fn messages_from_bridge_hub_polkadot_are_dispatched() {
    let cfg = test_config();
    let mut storage: HashMap<Vec<u8>, Vec<u8>> = HashMap::new();
    assert_eq!(storage.get(&test_storage_key()), None);
    let blob = encoded_xcm_message_from_bridge_hub_polkadot();
    let action = ImmediateXcmDispatcher::dispatch_blob(&blob, &kawabunga_location(), &cfg);
    let complete = run_executor(&action, &mut storage);
    assert_eq!(outcome_of(&action, complete), DispatchOutcome::Executed);
    assert_eq!(storage.get(&test_storage_key()), Some(&test_storage_value()));
}

#[test]
fn messages_to_bridge_hub_polkadot_are_sent() {
    let cfg = test_config();
    let program = Program { instructions: vec![Instruction::ClearOrigin] };
    let package = dispatch_outbound(&kawabunga_location(), &program, &cfg)
        .expect("message is sent");
    assert_eq!(package.lane, xcm_lane());
    assert!(!package.payload.is_empty());
}

#[test]
fn xcm_config_encoded_test_xcm_message_to_bulletin_chain() {
    let blob = encoded_xcm_message_from_bridge_hub_polkadot();
    let mut expected: Vec<u8> = vec![0x03, 0x01, 0x09, 0x00];
    expected.extend([0x2a; 32]);
    expected.extend([0x03, 0x04, 0x06, 0x02, 0x07, 0x00, 0xc8, 0x17, 0xa8, 0x04, 0x01, 0x7d]);
    // 23-byte call, length prefix 23 << 2.
    expected.push(0x5c);
    expected.extend(*b"\x00\x04\x04\x20test_key\x28test_value");
    assert_eq!(blob, expected);
}

#[test]
fn arbitrary_sender_is_rejected_as_unsupported_origin() {
    let cfg = test_config();
    let blob = encoded_xcm_message_from_bridge_hub_polkadot();
    let stranger = Location {
        parents: 1,
        interior: InteriorLocation {
            junctions: vec![
                Junction::GlobalConsensus(NetworkId::Polkadot),
                Junction::Parachain(1000),
            ],
        },
    };
    let action = ImmediateXcmDispatcher::dispatch_blob(&blob, &stranger, &cfg);
    assert_eq!(action, InboundAction::Reject(RejectReason::UnsupportedOrigin));
    assert_eq!(
        outcome_of(&action, false),
        DispatchOutcome::Rejected(RejectReason::UnsupportedOrigin)
    );
}

#[test]
fn wrong_global_destination_is_rejected_before_admission() {
    let cfg = test_config();
    let foreign_destination = InteriorLocation {
        junctions: vec![Junction::GlobalConsensus(NetworkId::Kusama)],
    };
    let program = VersionedProgram::V3(Program { instructions: vec![transact(&set_storage_call())] });
    let blob = encode_message(&foreign_destination, &program);
    let action = ImmediateXcmDispatcher::dispatch_blob(&blob, &kawabunga_location(), &cfg);
    assert_eq!(action, InboundAction::Reject(RejectReason::WrongGlobal));
}

#[test]
fn non_universal_destination_is_rejected() {
    let cfg = test_config();
    let relative_destination = InteriorLocation { junctions: vec![Junction::Parachain(42)] };
    let program = VersionedProgram::V3(Program { instructions: vec![transact(&set_storage_call())] });
    let blob = encode_message(&relative_destination, &program);
    let action = ImmediateXcmDispatcher::dispatch_blob(&blob, &kawabunga_location(), &cfg);
    assert_eq!(action, InboundAction::Reject(RejectReason::NonUniversalDestination));
}

#[test]
fn two_instructions_are_rejected_as_bad_format() {
    let cfg = test_config();
    let program = VersionedProgram::V3(Program {
        instructions: vec![transact(&set_storage_call()), Instruction::ClearOrigin],
    });
    let blob = encode_message(&local_destination(), &program);
    let action = ImmediateXcmDispatcher::dispatch_blob(&blob, &kawabunga_location(), &cfg);
    assert_eq!(action, InboundAction::Reject(RejectReason::BadFormat));
}

#[test]
fn garbled_blob_is_rejected_as_invalid_encoding() {
    let cfg = test_config();
    let mut blob = encoded_xcm_message_from_bridge_hub_polkadot();
    blob.push(0xff);
    let action = ImmediateXcmDispatcher::dispatch_blob(&blob, &kawabunga_location(), &cfg);
    assert_eq!(action, InboundAction::Reject(RejectReason::InvalidEncoding));
}

#[test]
fn legacy_version_program_is_rejected_as_unsupported_version() {
    let cfg = test_config();
    let program = VersionedProgram::V2(ProgramV2 {
        instructions: vec![bulletin_bridge::program::InstructionV2::Transact {
            origin_kind: OriginKind::Superuser,
            require_weight_at_most: 20_000_000_000,
            call: bulletin_bridge::encode::encode_call(&set_storage_call()),
        }],
    });
    let blob = encode_message(&local_destination(), &program);
    let action = ImmediateXcmDispatcher::dispatch_blob(&blob, &kawabunga_location(), &cfg);
    assert_eq!(action, InboundAction::Reject(RejectReason::UnsupportedVersion));
}

#[test]
fn allow_listed_sender_that_is_not_the_trusted_principal_is_not_convertible() {
    let mut cfg = test_config();
    let other = Location {
        parents: 1,
        interior: InteriorLocation {
            junctions: vec![
                Junction::GlobalConsensus(NetworkId::Polkadot),
                Junction::Parachain(7),
            ],
        },
    };
    cfg.barrier.allowed_origins.push(other.clone());
    let blob = encoded_xcm_message_from_bridge_hub_polkadot();
    let action = ImmediateXcmDispatcher::dispatch_blob(&blob, &other, &cfg);
    assert_eq!(action, InboundAction::Reject(RejectReason::SenderNotConvertible));
}

#[test]
fn executor_failure_after_admission_maps_to_routing_error() {
    let cfg = test_config();
    let blob = encoded_xcm_message_from_bridge_hub_polkadot();
    let action = ImmediateXcmDispatcher::dispatch_blob(&blob, &kawabunga_location(), &cfg);
    assert!(matches!(action, InboundAction::Execute { .. }));
    assert_eq!(
        outcome_of(&action, false),
        DispatchOutcome::Rejected(RejectReason::RoutingError)
    );
}

#[test]
fn message_id_is_the_digest_of_the_program() {
    let cfg = test_config();
    let blob = encoded_xcm_message_from_bridge_hub_polkadot();
    let action = ImmediateXcmDispatcher::dispatch_blob(&blob, &kawabunga_location(), &cfg);
    // blake2b-256 of the encoded one-instruction program; a digest, not the
    // program bytes themselves.
    let expected: [u8; 32] = [
        0xa3, 0x46, 0xa7, 0xd2, 0x9c, 0x8f, 0xd1, 0x34, 0x31, 0xb5, 0xe9, 0x94, 0x7f, 0x36,
        0x05, 0x03, 0x03, 0x8d, 0xb4, 0x4d, 0x0c, 0xba, 0xc9, 0xe7, 0x19, 0xf6, 0x88, 0x8f,
        0x0b, 0xf6, 0x81, 0xc1,
    ];
    match action {
        InboundAction::Execute { message_id, .. } => assert_eq!(message_id, expected),
        InboundAction::Reject(r) => panic!("rejected: {:?}", r),
    }
}

#[test]
fn trailing_topic_is_stripped_and_becomes_the_message_id() {
    let cfg = test_config();
    let topic = [9u8; 32];
    let program = VersionedProgram::V3(Program {
        instructions: vec![transact(&set_storage_call()), Instruction::SetTopic(topic)],
    });
    let blob = encode_message(&local_destination(), &program);
    let action = ImmediateXcmDispatcher::dispatch_blob(&blob, &kawabunga_location(), &cfg);
    match action {
        InboundAction::Execute { message_id, call, .. } => {
            assert_eq!(message_id, topic);
            assert_eq!(call, set_storage_call());
        },
        InboundAction::Reject(r) => panic!("rejected: {:?}", r),
    }
}

#[test]
fn outbound_to_any_other_destination_is_unroutable() {
    let cfg = test_config();
    let program = Program { instructions: vec![Instruction::ClearOrigin] };
    let elsewhere = Location {
        parents: 1,
        interior: InteriorLocation {
            junctions: vec![
                Junction::GlobalConsensus(NetworkId::Polkadot),
                Junction::Parachain(1000),
            ],
        },
    };
    let r = dispatch_outbound(&elsewhere, &program, &cfg);
    assert_eq!(r, Err(bulletin_bridge::dispatch::RouteError::Unroutable));
}
