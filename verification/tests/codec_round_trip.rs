//! Codec behaviour on concrete values: round trips, determinism, rejection of
//! malformed input, and agreement with the ecosystem's own encoders.

use bulletin_bridge::compact::{decode_compact, encode_compact, DecodeError};
use bulletin_bridge::decode::{decode_call, decode_message};
use bulletin_bridge::encode::{encode_call, encode_message};
use bulletin_bridge::location::{InteriorLocation, Junction, NetworkId};
use bulletin_bridge::program::{
    Instruction, InstructionV2, LocalCall, OriginKind, Program, ProgramV2, VersionedProgram,
    Weight,
};

use parity_scale_codec::{Compact, Decode, Encode};
use staging_xcm::v3::{
    Junction as XJunction, Junctions, Instruction as XInstruction, NetworkId as XNetworkId,
    OriginKind as XOriginKind, Weight as XWeight, Xcm,
};
use staging_xcm::{VersionedInteriorLocation, VersionedXcm};

fn sample_destination() -> InteriorLocation {
    InteriorLocation {
        junctions: vec![
            Junction::GlobalConsensus(NetworkId::ByGenesis([42u8; 32])),
            Junction::Parachain(2000),
        ],
    }
}

fn sample_call() -> Vec<u8> {
    encode_call(&LocalCall::SetStorage(vec![(b"test_key".to_vec(), b"test_value".to_vec())]))
}

fn sample_program() -> VersionedProgram {
    VersionedProgram::V3(Program {
        instructions: vec![
            Instruction::Transact {
                origin_kind: OriginKind::Superuser,
                require_weight_at_most: Weight { ref_time: 20_000_000_000, proof_size: 8000 },
                call: sample_call(),
            },
            Instruction::ClearOrigin,
            Instruction::SetTopic([7u8; 32]),
        ],
    })
}

#[test]
fn message_round_trip_on_concrete_values() {
    let dest = sample_destination();
    let prog = sample_program();
    let blob = encode_message(&dest, &prog);
    let (dest2, prog2) = decode_message(&blob).unwrap();
    assert_eq!(dest2, dest);
    assert_eq!(prog2, prog);
}

#[test]
fn legacy_program_round_trip() {
    let dest = sample_destination();
    let prog = VersionedProgram::V2(ProgramV2 {
        instructions: vec![
            InstructionV2::Transact {
                origin_kind: OriginKind::SovereignAccount,
                require_weight_at_most: 1_000_000,
                call: vec![0, 0, 4, 42],
            },
            InstructionV2::ClearOrigin,
        ],
    });
    let blob = encode_message(&dest, &prog);
    let (dest2, prog2) = decode_message(&blob).unwrap();
    assert_eq!(dest2, dest);
    assert_eq!(prog2, prog);
}

#[test]
fn call_round_trip() {
    let calls = vec![
        LocalCall::Remark(vec![]),
        LocalCall::Remark(vec![42]),
        LocalCall::SetStorage(vec![]),
        LocalCall::SetStorage(vec![(vec![1, 2], vec![]), (vec![], vec![3])]),
    ];
    for call in calls {
        let bytes = encode_call(&call);
        assert_eq!(decode_call(&bytes).unwrap(), call);
    }
}

#[test]
fn encode_is_deterministic() {
    let dest = sample_destination();
    let prog = sample_program();
    let first = encode_message(&dest, &prog);
    let second = encode_message(&dest, &prog);
    assert_eq!(first, second);
}

#[test]
fn truncated_blob_is_rejected() {
    let blob = encode_message(&sample_destination(), &sample_program());
    for cut in [0, 1, 5, blob.len() - 1] {
        let short = blob[..cut].to_vec();
        assert_eq!(decode_message(&short), Err(DecodeError::Truncated), "cut at {}", cut);
    }
}

#[test]
fn unknown_version_tag_is_rejected() {
    let mut blob = encode_message(&sample_destination(), &sample_program());
    blob[0] = 7;
    assert_eq!(decode_message(&blob), Err(DecodeError::UnknownVersion));
}

#[test]
fn unknown_program_version_tag_is_rejected() {
    let dest = InteriorLocation {
        junctions: vec![Junction::GlobalConsensus(NetworkId::Polkadot)],
    };
    let mut blob = encode_message(&dest, &sample_program());
    // Destination: version byte, count byte, junction index, network index.
    let program_tag_index = 4;
    assert_eq!(blob[program_tag_index], 3);
    blob[program_tag_index] = 9;
    assert_eq!(decode_message(&blob), Err(DecodeError::UnknownVersion));
}

#[test]
fn unknown_junction_is_rejected() {
    let mut blob = encode_message(&sample_destination(), &sample_program());
    // First junction index byte sits after the version and count bytes.
    blob[2] = 5;
    assert_eq!(decode_message(&blob), Err(DecodeError::Malformed));
}

#[test]
fn trailing_bytes_are_rejected() {
    let mut blob = encode_message(&sample_destination(), &sample_program());
    blob.push(0);
    assert_eq!(decode_message(&blob), Err(DecodeError::Trailing));
}

#[test]
fn non_canonical_compact_is_rejected() {
    // The value 1 in two-byte mode: mode bits 01, halfword 1 << 2.
    let bytes = vec![0x05, 0x00];
    assert_eq!(decode_compact(&bytes, 0), Err(DecodeError::Malformed));
}

#[test]
fn compact_agrees_with_the_reference_codec() {
    let values: Vec<u64> = vec![
        0,
        1,
        42,
        63,
        64,
        8000,
        16383,
        16384,
        (1 << 30) - 1,
        1 << 30,
        20_000_000_000,
        1 << 32,
        1 << 40,
        1 << 56,
        u64::MAX,
    ];
    for v in values {
        let mut ours: Vec<u8> = Vec::new();
        encode_compact(v, &mut ours);
        let reference = Compact(v).encode();
        assert_eq!(ours, reference, "encoding of {}", v);
        let (decoded, end) = decode_compact(&reference, 0).unwrap();
        assert_eq!((decoded, end), (v, reference.len()), "decoding of {}", v);
        let reference_decoded = Compact::<u64>::decode(&mut ours.as_slice()).unwrap();
        assert_eq!(reference_decoded.0, v);
    }
}

#[test]
fn message_encoding_agrees_with_the_reference_codec() {
    let dest = sample_destination();
    let prog = sample_program();
    let blob = encode_message(&dest, &prog);

    let x_dest = VersionedInteriorLocation::V3(Junctions::X2(
        XJunction::GlobalConsensus(XNetworkId::ByGenesis([42u8; 32])),
        XJunction::Parachain(2000),
    ));
    let x_xcm: Xcm<()> = Xcm(vec![
        XInstruction::Transact {
            origin_kind: XOriginKind::Superuser,
            require_weight_at_most: XWeight::from_parts(20_000_000_000, 8000),
            call: sample_call().into(),
        },
        XInstruction::ClearOrigin,
        XInstruction::SetTopic([7u8; 32]),
    ]);
    let x_versioned: VersionedXcm<()> = VersionedXcm::V3(x_xcm);
    let reference = (x_dest, x_versioned).encode();
    assert_eq!(blob, reference);
}

#[test]
fn reference_codec_blob_decodes_to_the_same_values() {
    let x_dest = VersionedInteriorLocation::V3(Junctions::X1(XJunction::GlobalConsensus(
        XNetworkId::Polkadot,
    )));
    let x_xcm: Xcm<()> = Xcm(vec![XInstruction::ClearOrigin]);
    let blob = (x_dest, VersionedXcm::<()>::V3(x_xcm)).encode();

    let (dest, prog) = decode_message(&blob).unwrap();
    assert_eq!(
        dest,
        InteriorLocation { junctions: vec![Junction::GlobalConsensus(NetworkId::Polkadot)] }
    );
    assert_eq!(
        prog,
        VersionedProgram::V3(Program { instructions: vec![Instruction::ClearOrigin] })
    );
}
