//! Admission policy, origin conversion and destination resolution on
//! concrete values.

use bulletin_bridge::barrier::{AllowUnpaidTransactsFrom, ProcessMessageError, Properties};
use bulletin_bridge::encode::encode_call;
use bulletin_bridge::location::{
    kawabunga_location, this_network, InteriorLocation, Junction, Location, NetworkId,
};
use bulletin_bridge::origin::{KawabungaParachainAsRoot, LocalOrigin};
use bulletin_bridge::program::{Instruction, LocalCall, OriginKind, Weight};
use bulletin_bridge::resolver::{resolve, ResolveError};

fn allowed_call() -> LocalCall {
    LocalCall::SetStorage(vec![(b"test_key".to_vec(), b"test_value".to_vec())])
}

fn barrier() -> AllowUnpaidTransactsFrom {
    AllowUnpaidTransactsFrom {
        allowed_origins: vec![kawabunga_location()],
        allowed_calls: vec![allowed_call()],
    }
}

fn weight() -> Weight {
    Weight { ref_time: 20_000_000_000, proof_size: 8000 }
}

fn admitted_transact() -> Instruction {
    Instruction::Transact {
        origin_kind: OriginKind::Superuser,
        require_weight_at_most: weight(),
        call: encode_call(&allowed_call()),
    }
}

fn judge(origin: &Location, instructions: Vec<Instruction>) -> Result<(), ProcessMessageError> {
    let mut properties = Properties { message_id: None };
    barrier().should_execute(origin, &instructions, weight(), &mut properties)
}

#[test]
fn single_allowed_transact_from_allowed_sender_is_admitted() {
    assert_eq!(judge(&kawabunga_location(), vec![admitted_transact()]), Ok(()));
}

#[test]
fn unknown_sender_is_unsupported() {
    let stranger = Location {
        parents: 1,
        interior: InteriorLocation {
            junctions: vec![
                Junction::GlobalConsensus(NetworkId::Polkadot),
                Junction::Parachain(1000),
            ],
        },
    };
    assert_eq!(
        judge(&stranger, vec![admitted_transact()]),
        Err(ProcessMessageError::Unsupported)
    );
}

#[test]
fn two_instructions_are_bad_format() {
    assert_eq!(
        judge(&kawabunga_location(), vec![admitted_transact(), Instruction::ClearOrigin]),
        Err(ProcessMessageError::BadFormat)
    );
}

#[test]
fn empty_program_is_bad_format() {
    assert_eq!(judge(&kawabunga_location(), vec![]), Err(ProcessMessageError::BadFormat));
}

#[test]
fn non_transact_instruction_is_bad_format() {
    assert_eq!(
        judge(&kawabunga_location(), vec![Instruction::ClearOrigin]),
        Err(ProcessMessageError::BadFormat)
    );
}

#[test]
fn wrong_authority_kind_is_bad_format() {
    let instruction = Instruction::Transact {
        origin_kind: OriginKind::Native,
        require_weight_at_most: weight(),
        call: encode_call(&allowed_call()),
    };
    assert_eq!(judge(&kawabunga_location(), vec![instruction]), Err(ProcessMessageError::BadFormat));
}

#[test]
fn call_outside_the_allow_list_is_bad_format() {
    let instruction = Instruction::Transact {
        origin_kind: OriginKind::Superuser,
        require_weight_at_most: weight(),
        call: encode_call(&LocalCall::Remark(vec![42])),
    };
    assert_eq!(judge(&kawabunga_location(), vec![instruction]), Err(ProcessMessageError::BadFormat));
}

#[test]
fn undecodable_call_is_bad_format() {
    let instruction = Instruction::Transact {
        origin_kind: OriginKind::Superuser,
        require_weight_at_most: weight(),
        call: vec![0xff, 0xff, 0xff],
    };
    assert_eq!(judge(&kawabunga_location(), vec![instruction]), Err(ProcessMessageError::BadFormat));
}

#[test]
fn trailing_topic_is_recorded_whatever_the_verdict() {
    let topic = [3u8; 32];
    let mut properties = Properties { message_id: None };
    let verdict = barrier().should_execute(
        &kawabunga_location(),
        &vec![Instruction::ClearOrigin, Instruction::SetTopic(topic)],
        weight(),
        &mut properties,
    );
    assert_eq!(verdict, Err(ProcessMessageError::BadFormat));
    assert_eq!(properties.message_id, Some(topic));

    let mut properties = Properties { message_id: None };
    let verdict = barrier().should_execute(
        &kawabunga_location(),
        &vec![admitted_transact(), Instruction::SetTopic(topic)],
        weight(),
        &mut properties,
    );
    assert_eq!(verdict, Ok(()));
    assert_eq!(properties.message_id, Some(topic));
}

#[test]
fn conversion_accepts_exactly_the_trusted_superuser() {
    let trusted = kawabunga_location();
    assert_eq!(
        KawabungaParachainAsRoot::convert_origin(
            kawabunga_location(),
            OriginKind::Superuser,
            &trusted,
        ),
        Ok(LocalOrigin::Root)
    );
    // Same location, weaker authority kind: handed back unchanged.
    for kind in [OriginKind::Native, OriginKind::SovereignAccount, OriginKind::Xcm] {
        assert_eq!(
            KawabungaParachainAsRoot::convert_origin(kawabunga_location(), kind, &trusted),
            Err(kawabunga_location())
        );
    }
    // Superuser claimed by another location: handed back unchanged.
    let other = Location {
        parents: 1,
        interior: InteriorLocation {
            junctions: vec![
                Junction::GlobalConsensus(NetworkId::Polkadot),
                Junction::Parachain(43),
            ],
        },
    };
    assert_eq!(
        KawabungaParachainAsRoot::convert_origin(other.clone(), OriginKind::Superuser, &trusted),
        Err(other)
    );
}

#[test]
fn resolve_accepts_only_the_local_network() {
    let local = this_network();
    let here = InteriorLocation { junctions: vec![Junction::GlobalConsensus(this_network())] };
    assert_eq!(resolve(&here, &local), Ok(()));

    let kusama = InteriorLocation { junctions: vec![Junction::GlobalConsensus(NetworkId::Kusama)] };
    assert_eq!(resolve(&kusama, &local), Err(ResolveError::WrongGlobal));

    let other_genesis = InteriorLocation {
        junctions: vec![Junction::GlobalConsensus(NetworkId::ByGenesis([1u8; 32]))],
    };
    assert_eq!(resolve(&other_genesis, &local), Err(ResolveError::WrongGlobal));

    let empty = InteriorLocation { junctions: vec![] };
    assert_eq!(resolve(&empty, &local), Err(ResolveError::NonUniversal));

    let relative = InteriorLocation { junctions: vec![Junction::Parachain(42)] };
    assert_eq!(resolve(&relative, &local), Err(ResolveError::NonUniversal));
}
