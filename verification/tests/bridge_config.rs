//! Relayer admission gate and the reference encoding of the probe message.

use bulletin_bridge::encode::encode_message;
use bulletin_bridge::location::{InteriorLocation, Junction, NetworkId};
use bulletin_bridge::program::{Instruction, OriginKind, Program, VersionedProgram, Weight};
use bulletin_bridge::relayer::{ensure_whitelisted_relayer, AccountId, RelayerError};

fn account(seed: u8) -> AccountId {
    AccountId { bytes: [seed; 32] }
}

fn relayers() -> Vec<AccountId> {
    vec![account(1), account(2)]
}

#[test]
fn may_change_whitelisted_relayers_set_using_sudo() {
    // Governance swaps in a new relayer list; later checks read the new one.
    let before = relayers();
    assert!(ensure_whitelisted_relayer(&account(9), &before).is_err());
    let after = vec![account(1), account(2), account(9)];
    assert!(ensure_whitelisted_relayer(&account(9), &after).is_ok());
    assert!(ensure_whitelisted_relayer(&account(1), &after).is_ok());
}

#[test]
fn whitelisted_relayer_may_submit_polkadot_headers() {
    assert_eq!(ensure_whitelisted_relayer(&account(1), &relayers()), Ok(()));
}

#[test]
fn regular_account_can_not_submit_polkadot_headers() {
    assert_eq!(
        ensure_whitelisted_relayer(&account(7), &relayers()),
        Err(RelayerError::BadSigner)
    );
}

#[test]
fn whitelisted_relayer_may_submit_polkadot_bridge_hub_headers() {
    assert_eq!(ensure_whitelisted_relayer(&account(2), &relayers()), Ok(()));
}

#[test]
fn regular_account_can_not_submit_polkadot_bridge_hub_headers() {
    assert_eq!(
        ensure_whitelisted_relayer(&account(0), &relayers()),
        Err(RelayerError::BadSigner)
    );
}

#[test]
fn whitelisted_relayer_may_submit_messages_and_confirmations_from_polkadot_bridge_hub() {
    assert_eq!(ensure_whitelisted_relayer(&account(2), &relayers()), Ok(()));
}

#[test]
fn regular_account_can_not_submit_messages_and_confirmations_from_polkadot_bridge_hub() {
    let empty: Vec<AccountId> = vec![];
    assert_eq!(
        ensure_whitelisted_relayer(&account(1), &empty),
        Err(RelayerError::BadSigner)
    );
}

fn hex_to_bytes(s: &str) -> Vec<u8> {
    let digits: Vec<u8> = s
        .bytes()
        .map(|c| match c {
            b'0'..=b'9' => c - b'0',
            b'a'..=b'f' => c - b'a' + 10,
            _ => panic!("bad hex digit"),
        })
        .collect();
    digits.chunks(2).map(|p| p[0] * 16 + p[1]).collect()
}

#[test]
fn bridge_config_encoded_test_xcm_message_to_bulletin_chain() {
    // Destination: the local network's universal location; program: one
    // superuser `Transact` carrying a system remark of the byte 42.
    let dest = InteriorLocation {
        junctions: vec![Junction::GlobalConsensus(NetworkId::ByGenesis([42u8; 32]))],
    };
    let remark_call: Vec<u8> = vec![0x00, 0x00, 0x04, 0x2a];
    let program = VersionedProgram::V3(Program {
        instructions: vec![Instruction::Transact {
            origin_kind: OriginKind::Superuser,
            require_weight_at_most: Weight { ref_time: 20_000_000_000, proof_size: 8000 },
            call: remark_call,
        }],
    });
    let encoded = encode_message(&dest, &program);
    let expected = hex_to_bytes(
        "030109002a2a2a2a2a2a2a2a2a2a2a2a2a2a2a2a2a2a2a2a2a2a2a2a2a2a2a2a2a2a2a2a\
         030406020700c817a804017d100000042a",
    );
    assert_eq!(encoded, expected);
}
