//! Wire format of a bridge message: the byte-level meaning of every model
//! type, as spec functions, together with the proof that decoding inverts
//! encoding.
//!
//! A bridge message is the concatenation of a version-tagged universal
//! destination and a version-tagged program. Enum values are written as a
//! one-byte index followed by the variant's fields; byte strings as a compact
//! length followed by the bytes; an interior location as a junction count
//! followed by that many junctions.

use vstd::prelude::*;

use crate::compact::{pow256, sdec_compact, spec_compact, DecodeError};
use crate::location::{Junction, NetworkId};
use crate::program::{
    InstructionV2View, InstructionView, LocalCallView, OriginKind, VersionedProgramView, Weight,
};

verus! {

broadcast use vstd::array::group_array_axioms;

/// The current protocol version; destinations and programs are written under
/// this tag.
pub const CURRENT_VERSION: u8 = 3;

/// The previous protocol version; still decoded, but not executed.
pub const LEGACY_VERSION: u8 = 2;

/// The array whose bytes are `s`, for a 32-byte `s`.
pub open spec fn seq_to_bytes32(s: Seq<u8>) -> [u8; 32] {
    choose|a: [u8; 32]| a@ == s
}

pub proof fn lemma_seq_to_bytes32(a: [u8; 32])
    ensures
        seq_to_bytes32(a@) == a,
{
    let c = choose|x: [u8; 32]| x@ == a@;
    assert(c@ == a@);
    assert(c =~= a);
}

// ---------------------------------------------------------------------------
// Encoders
// ---------------------------------------------------------------------------

pub open spec fn spec_enc_network(n: NetworkId) -> Seq<u8> {
    match n {
        NetworkId::ByGenesis(g) => seq![0u8] + g@,
        NetworkId::Polkadot => seq![2u8],
        NetworkId::Kusama => seq![3u8],
    }
}

pub open spec fn spec_enc_junction(j: Junction) -> Seq<u8> {
    match j {
        Junction::Parachain(id) => seq![0u8] + spec_compact(id as u64),
        Junction::GlobalConsensus(n) => seq![9u8] + spec_enc_network(n),
    }
}

pub open spec fn spec_enc_junction_seq(js: Seq<Junction>) -> Seq<u8>
    decreases js.len(),
{
    if js.len() == 0 {
        Seq::empty()
    } else {
        spec_enc_junction(js[0]) + spec_enc_junction_seq(js.skip(1))
    }
}

/// An interior location: the junction count, then the junctions.
pub open spec fn spec_enc_interior(js: Seq<Junction>) -> Seq<u8> {
    seq![js.len() as u8] + spec_enc_junction_seq(js)
}

/// A byte string: its compact length, then its bytes.
pub open spec fn spec_enc_vec_u8(b: Seq<u8>) -> Seq<u8> {
    spec_compact(b.len() as u64) + b
}

pub open spec fn spec_enc_weight(w: Weight) -> Seq<u8> {
    spec_compact(w.ref_time) + spec_compact(w.proof_size)
}

pub open spec fn origin_kind_byte(k: OriginKind) -> u8 {
    match k {
        OriginKind::Native => 0u8,
        OriginKind::SovereignAccount => 1u8,
        OriginKind::Superuser => 2u8,
        OriginKind::Xcm => 3u8,
    }
}

/// Index bytes of the instructions the bridge models, as the protocol's
/// instruction table assigns them.
pub const TRANSACT_INDEX: u8 = 6;

pub const CLEAR_ORIGIN_INDEX: u8 = 10;

pub const SET_TOPIC_INDEX: u8 = 44;

pub open spec fn spec_enc_instruction(i: InstructionView) -> Seq<u8> {
    match i {
        InstructionView::Transact { origin_kind, require_weight_at_most, call } => seq![
            TRANSACT_INDEX,
            origin_kind_byte(origin_kind),
        ] + spec_enc_weight(require_weight_at_most) + spec_enc_vec_u8(call),
        InstructionView::ClearOrigin => seq![CLEAR_ORIGIN_INDEX],
        InstructionView::SetTopic(t) => seq![SET_TOPIC_INDEX] + t@,
    }
}

pub open spec fn spec_enc_instr_seq(s: Seq<InstructionView>) -> Seq<u8>
    decreases s.len(),
{
    if s.len() == 0 {
        Seq::empty()
    } else {
        spec_enc_instruction(s[0]) + spec_enc_instr_seq(s.skip(1))
    }
}

/// A current-version program body: instruction count, then instructions.
pub open spec fn spec_enc_program(s: Seq<InstructionView>) -> Seq<u8> {
    spec_compact(s.len() as u64) + spec_enc_instr_seq(s)
}

pub open spec fn spec_enc_instruction_v2(i: InstructionV2View) -> Seq<u8> {
    match i {
        InstructionV2View::Transact { origin_kind, require_weight_at_most, call } => seq![
            TRANSACT_INDEX,
            origin_kind_byte(origin_kind),
        ] + spec_compact(require_weight_at_most) + spec_enc_vec_u8(call),
        InstructionV2View::ClearOrigin => seq![CLEAR_ORIGIN_INDEX],
    }
}

pub open spec fn spec_enc_instr_v2_seq(s: Seq<InstructionV2View>) -> Seq<u8>
    decreases s.len(),
{
    if s.len() == 0 {
        Seq::empty()
    } else {
        spec_enc_instruction_v2(s[0]) + spec_enc_instr_v2_seq(s.skip(1))
    }
}

pub open spec fn spec_enc_program_v2(s: Seq<InstructionV2View>) -> Seq<u8> {
    spec_compact(s.len() as u64) + spec_enc_instr_v2_seq(s)
}

/// A program under its version tag.
pub open spec fn spec_enc_versioned_program(p: VersionedProgramView) -> Seq<u8> {
    match p {
        VersionedProgramView::V2(s) => seq![LEGACY_VERSION] + spec_enc_program_v2(s),
        VersionedProgramView::V3(s) => seq![CURRENT_VERSION] + spec_enc_program(s),
    }
}

/// A whole bridge message: the destination under the current version tag,
/// then the versioned program.
pub open spec fn spec_enc_message(dest: Seq<Junction>, prog: VersionedProgramView) -> Seq<u8> {
    seq![CURRENT_VERSION] + spec_enc_interior(dest) + spec_enc_versioned_program(prog)
}

/// The local call wire format: a pallet byte, a call byte, the fields.
pub const SYSTEM_PALLET_INDEX: u8 = 0;

pub const REMARK_CALL_INDEX: u8 = 0;

pub const SET_STORAGE_CALL_INDEX: u8 = 4;

pub open spec fn spec_enc_kv(p: (Seq<u8>, Seq<u8>)) -> Seq<u8> {
    spec_enc_vec_u8(p.0) + spec_enc_vec_u8(p.1)
}

pub open spec fn spec_enc_kv_seq(s: Seq<(Seq<u8>, Seq<u8>)>) -> Seq<u8>
    decreases s.len(),
{
    if s.len() == 0 {
        Seq::empty()
    } else {
        spec_enc_kv(s[0]) + spec_enc_kv_seq(s.skip(1))
    }
}

pub open spec fn spec_enc_call(c: LocalCallView) -> Seq<u8> {
    match c {
        LocalCallView::Remark(bytes) => seq![SYSTEM_PALLET_INDEX, REMARK_CALL_INDEX]
            + spec_enc_vec_u8(bytes),
        LocalCallView::SetStorage(items) => seq![SYSTEM_PALLET_INDEX, SET_STORAGE_CALL_INDEX]
            + spec_compact(items.len() as u64) + spec_enc_kv_seq(items),
    }
}

// ---------------------------------------------------------------------------
// Well-formedness: what the wire format can carry
// ---------------------------------------------------------------------------

/// Byte strings carry a 32-bit length on the wire.
pub open spec fn bytes_wf(b: Seq<u8>) -> bool {
    b.len() < 0x1_0000_0000
}

pub open spec fn instruction_wf(i: InstructionView) -> bool {
    match i {
        InstructionView::Transact { call, .. } => bytes_wf(call),
        _ => true,
    }
}

pub open spec fn instr_seq_wf(s: Seq<InstructionView>) -> bool {
    &&& s.len() < 0x1_0000_0000
    &&& forall|k: int| 0 <= k < s.len() ==> instruction_wf(#[trigger] s[k])
}

pub open spec fn instruction_v2_wf(i: InstructionV2View) -> bool {
    match i {
        InstructionV2View::Transact { call, .. } => bytes_wf(call),
        _ => true,
    }
}

pub open spec fn instr_v2_seq_wf(s: Seq<InstructionV2View>) -> bool {
    &&& s.len() < 0x1_0000_0000
    &&& forall|k: int| 0 <= k < s.len() ==> instruction_v2_wf(#[trigger] s[k])
}

pub open spec fn versioned_program_wf(p: VersionedProgramView) -> bool {
    match p {
        VersionedProgramView::V2(s) => instr_v2_seq_wf(s),
        VersionedProgramView::V3(s) => instr_seq_wf(s),
    }
}

/// An interior location carries at most eight junctions.
pub open spec fn interior_wf(js: Seq<Junction>) -> bool {
    js.len() <= 8
}

/// A `(destination, program)` pair the wire format can carry.
pub open spec fn message_wf(dest: Seq<Junction>, prog: VersionedProgramView) -> bool {
    interior_wf(dest) && versioned_program_wf(prog)
}

pub open spec fn call_wf(c: LocalCallView) -> bool {
    match c {
        LocalCallView::Remark(bytes) => bytes_wf(bytes),
        LocalCallView::SetStorage(items) => {
            &&& items.len() < 0x1_0000_0000
            &&& forall|k: int|
                0 <= k < items.len() ==> bytes_wf((#[trigger] items[k]).0) && bytes_wf(items[k].1)
        },
    }
}

// ---------------------------------------------------------------------------
// Decoders
// ---------------------------------------------------------------------------

pub open spec fn sdec_bytes32(s: Seq<u8>, i: int) -> Result<([u8; 32], int), DecodeError> {
    if i + 32 <= s.len() {
        Ok((seq_to_bytes32(s.subrange(i, i + 32)), i + 32))
    } else {
        Err(DecodeError::Truncated)
    }
}

pub open spec fn sdec_network(s: Seq<u8>, i: int) -> Result<(NetworkId, int), DecodeError> {
    if !(0 <= i < s.len()) {
        Err(DecodeError::Truncated)
    } else if s[i] == 0 {
        match sdec_bytes32(s, i + 1) {
            Ok((g, j)) => Ok((NetworkId::ByGenesis(g), j)),
            Err(e) => Err(e),
        }
    } else if s[i] == 2 {
        Ok((NetworkId::Polkadot, i + 1))
    } else if s[i] == 3 {
        Ok((NetworkId::Kusama, i + 1))
    } else {
        Err(DecodeError::Malformed)
    }
}

pub open spec fn sdec_junction(s: Seq<u8>, i: int) -> Result<(Junction, int), DecodeError> {
    if !(0 <= i < s.len()) {
        Err(DecodeError::Truncated)
    } else if s[i] == 0 {
        match sdec_compact(s, i + 1) {
            Ok((v, j)) => if v < 0x1_0000_0000 {
                Ok((Junction::Parachain(v as u32), j))
            } else {
                Err(DecodeError::Malformed)
            },
            Err(e) => Err(e),
        }
    } else if s[i] == 9 {
        match sdec_network(s, i + 1) {
            Ok((n, j)) => Ok((Junction::GlobalConsensus(n), j)),
            Err(e) => Err(e),
        }
    } else {
        Err(DecodeError::Malformed)
    }
}

pub open spec fn sdec_junction_seq(s: Seq<u8>, i: int, count: nat) -> Result<
    (Seq<Junction>, int),
    DecodeError,
>
    decreases count,
{
    if count == 0 {
        Ok((Seq::empty(), i))
    } else {
        match sdec_junction(s, i) {
            Ok((j, next)) => match sdec_junction_seq(s, next, (count - 1) as nat) {
                Ok((rest, end)) => Ok((seq![j] + rest, end)),
                Err(e) => Err(e),
            },
            Err(e) => Err(e),
        }
    }
}

pub open spec fn sdec_interior(s: Seq<u8>, i: int) -> Result<(Seq<Junction>, int), DecodeError> {
    if !(0 <= i < s.len()) {
        Err(DecodeError::Truncated)
    } else if s[i] > 8 {
        Err(DecodeError::Malformed)
    } else {
        sdec_junction_seq(s, i + 1, s[i] as nat)
    }
}

pub open spec fn sdec_vec_u8(s: Seq<u8>, i: int) -> Result<(Seq<u8>, int), DecodeError> {
    match sdec_compact(s, i) {
        Ok((len, j)) => if len >= 0x1_0000_0000 {
            Err(DecodeError::Malformed)
        } else if j + len <= s.len() {
            Ok((s.subrange(j, j + len), j + len))
        } else {
            Err(DecodeError::Truncated)
        },
        Err(e) => Err(e),
    }
}

pub open spec fn sdec_weight(s: Seq<u8>, i: int) -> Result<(Weight, int), DecodeError> {
    match sdec_compact(s, i) {
        Ok((rt, j)) => match sdec_compact(s, j) {
            Ok((ps, k)) => Ok((Weight { ref_time: rt, proof_size: ps }, k)),
            Err(e) => Err(e),
        },
        Err(e) => Err(e),
    }
}

pub open spec fn sdec_origin_kind(s: Seq<u8>, i: int) -> Result<(OriginKind, int), DecodeError> {
    if !(0 <= i < s.len()) {
        Err(DecodeError::Truncated)
    } else if s[i] == 0 {
        Ok((OriginKind::Native, i + 1))
    } else if s[i] == 1 {
        Ok((OriginKind::SovereignAccount, i + 1))
    } else if s[i] == 2 {
        Ok((OriginKind::Superuser, i + 1))
    } else if s[i] == 3 {
        Ok((OriginKind::Xcm, i + 1))
    } else {
        Err(DecodeError::Malformed)
    }
}

pub open spec fn sdec_instruction(s: Seq<u8>, i: int) -> Result<(InstructionView, int), DecodeError> {
    if !(0 <= i < s.len()) {
        Err(DecodeError::Truncated)
    } else if s[i] == TRANSACT_INDEX {
        match sdec_origin_kind(s, i + 1) {
            Ok((kind, j)) => match sdec_weight(s, j) {
                Ok((w, k)) => match sdec_vec_u8(s, k) {
                    Ok((call, end)) => Ok(
                        (
                            InstructionView::Transact {
                                origin_kind: kind,
                                require_weight_at_most: w,
                                call,
                            },
                            end,
                        ),
                    ),
                    Err(e) => Err(e),
                },
                Err(e) => Err(e),
            },
            Err(e) => Err(e),
        }
    } else if s[i] == CLEAR_ORIGIN_INDEX {
        Ok((InstructionView::ClearOrigin, i + 1))
    } else if s[i] == SET_TOPIC_INDEX {
        match sdec_bytes32(s, i + 1) {
            Ok((t, j)) => Ok((InstructionView::SetTopic(t), j)),
            Err(e) => Err(e),
        }
    } else {
        Err(DecodeError::Malformed)
    }
}

pub open spec fn sdec_instr_seq(s: Seq<u8>, i: int, count: nat) -> Result<
    (Seq<InstructionView>, int),
    DecodeError,
>
    decreases count,
{
    if count == 0 {
        Ok((Seq::empty(), i))
    } else {
        match sdec_instruction(s, i) {
            Ok((inst, next)) => match sdec_instr_seq(s, next, (count - 1) as nat) {
                Ok((rest, end)) => Ok((seq![inst] + rest, end)),
                Err(e) => Err(e),
            },
            Err(e) => Err(e),
        }
    }
}

pub open spec fn sdec_program(s: Seq<u8>, i: int) -> Result<
    (Seq<InstructionView>, int),
    DecodeError,
> {
    match sdec_compact(s, i) {
        Ok((count, j)) => if count >= 0x1_0000_0000 {
            Err(DecodeError::Malformed)
        } else {
            sdec_instr_seq(s, j, count as nat)
        },
        Err(e) => Err(e),
    }
}

pub open spec fn sdec_instruction_v2(s: Seq<u8>, i: int) -> Result<
    (InstructionV2View, int),
    DecodeError,
> {
    if !(0 <= i < s.len()) {
        Err(DecodeError::Truncated)
    } else if s[i] == TRANSACT_INDEX {
        match sdec_origin_kind(s, i + 1) {
            Ok((kind, j)) => match sdec_compact(s, j) {
                Ok((w, k)) => match sdec_vec_u8(s, k) {
                    Ok((call, end)) => Ok(
                        (
                            InstructionV2View::Transact {
                                origin_kind: kind,
                                require_weight_at_most: w,
                                call,
                            },
                            end,
                        ),
                    ),
                    Err(e) => Err(e),
                },
                Err(e) => Err(e),
            },
            Err(e) => Err(e),
        }
    } else if s[i] == CLEAR_ORIGIN_INDEX {
        Ok((InstructionV2View::ClearOrigin, i + 1))
    } else {
        Err(DecodeError::Malformed)
    }
}

pub open spec fn sdec_instr_v2_seq(s: Seq<u8>, i: int, count: nat) -> Result<
    (Seq<InstructionV2View>, int),
    DecodeError,
>
    decreases count,
{
    if count == 0 {
        Ok((Seq::empty(), i))
    } else {
        match sdec_instruction_v2(s, i) {
            Ok((inst, next)) => match sdec_instr_v2_seq(s, next, (count - 1) as nat) {
                Ok((rest, end)) => Ok((seq![inst] + rest, end)),
                Err(e) => Err(e),
            },
            Err(e) => Err(e),
        }
    }
}

pub open spec fn sdec_program_v2(s: Seq<u8>, i: int) -> Result<
    (Seq<InstructionV2View>, int),
    DecodeError,
> {
    match sdec_compact(s, i) {
        Ok((count, j)) => if count >= 0x1_0000_0000 {
            Err(DecodeError::Malformed)
        } else {
            sdec_instr_v2_seq(s, j, count as nat)
        },
        Err(e) => Err(e),
    }
}

pub open spec fn sdec_versioned_program(s: Seq<u8>, i: int) -> Result<
    (VersionedProgramView, int),
    DecodeError,
> {
    if !(0 <= i < s.len()) {
        Err(DecodeError::Truncated)
    } else if s[i] == LEGACY_VERSION {
        match sdec_program_v2(s, i + 1) {
            Ok((p, j)) => Ok((VersionedProgramView::V2(p), j)),
            Err(e) => Err(e),
        }
    } else if s[i] == CURRENT_VERSION {
        match sdec_program(s, i + 1) {
            Ok((p, j)) => Ok((VersionedProgramView::V3(p), j)),
            Err(e) => Err(e),
        }
    } else {
        Err(DecodeError::UnknownVersion)
    }
}

/// The whole blob: a current-version destination, a versioned program, and
/// nothing after them.
pub open spec fn sdec_message(s: Seq<u8>) -> Result<
    (Seq<Junction>, VersionedProgramView),
    DecodeError,
> {
    if s.len() == 0 {
        Err(DecodeError::Truncated)
    } else if s[0] != CURRENT_VERSION {
        Err(DecodeError::UnknownVersion)
    } else {
        match sdec_interior(s, 1) {
            Ok((dest, i)) => match sdec_versioned_program(s, i) {
                Ok((prog, end)) => if end == s.len() {
                    Ok((dest, prog))
                } else {
                    Err(DecodeError::Trailing)
                },
                Err(e) => Err(e),
            },
            Err(e) => Err(e),
        }
    }
}

/// A local call payload: pallet byte, call byte, fields, nothing after them.
pub open spec fn sdec_call(s: Seq<u8>) -> Result<LocalCallView, DecodeError> {
    if s.len() < 2 {
        Err(DecodeError::Truncated)
    } else if s[0] != SYSTEM_PALLET_INDEX {
        Err(DecodeError::Malformed)
    } else if s[1] == REMARK_CALL_INDEX {
        match sdec_vec_u8(s, 2) {
            Ok((bytes, end)) => if end == s.len() {
                Ok(LocalCallView::Remark(bytes))
            } else {
                Err(DecodeError::Trailing)
            },
            Err(e) => Err(e),
        }
    } else if s[1] == SET_STORAGE_CALL_INDEX {
        match sdec_kv_list(s, 2) {
            Ok((items, end)) => if end == s.len() {
                Ok(LocalCallView::SetStorage(items))
            } else {
                Err(DecodeError::Trailing)
            },
            Err(e) => Err(e),
        }
    } else {
        Err(DecodeError::Malformed)
    }
}

pub open spec fn sdec_kv(s: Seq<u8>, i: int) -> Result<((Seq<u8>, Seq<u8>), int), DecodeError> {
    match sdec_vec_u8(s, i) {
        Ok((k, j)) => match sdec_vec_u8(s, j) {
            Ok((v, end)) => Ok(((k, v), end)),
            Err(e) => Err(e),
        },
        Err(e) => Err(e),
    }
}

pub open spec fn sdec_kv_seq(s: Seq<u8>, i: int, count: nat) -> Result<
    (Seq<(Seq<u8>, Seq<u8>)>, int),
    DecodeError,
>
    decreases count,
{
    if count == 0 {
        Ok((Seq::empty(), i))
    } else {
        match sdec_kv(s, i) {
            Ok((p, next)) => match sdec_kv_seq(s, next, (count - 1) as nat) {
                Ok((rest, end)) => Ok((seq![p] + rest, end)),
                Err(e) => Err(e),
            },
            Err(e) => Err(e),
        }
    }
}

pub open spec fn sdec_kv_list(s: Seq<u8>, i: int) -> Result<
    (Seq<(Seq<u8>, Seq<u8>)>, int),
    DecodeError,
> {
    match sdec_compact(s, i) {
        Ok((count, j)) => if count >= 0x1_0000_0000 {
            Err(DecodeError::Malformed)
        } else {
            sdec_kv_seq(s, j, count as nat)
        },
        Err(e) => Err(e),
    }
}

} // verus!
