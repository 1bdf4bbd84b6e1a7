//! Executable decoders: each returns exactly what the corresponding spec
//! decoder describes, on success and on failure alike.

use vstd::prelude::*;

use crate::codec::{
    lemma_seq_to_bytes32, sdec_bytes32, sdec_call, sdec_instr_seq, sdec_instr_v2_seq,
    sdec_instruction, sdec_instruction_v2, sdec_interior, sdec_junction, sdec_junction_seq,
    sdec_kv_seq, sdec_message, sdec_network, sdec_origin_kind,
    sdec_program, sdec_program_v2, sdec_vec_u8, sdec_versioned_program, sdec_weight,
    CLEAR_ORIGIN_INDEX, CURRENT_VERSION, LEGACY_VERSION, REMARK_CALL_INDEX,
    SET_STORAGE_CALL_INDEX, SET_TOPIC_INDEX, SYSTEM_PALLET_INDEX, TRANSACT_INDEX,
};
use crate::compact::{decode_compact, DecodeError};
use crate::location::{InteriorLocation, Junction, NetworkId};
use crate::program::{
    Instruction, InstructionV2, LocalCall, OriginKind, Program, ProgramV2, VersionedProgram,
    Weight,
};

verus! {

broadcast use vstd::array::group_array_axioms;

/// Reads 32 raw bytes.
fn decode_bytes32(s: &Vec<u8>, pos: usize) -> (r: Result<([u8; 32], usize), DecodeError>)
    ensures
        (match sdec_bytes32(s@, pos as int) {
            Ok(pair) => r is Ok && r->Ok_0.0 == pair.0 && r->Ok_0.1 as int == pair.1,
            Err(e) => r is Err && r->Err_0 == e,
        }),
{
    if s.len() < 32 || pos > s.len() - 32 {
        return Err(DecodeError::Truncated);
    }
    let end = pos + 32;
    let mut arr: [u8; 32] = [0; 32];
    let mut k: usize = 0;
    while k < 32
        invariant
            k <= 32,
            end == pos + 32,
            pos + 32 <= s@.len(),
            forall|m: int| 0 <= m < k ==> arr@[m] == s@[pos + m],
        decreases 32 - k,
    {
        arr[k] = s[pos + k];
        k += 1;
    }
    proof {
        assert(arr@ =~= s@.subrange(pos as int, pos + 32));
        lemma_seq_to_bytes32(arr);
    }
    Ok((arr, pos + 32))
}

fn decode_network(s: &Vec<u8>, pos: usize) -> (r: Result<(NetworkId, usize), DecodeError>)
    ensures
        (match sdec_network(s@, pos as int) {
            Ok(pair) => r is Ok && r->Ok_0.0 == pair.0 && r->Ok_0.1 as int == pair.1,
            Err(e) => r is Err && r->Err_0 == e,
        }),
{
    if pos >= s.len() {
        return Err(DecodeError::Truncated);
    }
    let tag = s[pos];
    if tag == 0 {
        match decode_bytes32(s, pos + 1) {
            Ok((g, j)) => Ok((NetworkId::ByGenesis(g), j)),
            Err(e) => Err(e),
        }
    } else if tag == 2 {
        Ok((NetworkId::Polkadot, pos + 1))
    } else if tag == 3 {
        Ok((NetworkId::Kusama, pos + 1))
    } else {
        Err(DecodeError::Malformed)
    }
}

fn decode_junction(s: &Vec<u8>, pos: usize) -> (r: Result<(Junction, usize), DecodeError>)
    ensures
        (match sdec_junction(s@, pos as int) {
            Ok(pair) => r is Ok && r->Ok_0.0 == pair.0 && r->Ok_0.1 as int == pair.1,
            Err(e) => r is Err && r->Err_0 == e,
        }),
{
    if pos >= s.len() {
        return Err(DecodeError::Truncated);
    }
    let tag = s[pos];
    if tag == 0 {
        match decode_compact(s, pos + 1) {
            Ok((v, j)) => if v < 0x1_0000_0000 {
                Ok((Junction::Parachain(v as u32), j))
            } else {
                Err(DecodeError::Malformed)
            },
            Err(e) => Err(e),
        }
    } else if tag == 9 {
        match decode_network(s, pos + 1) {
            Ok((n, j)) => Ok((Junction::GlobalConsensus(n), j)),
            Err(e) => Err(e),
        }
    } else {
        Err(DecodeError::Malformed)
    }
}

fn decode_junction_seq(s: &Vec<u8>, pos: usize, count: u8) -> (r: Result<
    (Vec<Junction>, usize),
    DecodeError,
>)
    ensures
        (match sdec_junction_seq(s@, pos as int, count as nat) {
            Ok(pair) => r is Ok && r->Ok_0.0@ == pair.0 && r->Ok_0.1 as int == pair.1,
            Err(e) => r is Err && r->Err_0 == e,
        }),
{
    let mut acc: Vec<Junction> = Vec::new();
    let mut cur = pos;
    let mut k: u8 = 0;
    while k < count
        invariant
            k <= count,
            (match sdec_junction_seq(s@, cur as int, (count - k) as nat) {
                Ok(pair) => sdec_junction_seq(s@, pos as int, count as nat) == Ok::<
                    (Seq<Junction>, int),
                    DecodeError,
                >((acc@ + pair.0, pair.1)),
                Err(e) => sdec_junction_seq(s@, pos as int, count as nat) == Err::<
                    (Seq<Junction>, int),
                    DecodeError,
                >(e),
            }),
        decreases count - k,
    {
        match decode_junction(s, cur) {
            Ok((j, nxt)) => {
                let ghost acc0 = acc@;
                acc.push(j);
                cur = nxt;
                k += 1;
                proof {
                    match sdec_junction_seq(s@, cur as int, (count - k) as nat) {
                        Ok(pair) => {
                            assert(acc0 + (seq![j] + pair.0) =~= acc@ + pair.0);
                        },
                        Err(_) => {},
                    }
                }
            },
            Err(e) => {
                return Err(e);
            },
        }
    }
    proof {
        assert(acc@ + Seq::<Junction>::empty() =~= acc@);
    }
    Ok((acc, cur))
}

fn decode_interior(s: &Vec<u8>, pos: usize) -> (r: Result<(InteriorLocation, usize), DecodeError>)
    ensures
        (match sdec_interior(s@, pos as int) {
            Ok(pair) => r is Ok && r->Ok_0.0@ == pair.0 && r->Ok_0.1 as int == pair.1,
            Err(e) => r is Err && r->Err_0 == e,
        }),
{
    if pos >= s.len() {
        return Err(DecodeError::Truncated);
    }
    let count = s[pos];
    if count > 8 {
        return Err(DecodeError::Malformed);
    }
    match decode_junction_seq(s, pos + 1, count) {
        Ok((junctions, end)) => Ok((InteriorLocation { junctions }, end)),
        Err(e) => Err(e),
    }
}

/// Reads a length-prefixed byte string.
fn decode_vec_u8(s: &Vec<u8>, pos: usize) -> (r: Result<(Vec<u8>, usize), DecodeError>)
    ensures
        (match sdec_vec_u8(s@, pos as int) {
            Ok(pair) => r is Ok && r->Ok_0.0@ == pair.0 && r->Ok_0.1 as int == pair.1,
            Err(e) => r is Err && r->Err_0 == e,
        }),
{
    let (len, j) = match decode_compact(s, pos) {
        Ok(p) => p,
        Err(e) => {
            return Err(e);
        },
    };
    if len >= 0x1_0000_0000 {
        return Err(DecodeError::Malformed);
    }
    let remaining = (s.len() - j) as u64;
    if remaining < len {
        return Err(DecodeError::Truncated);
    }
    let len = len as usize;
    let end = j + len;
    let mut bytes: Vec<u8> = Vec::new();
    let mut k: usize = 0;
    while k < len
        invariant
            k <= len,
            end == j + len,
            j + len <= s@.len(),
            bytes@ =~= s@.subrange(j as int, j + k),
        decreases len - k,
    {
        bytes.push(s[j + k]);
        proof {
            assert(bytes@ =~= s@.subrange(j as int, j + k + 1));
        }
        k += 1;
    }
    Ok((bytes, j + len))
}

fn decode_weight(s: &Vec<u8>, pos: usize) -> (r: Result<(Weight, usize), DecodeError>)
    ensures
        (match sdec_weight(s@, pos as int) {
            Ok(pair) => r is Ok && r->Ok_0.0 == pair.0 && r->Ok_0.1 as int == pair.1,
            Err(e) => r is Err && r->Err_0 == e,
        }),
{
    match decode_compact(s, pos) {
        Ok((rt, j)) => match decode_compact(s, j) {
            Ok((ps, k)) => Ok((Weight { ref_time: rt, proof_size: ps }, k)),
            Err(e) => Err(e),
        },
        Err(e) => Err(e),
    }
}

fn decode_origin_kind(s: &Vec<u8>, pos: usize) -> (r: Result<(OriginKind, usize), DecodeError>)
    ensures
        (match sdec_origin_kind(s@, pos as int) {
            Ok(pair) => r is Ok && r->Ok_0.0 == pair.0 && r->Ok_0.1 as int == pair.1,
            Err(e) => r is Err && r->Err_0 == e,
        }),
{
    if pos >= s.len() {
        return Err(DecodeError::Truncated);
    }
    match s[pos] {
        0 => Ok((OriginKind::Native, pos + 1)),
        1 => Ok((OriginKind::SovereignAccount, pos + 1)),
        2 => Ok((OriginKind::Superuser, pos + 1)),
        3 => Ok((OriginKind::Xcm, pos + 1)),
        _ => Err(DecodeError::Malformed),
    }
}

fn decode_instruction(s: &Vec<u8>, pos: usize) -> (r: Result<(Instruction, usize), DecodeError>)
    ensures
        (match sdec_instruction(s@, pos as int) {
            Ok(pair) => r is Ok && r->Ok_0.0@ == pair.0 && r->Ok_0.1 as int == pair.1,
            Err(e) => r is Err && r->Err_0 == e,
        }),
{
    if pos >= s.len() {
        return Err(DecodeError::Truncated);
    }
    let tag = s[pos];
    if tag == TRANSACT_INDEX {
        let (kind, j) = match decode_origin_kind(s, pos + 1) {
            Ok(p) => p,
            Err(e) => {
                return Err(e);
            },
        };
        let (w, k) = match decode_weight(s, j) {
            Ok(p) => p,
            Err(e) => {
                return Err(e);
            },
        };
        let (call, end) = match decode_vec_u8(s, k) {
            Ok(p) => p,
            Err(e) => {
                return Err(e);
            },
        };
        Ok((Instruction::Transact { origin_kind: kind, require_weight_at_most: w, call }, end))
    } else if tag == CLEAR_ORIGIN_INDEX {
        Ok((Instruction::ClearOrigin, pos + 1))
    } else if tag == SET_TOPIC_INDEX {
        match decode_bytes32(s, pos + 1) {
            Ok((t, j)) => Ok((Instruction::SetTopic(t), j)),
            Err(e) => Err(e),
        }
    } else {
        Err(DecodeError::Malformed)
    }
}

fn decode_instr_seq(s: &Vec<u8>, pos: usize, count: u64) -> (r: Result<
    (Vec<Instruction>, usize),
    DecodeError,
>)
    ensures
        (match sdec_instr_seq(s@, pos as int, count as nat) {
            Ok(pair) => r is Ok && r->Ok_0.0@.map_values(|x: Instruction| x@) == pair.0
                && r->Ok_0.1 as int == pair.1,
            Err(e) => r is Err && r->Err_0 == e,
        }),
{
    let mut acc: Vec<Instruction> = Vec::new();
    let mut cur = pos;
    let mut k: u64 = 0;
    while k < count
        invariant
            k <= count,
            (match sdec_instr_seq(s@, cur as int, (count - k) as nat) {
                Ok(pair) => sdec_instr_seq(s@, pos as int, count as nat) == Ok::<
                    (Seq<crate::program::InstructionView>, int),
                    DecodeError,
                >((acc@.map_values(|x: Instruction| x@) + pair.0, pair.1)),
                Err(e) => sdec_instr_seq(s@, pos as int, count as nat) == Err::<
                    (Seq<crate::program::InstructionView>, int),
                    DecodeError,
                >(e),
            }),
        decreases count - k,
    {
        match decode_instruction(s, cur) {
            Ok((inst, nxt)) => {
                let ghost acc0 = acc@.map_values(|x: Instruction| x@);
                let ghost iv = inst@;
                acc.push(inst);
                cur = nxt;
                k += 1;
                proof {
                    assert(acc@.map_values(|x: Instruction| x@) =~= acc0 + seq![iv]);
                    match sdec_instr_seq(s@, cur as int, (count - k) as nat) {
                        Ok(pair) => {
                            assert(acc0 + (seq![iv] + pair.0) =~= (acc0 + seq![iv]) + pair.0);
                        },
                        Err(_) => {},
                    }
                }
            },
            Err(e) => {
                return Err(e);
            },
        }
    }
    proof {
        assert(acc@.map_values(|x: Instruction| x@) + Seq::<
            crate::program::InstructionView,
        >::empty() =~= acc@.map_values(|x: Instruction| x@));
    }
    Ok((acc, cur))
}

fn decode_program(s: &Vec<u8>, pos: usize) -> (r: Result<(Program, usize), DecodeError>)
    ensures
        (match sdec_program(s@, pos as int) {
            Ok(pair) => r is Ok && r->Ok_0.0@ == pair.0 && r->Ok_0.1 as int == pair.1,
            Err(e) => r is Err && r->Err_0 == e,
        }),
{
    let (count, j) = match decode_compact(s, pos) {
        Ok(p) => p,
        Err(e) => {
            return Err(e);
        },
    };
    if count >= 0x1_0000_0000 {
        return Err(DecodeError::Malformed);
    }
    match decode_instr_seq(s, j, count) {
        Ok((instructions, end)) => Ok((Program { instructions }, end)),
        Err(e) => Err(e),
    }
}

fn decode_instruction_v2(s: &Vec<u8>, pos: usize) -> (r: Result<
    (InstructionV2, usize),
    DecodeError,
>)
    ensures
        (match sdec_instruction_v2(s@, pos as int) {
            Ok(pair) => r is Ok && r->Ok_0.0@ == pair.0 && r->Ok_0.1 as int == pair.1,
            Err(e) => r is Err && r->Err_0 == e,
        }),
{
    if pos >= s.len() {
        return Err(DecodeError::Truncated);
    }
    let tag = s[pos];
    if tag == TRANSACT_INDEX {
        let (kind, j) = match decode_origin_kind(s, pos + 1) {
            Ok(p) => p,
            Err(e) => {
                return Err(e);
            },
        };
        let (w, k) = match decode_compact(s, j) {
            Ok(p) => p,
            Err(e) => {
                return Err(e);
            },
        };
        let (call, end) = match decode_vec_u8(s, k) {
            Ok(p) => p,
            Err(e) => {
                return Err(e);
            },
        };
        Ok((InstructionV2::Transact { origin_kind: kind, require_weight_at_most: w, call }, end))
    } else if tag == CLEAR_ORIGIN_INDEX {
        Ok((InstructionV2::ClearOrigin, pos + 1))
    } else {
        Err(DecodeError::Malformed)
    }
}

fn decode_instr_v2_seq(s: &Vec<u8>, pos: usize, count: u64) -> (r: Result<
    (Vec<InstructionV2>, usize),
    DecodeError,
>)
    ensures
        (match sdec_instr_v2_seq(s@, pos as int, count as nat) {
            Ok(pair) => r is Ok && r->Ok_0.0@.map_values(|x: InstructionV2| x@) == pair.0
                && r->Ok_0.1 as int == pair.1,
            Err(e) => r is Err && r->Err_0 == e,
        }),
{
    let mut acc: Vec<InstructionV2> = Vec::new();
    let mut cur = pos;
    let mut k: u64 = 0;
    while k < count
        invariant
            k <= count,
            (match sdec_instr_v2_seq(s@, cur as int, (count - k) as nat) {
                Ok(pair) => sdec_instr_v2_seq(s@, pos as int, count as nat) == Ok::<
                    (Seq<crate::program::InstructionV2View>, int),
                    DecodeError,
                >((acc@.map_values(|x: InstructionV2| x@) + pair.0, pair.1)),
                Err(e) => sdec_instr_v2_seq(s@, pos as int, count as nat) == Err::<
                    (Seq<crate::program::InstructionV2View>, int),
                    DecodeError,
                >(e),
            }),
        decreases count - k,
    {
        match decode_instruction_v2(s, cur) {
            Ok((inst, nxt)) => {
                let ghost acc0 = acc@.map_values(|x: InstructionV2| x@);
                let ghost iv = inst@;
                acc.push(inst);
                cur = nxt;
                k += 1;
                proof {
                    assert(acc@.map_values(|x: InstructionV2| x@) =~= acc0 + seq![iv]);
                    match sdec_instr_v2_seq(s@, cur as int, (count - k) as nat) {
                        Ok(pair) => {
                            assert(acc0 + (seq![iv] + pair.0) =~= (acc0 + seq![iv]) + pair.0);
                        },
                        Err(_) => {},
                    }
                }
            },
            Err(e) => {
                return Err(e);
            },
        }
    }
    proof {
        assert(acc@.map_values(|x: InstructionV2| x@) + Seq::<
            crate::program::InstructionV2View,
        >::empty() =~= acc@.map_values(|x: InstructionV2| x@));
    }
    Ok((acc, cur))
}

fn decode_program_v2(s: &Vec<u8>, pos: usize) -> (r: Result<(ProgramV2, usize), DecodeError>)
    ensures
        (match sdec_program_v2(s@, pos as int) {
            Ok(pair) => r is Ok && r->Ok_0.0@ == pair.0 && r->Ok_0.1 as int == pair.1,
            Err(e) => r is Err && r->Err_0 == e,
        }),
{
    let (count, j) = match decode_compact(s, pos) {
        Ok(p) => p,
        Err(e) => {
            return Err(e);
        },
    };
    if count >= 0x1_0000_0000 {
        return Err(DecodeError::Malformed);
    }
    match decode_instr_v2_seq(s, j, count) {
        Ok((instructions, end)) => Ok((ProgramV2 { instructions }, end)),
        Err(e) => Err(e),
    }
}

fn decode_versioned_program(s: &Vec<u8>, pos: usize) -> (r: Result<
    (VersionedProgram, usize),
    DecodeError,
>)
    ensures
        (match sdec_versioned_program(s@, pos as int) {
            Ok(pair) => r is Ok && r->Ok_0.0@ == pair.0 && r->Ok_0.1 as int == pair.1,
            Err(e) => r is Err && r->Err_0 == e,
        }),
{
    if pos >= s.len() {
        return Err(DecodeError::Truncated);
    }
    let tag = s[pos];
    if tag == LEGACY_VERSION {
        match decode_program_v2(s, pos + 1) {
            Ok((p, j)) => Ok((VersionedProgram::V2(p), j)),
            Err(e) => Err(e),
        }
    } else if tag == CURRENT_VERSION {
        match decode_program(s, pos + 1) {
            Ok((p, j)) => Ok((VersionedProgram::V3(p), j)),
            Err(e) => Err(e),
        }
    } else {
        Err(DecodeError::UnknownVersion)
    }
}

/// Decodes an opaque blob into a universal destination and a versioned
/// program. Rejects truncated input, unknown version tags, junction or
/// instruction shapes outside the wire format, non-canonical integers, and
/// trailing bytes, exactly as [`sdec_message`] describes.
pub fn decode_message(blob: &Vec<u8>) -> (r: Result<
    (InteriorLocation, VersionedProgram),
    DecodeError,
>)
    ensures
        (match sdec_message(blob@) {
            Ok(pair) => r is Ok && r->Ok_0.0@ == pair.0 && r->Ok_0.1@ == pair.1,
            Err(e) => r is Err && r->Err_0 == e,
        }),
{
    if blob.len() == 0 {
        return Err(DecodeError::Truncated);
    }
    if blob[0] != CURRENT_VERSION {
        return Err(DecodeError::UnknownVersion);
    }
    let (dest, i) = match decode_interior(blob, 1) {
        Ok(p) => p,
        Err(e) => {
            return Err(e);
        },
    };
    let (prog, end) = match decode_versioned_program(blob, i) {
        Ok(p) => p,
        Err(e) => {
            return Err(e);
        },
    };
    if end != blob.len() {
        return Err(DecodeError::Trailing);
    }
    Ok((dest, prog))
}

fn decode_kv_seq(s: &Vec<u8>, pos: usize, count: u64) -> (r: Result<
    (Vec<(Vec<u8>, Vec<u8>)>, usize),
    DecodeError,
>)
    ensures
        (match sdec_kv_seq(s@, pos as int, count as nat) {
            Ok(pair) => r is Ok && r->Ok_0.0@.map_values(|p: (Vec<u8>, Vec<u8>)| (p.0@, p.1@))
                == pair.0 && r->Ok_0.1 as int == pair.1,
            Err(e) => r is Err && r->Err_0 == e,
        }),
{
    let mut acc: Vec<(Vec<u8>, Vec<u8>)> = Vec::new();
    let mut cur = pos;
    let mut k: u64 = 0;
    while k < count
        invariant
            k <= count,
            (match sdec_kv_seq(s@, cur as int, (count - k) as nat) {
                Ok(pair) => sdec_kv_seq(s@, pos as int, count as nat) == Ok::<
                    (Seq<(Seq<u8>, Seq<u8>)>, int),
                    DecodeError,
                >((acc@.map_values(|p: (Vec<u8>, Vec<u8>)| (p.0@, p.1@)) + pair.0, pair.1)),
                Err(e) => sdec_kv_seq(s@, pos as int, count as nat) == Err::<
                    (Seq<(Seq<u8>, Seq<u8>)>, int),
                    DecodeError,
                >(e),
            }),
        decreases count - k,
    {
        let (key, j) = match decode_vec_u8(s, cur) {
            Ok(p) => p,
            Err(e) => {
                return Err(e);
            },
        };
        let (value, nxt) = match decode_vec_u8(s, j) {
            Ok(p) => p,
            Err(e) => {
                return Err(e);
            },
        };
        let ghost acc0 = acc@.map_values(|p: (Vec<u8>, Vec<u8>)| (p.0@, p.1@));
        let ghost kv = (key@, value@);
        acc.push((key, value));
        cur = nxt;
        k += 1;
        proof {
            assert(acc@.map_values(|p: (Vec<u8>, Vec<u8>)| (p.0@, p.1@)) =~= acc0 + seq![kv]);
            match sdec_kv_seq(s@, cur as int, (count - k) as nat) {
                Ok(pair) => {
                    assert(acc0 + (seq![kv] + pair.0) =~= (acc0 + seq![kv]) + pair.0);
                },
                Err(_) => {},
            }
        }
    }
    proof {
        assert(acc@.map_values(|p: (Vec<u8>, Vec<u8>)| (p.0@, p.1@)) + Seq::<
            (Seq<u8>, Seq<u8>),
        >::empty() =~= acc@.map_values(|p: (Vec<u8>, Vec<u8>)| (p.0@, p.1@)));
    }
    Ok((acc, cur))
}

/// Decodes a `Transact` payload into the local call representation. The whole
/// payload must be consumed, exactly as [`sdec_call`] describes.
pub fn decode_call(s: &Vec<u8>) -> (r: Result<LocalCall, DecodeError>)
    ensures
        (match sdec_call(s@) {
            Ok(c) => r is Ok && r->Ok_0@ == c,
            Err(e) => r is Err && r->Err_0 == e,
        }),
{
    if s.len() < 2 {
        return Err(DecodeError::Truncated);
    }
    if s[0] != SYSTEM_PALLET_INDEX {
        return Err(DecodeError::Malformed);
    }
    let call_index = s[1];
    if call_index == REMARK_CALL_INDEX {
        match decode_vec_u8(s, 2) {
            Ok((bytes, end)) => if end == s.len() {
                Ok(LocalCall::Remark(bytes))
            } else {
                Err(DecodeError::Trailing)
            },
            Err(e) => Err(e),
        }
    } else if call_index == SET_STORAGE_CALL_INDEX {
        let (count, j) = match decode_compact(s, 2) {
            Ok(p) => p,
            Err(e) => {
                return Err(e);
            },
        };
        if count >= 0x1_0000_0000 {
            return Err(DecodeError::Malformed);
        }
        match decode_kv_seq(s, j, count) {
            Ok((items, end)) => if end == s.len() {
                Ok(LocalCall::SetStorage(items))
            } else {
                Err(DecodeError::Trailing)
            },
            Err(e) => Err(e),
        }
    } else {
        Err(DecodeError::Malformed)
    }
}

} // verus!
