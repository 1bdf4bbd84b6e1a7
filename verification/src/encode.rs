//! Executable encoders: each appends exactly the bytes that the corresponding
//! spec encoder describes, so encoding is deterministic by construction.

use vstd::prelude::*;

use crate::codec::{
    origin_kind_byte, spec_enc_call, spec_enc_instr_seq, spec_enc_instr_v2_seq,
    spec_enc_instruction, spec_enc_instruction_v2, spec_enc_interior, spec_enc_junction,
    spec_enc_junction_seq, spec_enc_kv_seq, spec_enc_message, spec_enc_network, spec_enc_program,
    spec_enc_program_v2, spec_enc_vec_u8, spec_enc_versioned_program, spec_enc_weight,
    CLEAR_ORIGIN_INDEX, CURRENT_VERSION, LEGACY_VERSION, REMARK_CALL_INDEX,
    SET_STORAGE_CALL_INDEX, SET_TOPIC_INDEX, SYSTEM_PALLET_INDEX, TRANSACT_INDEX,
};
use crate::compact::encode_compact;
use crate::location::{InteriorLocation, Junction, NetworkId};
use crate::program::{
    Instruction, InstructionV2, InstructionV2View, InstructionView, LocalCall, OriginKind,
    Program, ProgramV2, VersionedProgram, Weight,
};

verus! {

/// Appends the 32 bytes of `b`.
pub fn encode_bytes32(b: &[u8; 32], out: &mut Vec<u8>)
    ensures
        final(out)@ == old(out)@ + b@,
{
    let mut k: usize = 0;
    while k < 32
        invariant
            k <= 32,
            out@ == old(out)@ + b@.subrange(0, k as int),
        decreases 32 - k,
    {
        out.push(b[k]);
        proof {
            assert(old(out)@ + b@.subrange(0, k as int) + seq![b@[k as int]] =~= old(out)@
                + b@.subrange(0, k + 1));
        }
        k += 1;
    }
    proof {
        assert(b@.subrange(0, 32) =~= b@);
    }
}

pub fn encode_network(n: &NetworkId, out: &mut Vec<u8>)
    ensures
        final(out)@ == old(out)@ + spec_enc_network(*n),
{
    match n {
        NetworkId::ByGenesis(g) => {
            out.push(0);
            encode_bytes32(g, out);
            proof {
                assert(old(out)@ + seq![0u8] + g@ =~= old(out)@ + spec_enc_network(*n));
            }
        },
        NetworkId::Polkadot => {
            out.push(2);
            proof {
                assert(out@ =~= old(out)@ + spec_enc_network(*n));
            }
        },
        NetworkId::Kusama => {
            out.push(3);
            proof {
                assert(out@ =~= old(out)@ + spec_enc_network(*n));
            }
        },
    }
}

pub fn encode_junction(j: &Junction, out: &mut Vec<u8>)
    ensures
        final(out)@ == old(out)@ + spec_enc_junction(*j),
{
    match j {
        Junction::Parachain(id) => {
            out.push(0);
            encode_compact(*id as u64, out);
            proof {
                assert(old(out)@ + seq![0u8] + crate::compact::spec_compact(*id as u64)
                    =~= old(out)@ + spec_enc_junction(*j));
            }
        },
        Junction::GlobalConsensus(n) => {
            out.push(9);
            encode_network(n, out);
            proof {
                assert(old(out)@ + seq![9u8] + spec_enc_network(*n) =~= old(out)@
                    + spec_enc_junction(*j));
            }
        },
    }
}

/// Appends the junctions of `l` starting at index `idx`.
fn encode_junctions_from(l: &Vec<Junction>, idx: usize, out: &mut Vec<u8>)
    requires
        idx <= l@.len(),
    ensures
        final(out)@ == old(out)@ + spec_enc_junction_seq(l@.skip(idx as int)),
    decreases l@.len() - idx,
{
    if idx < l.len() {
        let ghost pre = out@;
        encode_junction(&l[idx], out);
        encode_junctions_from(l, idx + 1, out);
        proof {
            let rest = l@.skip(idx as int);
            assert(rest[0] == l@[idx as int]);
            assert(rest.skip(1) =~= l@.skip(idx + 1));
            assert(pre + spec_enc_junction(l@[idx as int]) + spec_enc_junction_seq(
                l@.skip(idx + 1),
            ) =~= pre + spec_enc_junction_seq(rest));
        }
    } else {
        proof {
            assert(l@.skip(idx as int) =~= Seq::<Junction>::empty());
            assert(out@ + Seq::<u8>::empty() =~= out@);
        }
    }
}

pub fn encode_interior(l: &InteriorLocation, out: &mut Vec<u8>)
    requires
        l.wf(),
    ensures
        final(out)@ == old(out)@ + spec_enc_interior(l@),
{
    out.push(l.junctions.len() as u8);
    encode_junctions_from(&l.junctions, 0, out);
    proof {
        assert(l@.skip(0) =~= l@);
        assert(old(out)@ + seq![l@.len() as u8] + spec_enc_junction_seq(l@) =~= old(out)@
            + spec_enc_interior(l@));
    }
}

/// Appends a length-prefixed byte string.
pub fn encode_vec_u8(b: &Vec<u8>, out: &mut Vec<u8>)
    ensures
        final(out)@ == old(out)@ + spec_enc_vec_u8(b@),
{
    encode_compact(b.len() as u64, out);
    let mut k: usize = 0;
    let ghost mid = out@;
    while k < b.len()
        invariant
            k <= b@.len(),
            out@ == mid + b@.subrange(0, k as int),
        decreases b@.len() - k,
    {
        out.push(b[k]);
        proof {
            assert(mid + b@.subrange(0, k as int) + seq![b@[k as int]] =~= mid + b@.subrange(
                0,
                k + 1,
            ));
        }
        k += 1;
    }
    proof {
        assert(b@.subrange(0, b@.len() as int) =~= b@);
        assert(mid + b@ =~= old(out)@ + spec_enc_vec_u8(b@));
    }
}

pub fn encode_weight(w: &Weight, out: &mut Vec<u8>)
    ensures
        final(out)@ == old(out)@ + spec_enc_weight(*w),
{
    encode_compact(w.ref_time, out);
    encode_compact(w.proof_size, out);
    proof {
        assert(out@ =~= old(out)@ + spec_enc_weight(*w));
    }
}

pub fn encode_origin_kind(k: &OriginKind, out: &mut Vec<u8>)
    ensures
        final(out)@ == old(out)@ + seq![origin_kind_byte(*k)],
{
    let b: u8 = match k {
        OriginKind::Native => 0,
        OriginKind::SovereignAccount => 1,
        OriginKind::Superuser => 2,
        OriginKind::Xcm => 3,
    };
    out.push(b);
}

pub fn encode_instruction(i: &Instruction, out: &mut Vec<u8>)
    ensures
        final(out)@ == old(out)@ + spec_enc_instruction(i@),
{
    match i {
        Instruction::Transact { origin_kind, require_weight_at_most, call } => {
            out.push(TRANSACT_INDEX);
            encode_origin_kind(origin_kind, out);
            encode_weight(require_weight_at_most, out);
            encode_vec_u8(call, out);
            proof {
                assert(out@ =~= old(out)@ + spec_enc_instruction(i@));
            }
        },
        Instruction::ClearOrigin => {
            out.push(CLEAR_ORIGIN_INDEX);
            proof {
                assert(out@ =~= old(out)@ + spec_enc_instruction(i@));
            }
        },
        Instruction::SetTopic(t) => {
            out.push(SET_TOPIC_INDEX);
            encode_bytes32(t, out);
            proof {
                assert(out@ =~= old(out)@ + spec_enc_instruction(i@));
            }
        },
    }
}

fn encode_instructions_from(l: &Vec<Instruction>, idx: usize, out: &mut Vec<u8>)
    requires
        idx <= l@.len(),
    ensures
        final(out)@ == old(out)@ + spec_enc_instr_seq(
            l@.map_values(|x: Instruction| x@).skip(idx as int),
        ),
    decreases l@.len() - idx,
{
    let ghost views = l@.map_values(|x: Instruction| x@);
    if idx < l.len() {
        let ghost pre = out@;
        encode_instruction(&l[idx], out);
        encode_instructions_from(l, idx + 1, out);
        proof {
            let rest = views.skip(idx as int);
            assert(rest[0] == views[idx as int]);
            assert(rest.skip(1) =~= views.skip(idx + 1));
            assert(pre + spec_enc_instruction(views[idx as int]) + spec_enc_instr_seq(
                views.skip(idx + 1),
            ) =~= pre + spec_enc_instr_seq(rest));
        }
    } else {
        proof {
            assert(views.skip(idx as int) =~= Seq::<InstructionView>::empty());
            assert(out@ + Seq::<u8>::empty() =~= out@);
        }
    }
}

pub fn encode_program(p: &Program, out: &mut Vec<u8>)
    ensures
        final(out)@ == old(out)@ + spec_enc_program(p@),
{
    encode_compact(p.instructions.len() as u64, out);
    encode_instructions_from(&p.instructions, 0, out);
    proof {
        let views = p.instructions@.map_values(|x: Instruction| x@);
        assert(views.skip(0) =~= views);
        assert(out@ =~= old(out)@ + spec_enc_program(p@));
    }
}

pub fn encode_instruction_v2(i: &InstructionV2, out: &mut Vec<u8>)
    ensures
        final(out)@ == old(out)@ + spec_enc_instruction_v2(i@),
{
    match i {
        InstructionV2::Transact { origin_kind, require_weight_at_most, call } => {
            out.push(TRANSACT_INDEX);
            encode_origin_kind(origin_kind, out);
            encode_compact(*require_weight_at_most, out);
            encode_vec_u8(call, out);
            proof {
                assert(out@ =~= old(out)@ + spec_enc_instruction_v2(i@));
            }
        },
        InstructionV2::ClearOrigin => {
            out.push(CLEAR_ORIGIN_INDEX);
            proof {
                assert(out@ =~= old(out)@ + spec_enc_instruction_v2(i@));
            }
        },
    }
}

fn encode_instructions_v2_from(l: &Vec<InstructionV2>, idx: usize, out: &mut Vec<u8>)
    requires
        idx <= l@.len(),
    ensures
        final(out)@ == old(out)@ + spec_enc_instr_v2_seq(
            l@.map_values(|x: InstructionV2| x@).skip(idx as int),
        ),
    decreases l@.len() - idx,
{
    let ghost views = l@.map_values(|x: InstructionV2| x@);
    if idx < l.len() {
        let ghost pre = out@;
        encode_instruction_v2(&l[idx], out);
        encode_instructions_v2_from(l, idx + 1, out);
        proof {
            let rest = views.skip(idx as int);
            assert(rest[0] == views[idx as int]);
            assert(rest.skip(1) =~= views.skip(idx + 1));
            assert(pre + spec_enc_instruction_v2(views[idx as int]) + spec_enc_instr_v2_seq(
                views.skip(idx + 1),
            ) =~= pre + spec_enc_instr_v2_seq(rest));
        }
    } else {
        proof {
            assert(views.skip(idx as int) =~= Seq::<InstructionV2View>::empty());
            assert(out@ + Seq::<u8>::empty() =~= out@);
        }
    }
}

pub fn encode_program_v2(p: &ProgramV2, out: &mut Vec<u8>)
    ensures
        final(out)@ == old(out)@ + spec_enc_program_v2(p@),
{
    encode_compact(p.instructions.len() as u64, out);
    encode_instructions_v2_from(&p.instructions, 0, out);
    proof {
        let views = p.instructions@.map_values(|x: InstructionV2| x@);
        assert(views.skip(0) =~= views);
        assert(out@ =~= old(out)@ + spec_enc_program_v2(p@));
    }
}

pub fn encode_versioned_program(p: &VersionedProgram, out: &mut Vec<u8>)
    ensures
        final(out)@ == old(out)@ + spec_enc_versioned_program(p@),
{
    match p {
        VersionedProgram::V2(body) => {
            out.push(LEGACY_VERSION);
            encode_program_v2(body, out);
            proof {
                assert(out@ =~= old(out)@ + spec_enc_versioned_program(p@));
            }
        },
        VersionedProgram::V3(body) => {
            out.push(CURRENT_VERSION);
            encode_program(body, out);
            proof {
                assert(out@ =~= old(out)@ + spec_enc_versioned_program(p@));
            }
        },
    }
}

/// Packages a `(destination, program)` pair as an opaque blob.
///
/// The output is a function of the arguments alone, so encoding the same
/// logical message twice yields byte-identical blobs.
pub fn encode_message(dest: &InteriorLocation, prog: &VersionedProgram) -> (r: Vec<u8>)
    requires
        dest.wf(),
    ensures
        r@ == spec_enc_message(dest@, prog@),
{
    let mut out: Vec<u8> = Vec::new();
    out.push(CURRENT_VERSION);
    encode_interior(dest, &mut out);
    encode_versioned_program(prog, &mut out);
    proof {
        assert(out@ =~= spec_enc_message(dest@, prog@));
    }
    out
}

/// Encodes a local call as a `Transact` payload.
pub fn encode_call(c: &LocalCall) -> (r: Vec<u8>)
    ensures
        r@ == spec_enc_call(c@),
{
    let mut out: Vec<u8> = Vec::new();
    out.push(SYSTEM_PALLET_INDEX);
    match c {
        LocalCall::Remark(bytes) => {
            out.push(REMARK_CALL_INDEX);
            encode_vec_u8(bytes, &mut out);
            proof {
                assert(out@ =~= spec_enc_call(c@));
            }
        },
        LocalCall::SetStorage(items) => {
            out.push(SET_STORAGE_CALL_INDEX);
            encode_compact(items.len() as u64, &mut out);
            encode_kvs_from(items, 0, &mut out);
            proof {
                let views = items@.map_values(|p: (Vec<u8>, Vec<u8>)| (p.0@, p.1@));
                assert(views.skip(0) =~= views);
                assert(out@ =~= spec_enc_call(c@));
            }
        },
    }
    out
}

fn encode_kvs_from(l: &Vec<(Vec<u8>, Vec<u8>)>, idx: usize, out: &mut Vec<u8>)
    requires
        idx <= l@.len(),
    ensures
        final(out)@ == old(out)@ + spec_enc_kv_seq(
            l@.map_values(|p: (Vec<u8>, Vec<u8>)| (p.0@, p.1@)).skip(idx as int),
        ),
    decreases l@.len() - idx,
{
    let ghost views = l@.map_values(|p: (Vec<u8>, Vec<u8>)| (p.0@, p.1@));
    if idx < l.len() {
        let ghost pre = out@;
        let item = &l[idx];
        encode_vec_u8(&item.0, out);
        encode_vec_u8(&item.1, out);
        encode_kvs_from(l, idx + 1, out);
        proof {
            let rest = views.skip(idx as int);
            assert(rest[0] == views[idx as int]);
            assert(rest.skip(1) =~= views.skip(idx + 1));
            assert(pre + spec_enc_vec_u8(l@[idx as int].0@) + spec_enc_vec_u8(l@[idx as int].1@)
                + spec_enc_kv_seq(views.skip(idx + 1)) =~= pre + spec_enc_kv_seq(rest));
        }
    } else {
        proof {
            assert(views.skip(idx as int) =~= Seq::<(Seq<u8>, Seq<u8>)>::empty());
            assert(out@ + Seq::<u8>::empty() =~= out@);
        }
    }
}

} // verus!
