//! Proofs that the wire-format decoder inverts the encoder: whenever the
//! canonical encoding of a value lies at a position of a byte string, decoding
//! there yields the value back and stops exactly at the encoding's end.

use vstd::prelude::*;

use crate::codec::{
    bytes_wf, call_wf, instr_seq_wf, instr_v2_seq_wf, instruction_v2_wf, instruction_wf,
    interior_wf, lemma_seq_to_bytes32, message_wf, origin_kind_byte, sdec_call, sdec_instr_seq,
    sdec_instr_v2_seq, sdec_instruction, sdec_instruction_v2, sdec_interior, sdec_junction,
    sdec_junction_seq, sdec_kv, sdec_kv_seq, sdec_message, sdec_network, sdec_origin_kind,
    sdec_program, sdec_program_v2, sdec_vec_u8, sdec_versioned_program, sdec_weight,
    spec_enc_call, spec_enc_instr_seq, spec_enc_instr_v2_seq, spec_enc_instruction,
    spec_enc_instruction_v2, spec_enc_interior, spec_enc_junction, spec_enc_junction_seq,
    spec_enc_kv, spec_enc_kv_seq, spec_enc_message, spec_enc_network, spec_enc_program,
    spec_enc_program_v2, spec_enc_vec_u8, spec_enc_versioned_program, spec_enc_weight,
    versioned_program_wf, CLEAR_ORIGIN_INDEX, CURRENT_VERSION, LEGACY_VERSION, REMARK_CALL_INDEX,
    SET_STORAGE_CALL_INDEX, SET_TOPIC_INDEX, SYSTEM_PALLET_INDEX, TRANSACT_INDEX,
};
use crate::compact::{lemma_compact_round_trip, spec_compact, DecodeError};
use crate::location::{Junction, NetworkId};
use crate::program::{InstructionV2View, InstructionView, LocalCallView, VersionedProgramView};

verus! {

broadcast use vstd::array::group_array_axioms;

/// When the bytes at `i` are the concatenation `a + b`, they split into `a`
/// and `b` at `i + a.len()`.
pub proof fn lemma_subrange_split(s: Seq<u8>, i: int, a: Seq<u8>, b: Seq<u8>)
    requires
        0 <= i,
        i + a.len() + b.len() <= s.len(),
        s.subrange(i, i + a.len() + b.len()) == a + b,
    ensures
        s.subrange(i, i + a.len() as int) == a,
        s.subrange(i + a.len() as int, i + a.len() + b.len()) == b,
{
    let whole = s.subrange(i, i + a.len() + b.len());
    assert forall|k: int| 0 <= k < a.len() implies s[i + k] == a[k] by {
        assert(whole[k] == (a + b)[k]);
    }
    assert forall|k: int| 0 <= k < b.len() implies s[i + a.len() + k] == b[k] by {
        assert(whole[a.len() + k] == (a + b)[a.len() + k]);
    }
    assert(s.subrange(i, i + a.len() as int) =~= a);
    assert(s.subrange(i + a.len() as int, i + a.len() + b.len()) =~= b);
}

pub proof fn lemma_network_round_trip(n: NetworkId, s: Seq<u8>, i: int)
    requires
        0 <= i,
        i + spec_enc_network(n).len() <= s.len(),
        s.subrange(i, i + spec_enc_network(n).len() as int) == spec_enc_network(n),
    ensures
        sdec_network(s, i) == Ok::<(NetworkId, int), DecodeError>(
            (n, i + spec_enc_network(n).len()),
        ),
{
    match n {
        NetworkId::ByGenesis(g) => {
            lemma_subrange_split(s, i, seq![0u8], g@);
            assert(s[i] == 0) by {
                assert(s.subrange(i, i + 1)[0] == seq![0u8][0]);
            }
            assert(s.subrange(i + 1, i + 33) == g@);
            lemma_seq_to_bytes32(g);
        },
        NetworkId::Polkadot => {
            assert(s[i] == 2) by {
                assert(s.subrange(i, i + 1)[0] == seq![2u8][0]);
            }
        },
        NetworkId::Kusama => {
            assert(s[i] == 3) by {
                assert(s.subrange(i, i + 1)[0] == seq![3u8][0]);
            }
        },
    }
}

pub proof fn lemma_junction_round_trip(j: Junction, s: Seq<u8>, i: int)
    requires
        0 <= i,
        i + spec_enc_junction(j).len() <= s.len(),
        s.subrange(i, i + spec_enc_junction(j).len() as int) == spec_enc_junction(j),
    ensures
        sdec_junction(s, i) == Ok::<(Junction, int), DecodeError>(
            (j, i + spec_enc_junction(j).len()),
        ),
{
    match j {
        Junction::Parachain(id) => {
            lemma_subrange_split(s, i, seq![0u8], spec_compact(id as u64));
            assert(s[i] == 0) by {
                assert(s.subrange(i, i + 1)[0] == seq![0u8][0]);
            }
            lemma_compact_round_trip(id as u64, s, i + 1);
        },
        Junction::GlobalConsensus(n) => {
            lemma_subrange_split(s, i, seq![9u8], spec_enc_network(n));
            assert(s[i] == 9) by {
                assert(s.subrange(i, i + 1)[0] == seq![9u8][0]);
            }
            lemma_network_round_trip(n, s, i + 1);
        },
    }
}

pub proof fn lemma_junction_seq_round_trip(js: Seq<Junction>, s: Seq<u8>, i: int)
    requires
        0 <= i,
        i + spec_enc_junction_seq(js).len() <= s.len(),
        s.subrange(i, i + spec_enc_junction_seq(js).len() as int) == spec_enc_junction_seq(js),
    ensures
        sdec_junction_seq(s, i, js.len()) == Ok::<(Seq<Junction>, int), DecodeError>(
            (js, i + spec_enc_junction_seq(js).len()),
        ),
    decreases js.len(),
{
    if js.len() == 0 {
        assert(sdec_junction_seq(s, i, 0) == Ok::<(Seq<Junction>, int), DecodeError>(
            (Seq::empty(), i),
        ));
        assert(js =~= Seq::<Junction>::empty());
    } else {
        let head = spec_enc_junction(js[0]);
        let tail = spec_enc_junction_seq(js.skip(1));
        lemma_subrange_split(s, i, head, tail);
        lemma_junction_round_trip(js[0], s, i);
        lemma_junction_seq_round_trip(js.skip(1), s, i + head.len());
        assert(seq![js[0]] + js.skip(1) =~= js);
    }
}

pub proof fn lemma_interior_round_trip(js: Seq<Junction>, s: Seq<u8>, i: int)
    requires
        0 <= i,
        interior_wf(js),
        i + spec_enc_interior(js).len() <= s.len(),
        s.subrange(i, i + spec_enc_interior(js).len() as int) == spec_enc_interior(js),
    ensures
        sdec_interior(s, i) == Ok::<(Seq<Junction>, int), DecodeError>(
            (js, i + spec_enc_interior(js).len()),
        ),
{
    lemma_subrange_split(s, i, seq![js.len() as u8], spec_enc_junction_seq(js));
    assert(s[i] == js.len() as u8) by {
        assert(s.subrange(i, i + 1)[0] == seq![js.len() as u8][0]);
    }
    lemma_junction_seq_round_trip(js, s, i + 1);
}

pub proof fn lemma_vec_u8_round_trip(b: Seq<u8>, s: Seq<u8>, i: int)
    requires
        0 <= i,
        bytes_wf(b),
        i + spec_enc_vec_u8(b).len() <= s.len(),
        s.subrange(i, i + spec_enc_vec_u8(b).len() as int) == spec_enc_vec_u8(b),
    ensures
        sdec_vec_u8(s, i) == Ok::<(Seq<u8>, int), DecodeError>(
            (b, i + spec_enc_vec_u8(b).len()),
        ),
{
    let lenc = spec_compact(b.len() as u64);
    lemma_subrange_split(s, i, lenc, b);
    lemma_compact_round_trip(b.len() as u64, s, i);
}

pub proof fn lemma_weight_round_trip(w: crate::program::Weight, s: Seq<u8>, i: int)
    requires
        0 <= i,
        i + spec_enc_weight(w).len() <= s.len(),
        s.subrange(i, i + spec_enc_weight(w).len() as int) == spec_enc_weight(w),
    ensures
        sdec_weight(s, i) == Ok::<(crate::program::Weight, int), DecodeError>(
            (w, i + spec_enc_weight(w).len()),
        ),
{
    lemma_subrange_split(s, i, spec_compact(w.ref_time), spec_compact(w.proof_size));
    lemma_compact_round_trip(w.ref_time, s, i);
    lemma_compact_round_trip(w.proof_size, s, i + spec_compact(w.ref_time).len());
}

pub proof fn lemma_origin_kind_round_trip(k: crate::program::OriginKind, s: Seq<u8>, i: int)
    requires
        0 <= i < s.len(),
        s[i] == origin_kind_byte(k),
    ensures
        sdec_origin_kind(s, i) == Ok::<(crate::program::OriginKind, int), DecodeError>((k, i + 1)),
{
}

pub proof fn lemma_instruction_round_trip(iv: InstructionView, s: Seq<u8>, i: int)
    requires
        0 <= i,
        instruction_wf(iv),
        i + spec_enc_instruction(iv).len() <= s.len(),
        s.subrange(i, i + spec_enc_instruction(iv).len() as int) == spec_enc_instruction(iv),
    ensures
        sdec_instruction(s, i) == Ok::<(InstructionView, int), DecodeError>(
            (iv, i + spec_enc_instruction(iv).len()),
        ),
{
    match iv {
        InstructionView::Transact { origin_kind, require_weight_at_most, call } => {
            let head = seq![TRANSACT_INDEX, origin_kind_byte(origin_kind)];
            let wenc = spec_enc_weight(require_weight_at_most);
            let cenc = spec_enc_vec_u8(call);
            lemma_subrange_split(s, i, head + wenc, cenc);
            lemma_subrange_split(s, i, head, wenc);
            assert(s[i] == TRANSACT_INDEX && s[i + 1] == origin_kind_byte(origin_kind)) by {
                assert(s.subrange(i, i + 2)[0] == head[0]);
                assert(s.subrange(i, i + 2)[1] == head[1]);
            }
            lemma_origin_kind_round_trip(origin_kind, s, i + 1);
            lemma_weight_round_trip(require_weight_at_most, s, i + 2);
            lemma_vec_u8_round_trip(call, s, i + 2 + wenc.len());
        },
        InstructionView::ClearOrigin => {
            assert(s[i] == CLEAR_ORIGIN_INDEX) by {
                assert(s.subrange(i, i + 1)[0] == seq![CLEAR_ORIGIN_INDEX][0]);
            }
        },
        InstructionView::SetTopic(t) => {
            lemma_subrange_split(s, i, seq![SET_TOPIC_INDEX], t@);
            assert(s[i] == SET_TOPIC_INDEX) by {
                assert(s.subrange(i, i + 1)[0] == seq![SET_TOPIC_INDEX][0]);
            }
            lemma_seq_to_bytes32(t);
        },
    }
}

pub proof fn lemma_instr_seq_round_trip(ivs: Seq<InstructionView>, s: Seq<u8>, i: int)
    requires
        0 <= i,
        forall|k: int| 0 <= k < ivs.len() ==> instruction_wf(#[trigger] ivs[k]),
        i + spec_enc_instr_seq(ivs).len() <= s.len(),
        s.subrange(i, i + spec_enc_instr_seq(ivs).len() as int) == spec_enc_instr_seq(ivs),
    ensures
        sdec_instr_seq(s, i, ivs.len()) == Ok::<(Seq<InstructionView>, int), DecodeError>(
            (ivs, i + spec_enc_instr_seq(ivs).len()),
        ),
    decreases ivs.len(),
{
    if ivs.len() == 0 {
        assert(ivs =~= Seq::<InstructionView>::empty());
    } else {
        let head = spec_enc_instruction(ivs[0]);
        let tail = spec_enc_instr_seq(ivs.skip(1));
        lemma_subrange_split(s, i, head, tail);
        lemma_instruction_round_trip(ivs[0], s, i);
        assert(forall|k: int|
            0 <= k < ivs.skip(1).len() ==> instruction_wf(#[trigger] ivs.skip(1)[k]));
        lemma_instr_seq_round_trip(ivs.skip(1), s, i + head.len());
        assert(seq![ivs[0]] + ivs.skip(1) =~= ivs);
    }
}

pub proof fn lemma_program_round_trip(ivs: Seq<InstructionView>, s: Seq<u8>, i: int)
    requires
        0 <= i,
        instr_seq_wf(ivs),
        i + spec_enc_program(ivs).len() <= s.len(),
        s.subrange(i, i + spec_enc_program(ivs).len() as int) == spec_enc_program(ivs),
    ensures
        sdec_program(s, i) == Ok::<(Seq<InstructionView>, int), DecodeError>(
            (ivs, i + spec_enc_program(ivs).len()),
        ),
{
    lemma_subrange_split(s, i, spec_compact(ivs.len() as u64), spec_enc_instr_seq(ivs));
    lemma_compact_round_trip(ivs.len() as u64, s, i);
    lemma_instr_seq_round_trip(ivs, s, i + spec_compact(ivs.len() as u64).len());
}

pub proof fn lemma_instruction_v2_round_trip(iv: InstructionV2View, s: Seq<u8>, i: int)
    requires
        0 <= i,
        instruction_v2_wf(iv),
        i + spec_enc_instruction_v2(iv).len() <= s.len(),
        s.subrange(i, i + spec_enc_instruction_v2(iv).len() as int) == spec_enc_instruction_v2(iv),
    ensures
        sdec_instruction_v2(s, i) == Ok::<(InstructionV2View, int), DecodeError>(
            (iv, i + spec_enc_instruction_v2(iv).len()),
        ),
{
    match iv {
        InstructionV2View::Transact { origin_kind, require_weight_at_most, call } => {
            let head = seq![TRANSACT_INDEX, origin_kind_byte(origin_kind)];
            let wenc = spec_compact(require_weight_at_most);
            let cenc = spec_enc_vec_u8(call);
            lemma_subrange_split(s, i, head + wenc, cenc);
            lemma_subrange_split(s, i, head, wenc);
            assert(s[i] == TRANSACT_INDEX && s[i + 1] == origin_kind_byte(origin_kind)) by {
                assert(s.subrange(i, i + 2)[0] == head[0]);
                assert(s.subrange(i, i + 2)[1] == head[1]);
            }
            lemma_origin_kind_round_trip(origin_kind, s, i + 1);
            lemma_compact_round_trip(require_weight_at_most, s, i + 2);
            lemma_vec_u8_round_trip(call, s, i + 2 + wenc.len());
        },
        InstructionV2View::ClearOrigin => {
            assert(s[i] == CLEAR_ORIGIN_INDEX) by {
                assert(s.subrange(i, i + 1)[0] == seq![CLEAR_ORIGIN_INDEX][0]);
            }
        },
    }
}

pub proof fn lemma_instr_v2_seq_round_trip(ivs: Seq<InstructionV2View>, s: Seq<u8>, i: int)
    requires
        0 <= i,
        forall|k: int| 0 <= k < ivs.len() ==> instruction_v2_wf(#[trigger] ivs[k]),
        i + spec_enc_instr_v2_seq(ivs).len() <= s.len(),
        s.subrange(i, i + spec_enc_instr_v2_seq(ivs).len() as int) == spec_enc_instr_v2_seq(ivs),
    ensures
        sdec_instr_v2_seq(s, i, ivs.len()) == Ok::<(Seq<InstructionV2View>, int), DecodeError>(
            (ivs, i + spec_enc_instr_v2_seq(ivs).len()),
        ),
    decreases ivs.len(),
{
    if ivs.len() == 0 {
        assert(ivs =~= Seq::<InstructionV2View>::empty());
    } else {
        let head = spec_enc_instruction_v2(ivs[0]);
        let tail = spec_enc_instr_v2_seq(ivs.skip(1));
        lemma_subrange_split(s, i, head, tail);
        lemma_instruction_v2_round_trip(ivs[0], s, i);
        assert(forall|k: int|
            0 <= k < ivs.skip(1).len() ==> instruction_v2_wf(#[trigger] ivs.skip(1)[k]));
        lemma_instr_v2_seq_round_trip(ivs.skip(1), s, i + head.len());
        assert(seq![ivs[0]] + ivs.skip(1) =~= ivs);
    }
}

pub proof fn lemma_program_v2_round_trip(ivs: Seq<InstructionV2View>, s: Seq<u8>, i: int)
    requires
        0 <= i,
        instr_v2_seq_wf(ivs),
        i + spec_enc_program_v2(ivs).len() <= s.len(),
        s.subrange(i, i + spec_enc_program_v2(ivs).len() as int) == spec_enc_program_v2(ivs),
    ensures
        sdec_program_v2(s, i) == Ok::<(Seq<InstructionV2View>, int), DecodeError>(
            (ivs, i + spec_enc_program_v2(ivs).len()),
        ),
{
    lemma_subrange_split(s, i, spec_compact(ivs.len() as u64), spec_enc_instr_v2_seq(ivs));
    lemma_compact_round_trip(ivs.len() as u64, s, i);
    lemma_instr_v2_seq_round_trip(ivs, s, i + spec_compact(ivs.len() as u64).len());
}

pub proof fn lemma_versioned_program_round_trip(p: VersionedProgramView, s: Seq<u8>, i: int)
    requires
        0 <= i,
        versioned_program_wf(p),
        i + spec_enc_versioned_program(p).len() <= s.len(),
        s.subrange(i, i + spec_enc_versioned_program(p).len() as int) == spec_enc_versioned_program(
            p,
        ),
    ensures
        sdec_versioned_program(s, i) == Ok::<(VersionedProgramView, int), DecodeError>(
            (p, i + spec_enc_versioned_program(p).len()),
        ),
{
    match p {
        VersionedProgramView::V2(ivs) => {
            lemma_subrange_split(s, i, seq![LEGACY_VERSION], spec_enc_program_v2(ivs));
            assert(s[i] == LEGACY_VERSION) by {
                assert(s.subrange(i, i + 1)[0] == seq![LEGACY_VERSION][0]);
            }
            lemma_program_v2_round_trip(ivs, s, i + 1);
        },
        VersionedProgramView::V3(ivs) => {
            lemma_subrange_split(s, i, seq![CURRENT_VERSION], spec_enc_program(ivs));
            assert(s[i] == CURRENT_VERSION) by {
                assert(s.subrange(i, i + 1)[0] == seq![CURRENT_VERSION][0]);
            }
            lemma_program_round_trip(ivs, s, i + 1);
        },
    }
}

/// Round trip of the whole blob: decoding the encoding of any well-formed
/// `(destination, program)` pair yields exactly that pair.
pub proof fn lemma_message_round_trip(dest: Seq<Junction>, prog: VersionedProgramView)
    requires
        message_wf(dest, prog),
    ensures
        sdec_message(spec_enc_message(dest, prog)) == Ok::<
            (Seq<Junction>, VersionedProgramView),
            DecodeError,
        >((dest, prog)),
{
    let s = spec_enc_message(dest, prog);
    let denc = spec_enc_interior(dest);
    let penc = spec_enc_versioned_program(prog);
    assert(s.subrange(0, s.len() as int) =~= s);
    assert(s.subrange(0, s.len() as int) == seq![CURRENT_VERSION] + (denc + penc)) by {
        assert(seq![CURRENT_VERSION] + denc + penc =~= seq![CURRENT_VERSION] + (denc + penc));
    }
    lemma_subrange_split(s, 0, seq![CURRENT_VERSION], denc + penc);
    lemma_subrange_split(s, 1, denc, penc);
    assert(s[0] == CURRENT_VERSION);
    lemma_interior_round_trip(dest, s, 1);
    lemma_versioned_program_round_trip(prog, s, 1 + denc.len() as int);
}

pub proof fn lemma_kv_round_trip(p: (Seq<u8>, Seq<u8>), s: Seq<u8>, i: int)
    requires
        0 <= i,
        bytes_wf(p.0),
        bytes_wf(p.1),
        i + spec_enc_kv(p).len() <= s.len(),
        s.subrange(i, i + spec_enc_kv(p).len() as int) == spec_enc_kv(p),
    ensures
        sdec_kv(s, i) == Ok::<((Seq<u8>, Seq<u8>), int), DecodeError>(
            (p, i + spec_enc_kv(p).len()),
        ),
{
    lemma_subrange_split(s, i, spec_enc_vec_u8(p.0), spec_enc_vec_u8(p.1));
    lemma_vec_u8_round_trip(p.0, s, i);
    lemma_vec_u8_round_trip(p.1, s, i + spec_enc_vec_u8(p.0).len());
}

pub proof fn lemma_kv_seq_round_trip(items: Seq<(Seq<u8>, Seq<u8>)>, s: Seq<u8>, i: int)
    requires
        0 <= i,
        forall|k: int|
            0 <= k < items.len() ==> bytes_wf((#[trigger] items[k]).0) && bytes_wf(items[k].1),
        i + spec_enc_kv_seq(items).len() <= s.len(),
        s.subrange(i, i + spec_enc_kv_seq(items).len() as int) == spec_enc_kv_seq(items),
    ensures
        sdec_kv_seq(s, i, items.len()) == Ok::<(Seq<(Seq<u8>, Seq<u8>)>, int), DecodeError>(
            (items, i + spec_enc_kv_seq(items).len()),
        ),
    decreases items.len(),
{
    if items.len() == 0 {
        assert(items =~= Seq::<(Seq<u8>, Seq<u8>)>::empty());
    } else {
        let head = spec_enc_kv(items[0]);
        let tail = spec_enc_kv_seq(items.skip(1));
        lemma_subrange_split(s, i, head, tail);
        lemma_kv_round_trip(items[0], s, i);
        assert(forall|k: int|
            0 <= k < items.skip(1).len() ==> bytes_wf((#[trigger] items.skip(1)[k]).0) && bytes_wf(
                items.skip(1)[k].1,
            ));
        lemma_kv_seq_round_trip(items.skip(1), s, i + head.len());
        assert(seq![items[0]] + items.skip(1) =~= items);
    }
}

/// Round trip of the local call payload.
pub proof fn lemma_call_round_trip(c: LocalCallView)
    requires
        call_wf(c),
    ensures
        sdec_call(spec_enc_call(c)) == Ok::<LocalCallView, DecodeError>(c),
{
    let s = spec_enc_call(c);
    assert(s.subrange(0, s.len() as int) =~= s);
    match c {
        LocalCallView::Remark(bytes) => {
            let head = seq![SYSTEM_PALLET_INDEX, REMARK_CALL_INDEX];
            assert(s.subrange(0, s.len() as int) == head + spec_enc_vec_u8(bytes));
            lemma_subrange_split(s, 0, head, spec_enc_vec_u8(bytes));
            assert(s[0] == SYSTEM_PALLET_INDEX && s[1] == REMARK_CALL_INDEX) by {
                assert(s.subrange(0, 2)[0] == head[0]);
                assert(s.subrange(0, 2)[1] == head[1]);
            }
            lemma_vec_u8_round_trip(bytes, s, 2);
        },
        LocalCallView::SetStorage(items) => {
            let head = seq![SYSTEM_PALLET_INDEX, SET_STORAGE_CALL_INDEX];
            let lenc = spec_compact(items.len() as u64);
            let ienc = spec_enc_kv_seq(items);
            assert(s.subrange(0, s.len() as int) == head + (lenc + ienc)) by {
                assert(head + lenc + ienc =~= head + (lenc + ienc));
            }
            lemma_subrange_split(s, 0, head, lenc + ienc);
            lemma_subrange_split(s, 2, lenc, ienc);
            assert(s[0] == SYSTEM_PALLET_INDEX && s[1] == SET_STORAGE_CALL_INDEX) by {
                assert(s.subrange(0, 2)[0] == head[0]);
                assert(s.subrange(0, 2)[1] == head[1]);
            }
            lemma_compact_round_trip(items.len() as u64, s, 2);
            lemma_kv_seq_round_trip(items, s, 2 + lenc.len() as int);
        },
    }
}

} // verus!
